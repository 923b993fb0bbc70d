//! Presets, and what stands in for them when they cannot be loaded.

use crate::queue::{is_usable, usable, views_of, TextQueue, TextSource, TextSourceView};
use vstd::prelude::*;

verus! {

/// Five seconds, as the bit pattern of an IEEE-754 single-precision number.
pub const DEMO_DURATION_BITS: u32 = 0x40a0_0000;

/// The announcement that is shown when no preset could be loaded.
pub open spec fn demo_text() -> TextSourceView {
    TextSourceView { content: "This is a Demo Text"@, duration_bits: DEMO_DURATION_BITS }
}

/// The announcements to show: those that were loaded, as they are, where a
/// queue can be built over them, and the single demo announcement otherwise.
///
/// The demo announcement stands in where loading failed, where the presets
/// hold no announcement, and where one of them has a duration that is not
/// positive.  A queue can be built over the result whatever was loaded.
pub fn unwrap_csv(loaded: Option<Vec<TextSource>>) -> (texts: Vec<TextSource>)
    ensures
        usable(texts@),
        loaded is Some && usable(loaded->0@) ==> texts == loaded->0,
        !(loaded is Some && usable(loaded->0@)) ==> texts@.len() == 1 && texts@[0]@ == demo_text(),
{
    match loaded {
        Some(given) => {
            if is_usable(&given) {
                return given;
            }
        },
        None => {},
    }
    let mut texts: Vec<TextSource> = Vec::new();
    texts.push(
        TextSource { content: "This is a Demo Text".to_owned(), duration_bits: DEMO_DURATION_BITS },
    );
    assert(views_of(texts@)[0] == demo_text());
    texts
}

/// The queue to show: over the announcements that were loaded, where a queue
/// can be built over them, and over the single demo announcement otherwise,
/// with the cursor on the first announcement.
pub fn preset_queue(loaded: Option<Vec<TextSource>>) -> (queue: TextQueue)
    ensures
        queue.wf(),
        queue@.current == 0,
        loaded is Some && usable(loaded->0@) ==> queue@.texts == views_of(loaded->0@),
        !(loaded is Some && usable(loaded->0@)) ==> queue@.texts == seq![demo_text()],
{
    let texts = unwrap_csv(loaded);
    let ghost shown = views_of(texts@);
    match TextQueue::new(texts) {
        Some(queue) => {
            assert(!(loaded is Some && usable(loaded->0@)) ==> shown =~= seq![demo_text()]);
            queue
        },
        None => vstd::pervasive::unreached(),
    }
}

} // verus!
