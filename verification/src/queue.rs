//! The ordered announcement queue and its cursor.

use vstd::prelude::*;

verus! {

/// Whether `bits`, read as an IEEE-754 single-precision number, is a finite
/// number greater than zero.
///
/// Positive finite singles are exactly the bit patterns from `0x0000_0001`
/// (the smallest subnormal) to `0x7f7f_ffff` (the largest finite value): the
/// sign bit is clear, and the pattern is neither zero nor an infinity or NaN.
pub open spec fn is_positive_duration(bits: u32) -> bool {
    0 < bits && bits < 0x7f80_0000
}

/// One announcement: the text to show and how long a crossing of the screen
/// takes.
///
/// The duration is a number of seconds, held as the bit pattern of an IEEE-754
/// single-precision number, so that the value read from a preset reaches the
/// renderer unchanged.
#[derive(Clone, Debug, PartialEq, Eq)]
pub struct TextSource {
    pub content: String,
    pub duration_bits: u32,
}

/// The mathematical value of a [`TextSource`].
pub struct TextSourceView {
    pub content: Seq<char>,
    pub duration_bits: u32,
}

impl View for TextSource {
    type V = TextSourceView;

    open spec fn view(&self) -> TextSourceView {
        TextSourceView { content: self.content@, duration_bits: self.duration_bits }
    }
}

impl TextSource {
    /// Whether the duration is a finite number of seconds greater than zero.
    pub fn has_positive_duration(&self) -> (ok: bool)
        ensures
            ok == is_positive_duration(self.duration_bits),
    {
        0 < self.duration_bits && self.duration_bits < 0x7f80_0000
    }

    /// A copy of this announcement.
    pub fn duplicate(&self) -> (copy: TextSource)
        ensures
            copy == *self,
    {
        TextSource { content: self.content.clone(), duration_bits: self.duration_bits }
    }
}

/// The mathematical value of a [`TextQueue`]: the announcements in order and
/// the position of the cursor.
pub struct QueueView {
    pub texts: Seq<TextSourceView>,
    pub current: nat,
}

impl QueueView {
    /// A queue is never empty, its cursor names one of its announcements, and
    /// every duration is positive.
    pub open spec fn wf(self) -> bool {
        &&& self.texts.len() >= 1
        &&& self.current < self.texts.len()
        &&& forall|i: int|
            0 <= i < self.texts.len() ==> is_positive_duration(
                (#[trigger] self.texts[i]).duration_bits,
            )
    }

    /// The queue with the cursor moved one place on, wrapping at the end.
    pub open spec fn advance(self) -> QueueView {
        QueueView { texts: self.texts, current: (self.current + 1) % self.texts.len() }
    }

    /// The queue after `n` advances.
    pub open spec fn advance_n(self, n: nat) -> QueueView
        decreases n,
    {
        if n == 0 {
            self
        } else {
            self.advance_n((n - 1) as nat).advance()
        }
    }

    /// The queue with the cursor set to `index`, or unchanged where `index`
    /// names no announcement.
    pub open spec fn jump(self, index: nat) -> QueueView {
        if index < self.texts.len() {
            QueueView { texts: self.texts, current: index }
        } else {
            self
        }
    }

    /// The announcement under the cursor.
    pub open spec fn current_text(self) -> TextSourceView {
        self.texts[self.current as int]
    }

    /// The content shown before `index`: empty at the head of the queue, the
    /// predecessor's content elsewhere.
    pub open spec fn prev_text(self, index: nat) -> Seq<char> {
        if index == 0 {
            Seq::empty()
        } else {
            self.texts[index - 1].content
        }
    }

    /// The content shown after `index`, wrapping to the head of the queue.
    pub open spec fn next_text(self, index: nat) -> Seq<char> {
        self.texts[((index + 1) % self.texts.len()) as int].content
    }
}

/// The views of the announcements of `texts`, in order.
pub open spec fn views_of(texts: Seq<TextSource>) -> Seq<TextSourceView> {
    Seq::new(texts.len(), |i: int| texts[i]@)
}

/// Whether a queue can be built over `texts`: there is at least one
/// announcement, and every duration is positive.
pub open spec fn usable(texts: Seq<TextSource>) -> bool {
    (QueueView { texts: views_of(texts), current: 0 }).wf()
}

/// Whether a queue can be built over `texts`.
pub fn is_usable(texts: &Vec<TextSource>) -> (ok: bool)
    ensures
        ok == usable(texts@),
{
    if texts.len() == 0 {
        return false;
    }
    let mut i: usize = 0;
    while i < texts.len()
        invariant
            i <= texts.len(),
            forall|j: int| 0 <= j < i ==> is_positive_duration(#[trigger] texts[j].duration_bits),
        decreases texts.len() - i,
    {
        if !texts[i].has_positive_duration() {
            assert(!is_positive_duration(views_of(texts@)[i as int].duration_bits));
            return false;
        }
        i += 1;
    }
    true
}

/// The announcements in display order, with a cursor on the current one.
#[derive(Debug)]
pub struct TextQueue {
    texts: Vec<TextSource>,
    current_index: usize,
}

impl View for TextQueue {
    type V = QueueView;

    closed spec fn view(&self) -> QueueView {
        QueueView { texts: views_of(self.texts@), current: self.current_index as nat }
    }
}

impl TextQueue {
    /// The invariant of a queue: see [`QueueView::wf`].
    pub open spec fn wf(&self) -> bool {
        self@.wf()
    }

    /// Builds a queue over `texts` with the cursor on the first announcement.
    ///
    /// Fails where `texts` is empty or holds a duration that is not positive.
    pub fn new(texts: Vec<TextSource>) -> (made: Option<TextQueue>)
        ensures
            made is Some <==> usable(texts@),
            made matches Some(q) ==> q.wf() && q@.texts == views_of(texts@) && q@.current == 0,
    {
        if is_usable(&texts) {
            Some(TextQueue { texts, current_index: 0 })
        } else {
            None
        }
    }

    /// A queue in memory has no more announcements than can be counted.
    pub proof fn lemma_len_fits(&self)
        ensures
            self@.texts.len() <= usize::MAX,
    {
        assert(self.texts@.len() == self.texts.len());
    }

    /// The number of announcements.
    pub fn len(&self) -> (n: usize)
        ensures
            n == self@.texts.len(),
    {
        self.texts.len()
    }

    /// The position of the cursor.
    pub fn current_index(&self) -> (i: usize)
        ensures
            i == self@.current,
    {
        self.current_index
    }

    /// The announcement at `index`, if there is one.
    pub fn get(&self, index: usize) -> (found: Option<TextSource>)
        ensures
            index < self@.texts.len() ==> (found matches Some(t) && t@ == self@.texts[index as int]),
            index >= self@.texts.len() ==> found is None,
    {
        if index < self.texts.len() {
            Some(self.texts[index].duplicate())
        } else {
            None
        }
    }

    /// The announcement under the cursor.
    pub fn current(&self) -> (text: TextSource)
        requires
            self.wf(),
        ensures
            text@ == self@.current_text(),
    {
        self.texts[self.current_index].duplicate()
    }

    /// Moves the cursor one place on, wrapping at the end, and returns the
    /// announcement it then stands on.
    pub fn advance(&mut self) -> (text: TextSource)
        requires
            old(self).wf(),
        ensures
            final(self).wf(),
            final(self)@ == old(self)@.advance(),
            text@ == final(self)@.current_text(),
    {
        let len = self.texts.len();
        let next = if self.current_index == len - 1 {
            0
        } else {
            self.current_index + 1
        };
        assert(next == (self.current_index + 1) % (len as int)) by {
            if self.current_index == len - 1 {
                vstd::arithmetic::div_mod::lemma_mod_self_0(len as int);
            } else {
                vstd::arithmetic::div_mod::lemma_small_mod((self.current_index + 1) as nat, len as nat);
            }
        }
        self.current_index = next;
        self.texts[self.current_index].duplicate()
    }

    /// Sets the cursor to `index` and returns the announcement there.  Where
    /// `index` names no announcement, nothing changes and nothing is returned.
    pub fn jump(&mut self, index: usize) -> (text: Option<TextSource>)
        requires
            old(self).wf(),
        ensures
            final(self).wf(),
            final(self)@ == old(self)@.jump(index as nat),
            index < old(self)@.texts.len() ==> (text matches Some(t) && t@ == old(self)@.texts[index as int]),
            index >= old(self)@.texts.len() ==> text is None,
    {
        if index < self.texts.len() {
            self.current_index = index;
            Some(self.texts[index].duplicate())
        } else {
            None
        }
    }

    /// The contents shown before and after the announcement at `index`.
    ///
    /// The successor wraps round to the head of the queue.  The predecessor
    /// does not: at the head of the queue it is the empty string.
    pub fn neighbors(&self, index: usize) -> (around: (String, String))
        requires
            self.wf(),
            index < self@.texts.len(),
        ensures
            around.0@ == self@.prev_text(index as nat),
            around.1@ == self@.next_text(index as nat),
    {
        let len = self.texts.len();
        let prev = if index == 0 {
            String::new()
        } else {
            self.texts[index - 1].content.clone()
        };
        let after = if index == len - 1 {
            0
        } else {
            index + 1
        };
        assert(after == (index + 1) % (len as int)) by {
            if index == len - 1 {
                vstd::arithmetic::div_mod::lemma_mod_self_0(len as int);
            } else {
                vstd::arithmetic::div_mod::lemma_small_mod((index + 1) as nat, len as nat);
            }
        }
        let next = self.texts[after].content.clone();
        (prev, next)
    }
}

/// Advancing a queue as many times as it has announcements brings the cursor
/// back to where it stood, and the cursor names an announcement after every
/// step on the way.
pub proof fn lemma_advance_full_cycle(q: QueueView)
    requires
        q.wf(),
    ensures
        q.advance_n(q.texts.len()) == q,
        q.advance_n(q.texts.len()).current_text() == q.current_text(),
        forall|k: nat| (#[trigger] q.advance_n(k)).wf(),
{
    assert forall|k: nat| (#[trigger] q.advance_n(k)).wf() by {
        lemma_advance_n(q, k);
    }
    lemma_advance_n(q, q.texts.len());
    vstd::arithmetic::div_mod::lemma_mod_add_multiples_vanish(q.current as int, q.texts.len() as int);
    vstd::arithmetic::div_mod::lemma_small_mod(q.current, q.texts.len());
}

/// After `n` advances the cursor stands `n` places on, counted round the queue.
pub proof fn lemma_advance_n(q: QueueView, n: nat)
    requires
        q.wf(),
    ensures
        q.advance_n(n).wf(),
        q.advance_n(n).texts == q.texts,
        q.advance_n(n).current == (q.current + n) % q.texts.len(),
    decreases n,
{
    let len = q.texts.len() as int;
    if n == 0 {
        vstd::arithmetic::div_mod::lemma_small_mod(q.current, q.texts.len());
    } else {
        lemma_advance_n(q, (n - 1) as nat);
        let before = q.advance_n((n - 1) as nat);
        vstd::arithmetic::div_mod::lemma_add_mod_noop((q.current + n - 1) as int, 1, len);
        vstd::arithmetic::div_mod::lemma_mod_twice((q.current + n - 1) as int, len);
        vstd::arithmetic::div_mod::lemma_add_mod_noop(before.current as int, 1, len);
    }
}

} // verus!
