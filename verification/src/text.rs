//! Measuring a text by its characters.

use vstd::prelude::*;

verus! {

/// Whether `c` is an ASCII character.
pub open spec fn is_ascii_char(c: char) -> bool {
    (c as u32) < 128
}

/// The ASCII characters of `s`, in order.
pub open spec fn ascii_chars(s: Seq<char>) -> Seq<char> {
    s.filter(|c: char| is_ascii_char(c))
}

/// The characters of `s` that are not ASCII, in order.
pub open spec fn wide_chars(s: Seq<char>) -> Seq<char> {
    s.filter(|c: char| !is_ascii_char(c))
}

/// Counts the characters of `s`: first those that are ASCII, then those that
/// are not.  A display gives the second kind twice the width of the first.
pub fn count_ascii(s: &str) -> (counts: (usize, usize))
    ensures
        counts.0 == ascii_chars(s@).len(),
        counts.1 == wide_chars(s@).len(),
        counts.0 + counts.1 == s@.len(),
{
    broadcast use vstd::string::axiom_spec_iter;

    // The characters can be counted in a `usize`, so neither counter overflows.
    let total = s.unicode_len();
    let mut ascii: usize = 0;
    let mut wide: usize = 0;
    for c in it: s.chars()
        invariant
            it.seq() == s@,
            s@.len() == total,
            ascii == ascii_chars(s@.take(it.index() as int)).len(),
            wide == wide_chars(s@.take(it.index() as int)).len(),
            ascii + wide == it.index(),
    {
        proof {
            let i = it.index() as int;
            assert(s@.take(i + 1) =~= s@.take(i).push(c));
            s@.take(i).lemma_filter_push(c, |c: char| is_ascii_char(c));
            s@.take(i).lemma_filter_push(c, |c: char| !is_ascii_char(c));
        }
        if (c as u32) < 128 {
            ascii += 1;
        } else {
            wide += 1;
        }
    }
    proof {
        assert(s@.take(s@.len() as int) =~= s@);
    }
    (ascii, wide)
}

/// The width of `s` in cells of half a character's height: one for each
/// ASCII character, two for each other character.
pub open spec fn half_widths(s: Seq<char>) -> nat {
    ascii_chars(s).len() + 2 * wide_chars(s).len()
}

/// A text is at least as many bytes long as it is half-widths wide: UTF-8
/// gives an ASCII character one byte and every other character two or more.
pub proof fn lemma_half_widths_fit_in_bytes(s: Seq<char>)
    ensures
        half_widths(s) <= vstd::utf8::encode_utf8(s).len(),
    decreases s.len(),
{
    if s.len() == 0 {
        s.lemma_filter_len(|c: char| is_ascii_char(c));
        s.lemma_filter_len(|c: char| !is_ascii_char(c));
    } else {
        let rest = s.drop_first();
        lemma_half_widths_fit_in_bytes(rest);
        assert(seq![s[0]] + rest =~= s);
        rest.lemma_filter_prepend(s[0], |c: char| is_ascii_char(c));
        rest.lemma_filter_prepend(s[0], |c: char| !is_ascii_char(c));
    }
}

/// Measures `s` in cells of half a character's height: an ASCII character
/// takes one, every other character two.
pub fn width_in_half_widths(s: &str) -> (width: usize)
    ensures
        width == half_widths(s@),
        s@.len() <= width <= 2 * s@.len(),
{
    // The bytes of the text can be counted in a `usize`, and so can its width.
    let bytes = s.as_bytes().len();
    proof {
        lemma_half_widths_fit_in_bytes(s@);
    }
    let (ascii, wide) = count_ascii(s);
    wide * 2 + ascii
}

} // verus!
