//! Moving between strings and the characters they hold.

use vstd::prelude::*;

verus! {

/// `String::push` appends one character to the end of the string and leaves
/// the characters before it as they were.
pub assume_specification[ String::push ](text: &mut String, c: char)
    ensures
        final(text)@ == old(text)@.push(c),
;

/// The characters of `text`, in order.
pub(crate) fn chars_of(text: &str) -> (chars: Vec<char>)
    ensures
        chars@ == text@,
{
    broadcast use vstd::string::axiom_spec_iter;

    let mut chars: Vec<char> = Vec::new();
    for c in iter: text.chars()
        invariant
            iter.seq() == text@,
            chars@ == text@.take(iter.index()),
    {
        chars.push(c);
    }
    chars
}

/// Appends `chars[from..to]` to `out`.
pub(crate) fn push_chars(out: &mut String, chars: &Vec<char>, from: usize, to: usize)
    requires
        from <= to <= chars.len(),
    ensures
        final(out)@ == old(out)@ + chars@.subrange(from as int, to as int),
{
    let mut i: usize = from;
    while i < to
        invariant
            from <= i <= to <= chars.len(),
            out@ == old(out)@ + chars@.subrange(from as int, i as int),
        decreases to - i,
    {
        out.push(chars[i]);
        i += 1;
    }
}

} // verus!
