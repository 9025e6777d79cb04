//! Wiki links, `[[target]]` and `[[target|label]]`, and their rewriting into
//! inline links, `[label](target)`.
//!
//! A link is what the pattern `\[\[(.+?)(\|.+?)?\]\]` matches: two opening
//! brackets, a target of at least one character, optionally a bar and a label
//! of at least one character, and two closing brackets, all on one line. Both
//! runs are as short as they can be, and the label is taken wherever one can
//! be. [`is_link`] says which readings of a text are links at all, and
//! [`is_first_link`] which of them is met first.

use vstd::prelude::*;
use crate::link_laws::{lemma_bare_link, lemma_labelled_link, lemma_without_links_unchanged};
use crate::text::{chars_of, push_chars};

verus! {

/// A reading of part of a text as a link: the text opens at `start`, the
/// target runs from `start + 2` up to `split`, and the link closes at `close`.
/// With `split < close` a bar stands at `split` and the label runs from
/// `split + 1` up to `close`; with `split == close` there is no label.
pub struct Link {
    pub start: int,
    pub split: int,
    pub close: int,
}

/// `[[` stands at `i`.
pub open spec fn opens_at(s: Seq<char>, i: int) -> bool {
    0 <= i && i + 1 < s.len() && s[i] == '[' && s[i + 1] == '['
}

/// `]]` stands at `i`.
pub open spec fn closes_at(s: Seq<char>, i: int) -> bool {
    0 <= i && i + 1 < s.len() && s[i] == ']' && s[i + 1] == ']'
}

/// No line ends between `from` and `to`.
pub open spec fn one_line(s: Seq<char>, from: int, to: int) -> bool {
    forall|k: int| from <= k < to ==> #[trigger] s[k] != '\n'
}

/// `l` reads a link out of `s`.
pub open spec fn is_link(s: Seq<char>, l: Link) -> bool {
    &&& opens_at(s, l.start)
    &&& l.start + 2 < l.split <= l.close
    &&& closes_at(s, l.close)
    &&& one_line(s, l.start + 2, l.close)
    &&& l.split < l.close ==> s[l.split] == '|' && l.split + 1 < l.close
}

/// `a` comes no later than `b`: it starts earlier, or starts there and has the
/// shorter target, or has that target and closes no later.
pub open spec fn precedes(a: Link, b: Link) -> bool {
    a.start < b.start || (a.start == b.start && (a.split < b.split || (a.split == b.split
        && a.close <= b.close)))
}

/// `l` is the link of `s` that is met first at or after `from`.
pub open spec fn is_first_link(s: Seq<char>, from: int, l: Link) -> bool {
    &&& is_link(s, l)
    &&& from <= l.start
    &&& forall|m: Link| #[trigger] is_link(s, m) && from <= m.start ==> precedes(l, m)
}

/// The target of the link `l`.
pub open spec fn target_of(s: Seq<char>, l: Link) -> Seq<char> {
    s.subrange(l.start + 2, l.split)
}

/// The label of the link `l`: what follows the bar, or the target where there
/// is no bar.
pub open spec fn label_of(s: Seq<char>, l: Link) -> Seq<char> {
    if l.split < l.close {
        s.subrange(l.split + 1, l.close)
    } else {
        target_of(s, l)
    }
}

/// The inline link `[label](target)`.
pub open spec fn inline_link(label: Seq<char>, target: Seq<char>) -> Seq<char> {
    seq!['['] + label + seq![']', '('] + target + seq![')']
}

/// `s` from `from` on, with every link rewritten, left to right.
pub open spec fn normalized_from(s: Seq<char>, from: int) -> Seq<char>
    decreases s.len() - from,
{
    if 0 <= from <= s.len() {
        if exists|l: Link| is_first_link(s, from, l) {
            let l = choose|l: Link| is_first_link(s, from, l);
            s.subrange(from, l.start) + inline_link(label_of(s, l), target_of(s, l))
                + normalized_from(s, l.close + 2)
        } else {
            s.subrange(from, s.len() as int)
        }
    } else {
        Seq::empty()
    }
}

/// `s` with every link rewritten.
pub open spec fn normalized(s: Seq<char>) -> Seq<char> {
    normalized_from(s, 0)
}

/// The text of the wiki link with this target and, where there is one, this
/// label.
pub open spec fn wiki_link(target: Seq<char>, label: Option<Seq<char>>) -> Seq<char> {
    match label {
        Some(label) => seq!['[', '['] + target + seq!['|'] + label + seq![']', ']'],
        None => seq!['[', '['] + target + seq![']', ']'],
    }
}

/// With `]]` after `x`, two closing brackets stand at `k`: `x` has `]` at `k`,
/// and another follows or `x` ends there.
pub open spec fn closes_within(x: Seq<char>, k: int) -> bool {
    0 <= k < x.len() && x[k] == ']' && (k + 1 == x.len() || x[k + 1] == ']')
}

/// `x` can be the label of a link: it is not empty, stands on one line, and
/// with `]]` after it no two closing brackets stand after its first character
/// and before its end.
pub open spec fn is_label(x: Seq<char>) -> bool {
    &&& x.len() > 0
    &&& one_line(x, 0, x.len() as int)
    &&& forall|k: int| 1 <= k ==> !#[trigger] closes_within(x, k)
}

/// `x` can be the target of a link without a label: it can stand where a label
/// can, and holds no bar after its first character.
pub open spec fn is_bare_target(x: Seq<char>) -> bool {
    &&& is_label(x)
    &&& forall|k: int| 1 <= k < x.len() ==> #[trigger] x[k] != '|'
}

/// `x` can be the target of a link with a label: it is not empty, stands on
/// one line, and holds neither a bar nor `]]` after its first character.
pub open spec fn is_labelled_target(x: Seq<char>) -> bool {
    &&& x.len() > 0
    &&& one_line(x, 0, x.len() as int)
    &&& forall|k: int| 1 <= k < x.len() ==> #[trigger] x[k] != '|'
    &&& forall|k: int| 1 <= k ==> !#[trigger] closes_at(x, k)
}

/// A [`Link`] in machine integers.
#[derive(Clone, Copy, Debug)]
struct LinkSpan {
    start: usize,
    split: usize,
    close: usize,
}

impl View for LinkSpan {
    type V = Link;

    closed spec fn view(&self) -> Link {
        Link { start: self.start as int, split: self.split as int, close: self.close as int }
    }
}

/// The first `]]` after `from` that is reached without crossing a line end, or
/// else where the search stopped: at the end of that line or of the text.
fn find_close(s: &Vec<char>, from: usize) -> (found: Result<usize, usize>)
    requires
        from <= s.len(),
    ensures
        match found {
            Ok(q) => {
                &&& from < q
                &&& closes_at(s@, q as int)
                &&& one_line(s@, from as int, q as int)
                &&& forall|k: int| from < k < q ==> !closes_at(s@, k)
            },
            Err(stop) => {
                &&& from <= stop <= s.len()
                &&& stop < s.len() ==> s[stop as int] == '\n'
                &&& one_line(s@, from as int, stop as int)
                &&& forall|k: int| from < k < stop ==> !closes_at(s@, k)
            },
        },
{
    let n = s.len();
    let mut k: usize = from;
    while k < n
        invariant
            n == s.len(),
            from <= k <= n,
            one_line(s@, from as int, k as int),
            forall|j: int| from < j < k ==> !closes_at(s@, j),
        decreases n - k,
    {
        if s[k] == '\n' {
            return Err(k);
        }
        if k > from && s[k] == ']' && k + 1 < n && s[k + 1] == ']' {
            return Ok(k);
        }
        k += 1;
    }
    Err(k)
}

/// The link that opens at `start`, or else a place before which no link
/// starts, from `start` on.
fn link_at(s: &Vec<char>, start: usize) -> (found: Result<LinkSpan, usize>)
    requires
        opens_at(s@, start as int),
    ensures
        match found {
            Ok(l) => {
                &&& l.start == start
                &&& is_link(s@, l@)
                &&& forall|m: Link| #[trigger]
                    is_link(s@, m) && m.start == start ==> precedes(l@, m)
            },
            Err(stop) => {
                &&& start + 2 <= stop <= s.len()
                &&& forall|m: Link| #[trigger] is_link(s@, m) && start <= m.start ==> stop <= m.start
            },
        },
{
    let n = s.len();
    let mut p: usize = start + 2;
    while p < n
        invariant
            n == s.len(),
            opens_at(s@, start as int),
            start + 2 <= p <= n,
            one_line(s@, start + 2, p as int),
            forall|k: int| start + 2 < k < p ==> !closes_at(s@, k),
            forall|k: int| start + 2 < k < p ==> s[k] != '|',
        decreases n - p,
    {
        if s[p] == '\n' {
            return Err(p);
        }
        if p > start + 2 {
            if s[p] == ']' && p + 1 < n && s[p + 1] == ']' {
                return Ok(LinkSpan { start, split: p, close: p });
            }
            if s[p] == '|' {
                match find_close(s, p + 1) {
                    Ok(q) => {
                        return Ok(LinkSpan { start, split: p, close: q });
                    },
                    Err(stop) => {
                        if p + 1 < n && s[p + 1] == ']' && p + 2 < n && s[p + 2] == ']' {
                            return Ok(LinkSpan { start, split: p + 1, close: p + 1 });
                        }
                        return Err(stop);
                    },
                }
            }
        }
        p += 1;
    }
    Err(p)
}

/// The first link at or after `from`, if there is one.
fn find_link(s: &Vec<char>, from: usize) -> (found: Option<LinkSpan>)
    ensures
        match found {
            Some(l) => is_first_link(s@, from as int, l@),
            None => forall|m: Link| #[trigger] is_link(s@, m) ==> m.start < from,
        },
{
    let n = s.len();
    let mut i: usize = from;
    while i < n
        invariant
            n == s.len(),
            from <= i,
            forall|m: Link| #[trigger] is_link(s@, m) && from <= m.start ==> i <= m.start,
        decreases n - i,
    {
        if s[i] == '[' && i + 1 < n && s[i + 1] == '[' {
            match link_at(s, i) {
                Ok(l) => {
                    return Some(l);
                },
                Err(stop) => {
                    i = stop;
                },
            }
        } else {
            i += 1;
        }
    }
    None
}

/// Two links that are both met first at or after `from` are one link.
pub proof fn lemma_first_link_is_unique(s: Seq<char>, from: int, a: Link, b: Link)
    requires
        is_first_link(s, from, a),
        is_first_link(s, from, b),
    ensures
        a == b,
{
    assert(precedes(a, b));
    assert(precedes(b, a));
}

/// Appends the inline link that stands for the link `l` of `s`.
fn push_inline_link(out: &mut String, s: &Vec<char>, l: LinkSpan)
    requires
        is_link(s@, l@),
    ensures
        final(out)@ == old(out)@ + inline_link(label_of(s@, l@), target_of(s@, l@)),
{
    out.push('[');
    if l.split < l.close {
        push_chars(out, s, l.split + 1, l.close);
    } else {
        push_chars(out, s, l.start + 2, l.split);
    }
    out.push(']');
    out.push('(');
    push_chars(out, s, l.start + 2, l.split);
    out.push(')');
    assert(out@ =~= old(out)@ + inline_link(label_of(s@, l@), target_of(s@, l@)));
}

/// `s` with every link rewritten.
fn rewrite_links(s: &Vec<char>) -> (out: String)
    ensures
        out@ == normalized(s@),
{
    let n = s.len();
    let mut out = String::new();
    let mut pos: usize = 0;
    loop
        invariant
            n == s.len(),
            pos <= n,
            out@ + normalized_from(s@, pos as int) == normalized(s@),
        decreases n - pos,
    {
        match find_link(s, pos) {
            Some(l) => {
                proof {
                    let first = choose|m: Link| is_first_link(s@, pos as int, m);
                    lemma_first_link_is_unique(s@, pos as int, first, l@);
                }
                let ghost before = out@;
                push_chars(&mut out, s, pos, l.start);
                push_inline_link(&mut out, s, l);
                assert(out@ + normalized_from(s@, l.close + 2) =~= before + normalized_from(
                    s@,
                    pos as int,
                ));
                pos = l.close + 2;
            },
            None => {
                assert(forall|m: Link| !is_first_link(s@, pos as int, m));
                push_chars(&mut out, s, pos, n);
                return out;
            },
        }
    }
}

/// Rewrites every wiki link of `body` into an inline link: `[[target]]`
/// becomes `[target](target)` and `[[target|label]]` becomes
/// `[label](target)`. Links are taken left to right and do not overlap; what
/// stands between them, and whatever only looks like the start of a link, is
/// kept as it is.
///
/// So a body in which nothing reads as a link comes back as it is, and a body
/// that is one link comes back as the inline link of that target and label.
pub fn normalize_links(body: &str) -> (out: String)
    ensures
        out@ == normalized(body@),
        (forall|l: Link| !is_link(body@, l)) ==> out@ == body@,
        forall|target: Seq<char>| #[trigger]
            is_bare_target(target) && body@ == wiki_link(target, None) ==> out@ == inline_link(
                target,
                target,
            ),
        forall|target: Seq<char>, label: Seq<char>|
            is_labelled_target(target) && is_label(label) && body@ == #[trigger] wiki_link(
                target,
                Some(label),
            ) ==> out@ == inline_link(label, target),
{
    let out = rewrite_links(&chars_of(body));
    proof {
        if forall|l: Link| !is_link(body@, l) {
            lemma_without_links_unchanged(body@);
        }
        assert forall|target: Seq<char>| #[trigger]
            is_bare_target(target) && body@ == wiki_link(target, None) implies out@
            == inline_link(target, target) by {
            lemma_bare_link(target, Seq::empty());
        }
        assert forall|target: Seq<char>, label: Seq<char>|
            is_labelled_target(target) && is_label(label) && body@ == #[trigger] wiki_link(
                target,
                Some(label),
            ) implies out@ == inline_link(label, target) by {
            lemma_labelled_link(target, label, Seq::empty());
        }
    }
    out
}

} // verus!
