//! What holds of the rewriting of links, whatever the text.

use vstd::prelude::*;
use crate::links::{
    closes_at, closes_within, inline_link, is_bare_target, is_first_link, is_label,
    is_labelled_target, is_link, label_of, lemma_first_link_is_unique, normalized,
    normalized_from, precedes, target_of, wiki_link, Link,
};

verus! {

/// No opening bracket stands in `x`.
pub open spec fn is_plain(x: Seq<char>) -> bool {
    forall|k: int| 0 <= k < x.len() ==> #[trigger] x[k] != '['
}

/// `l` moved `k` places to the right.
pub open spec fn shifted(l: Link, k: int) -> Link {
    Link { start: l.start + k, split: l.split + k, close: l.close + k }
}

/// A text in which nothing reads as a link is left as it is.
pub proof fn lemma_without_links_unchanged(s: Seq<char>)
    requires
        forall|l: Link| !is_link(s, l),
    ensures
        normalized(s) == s,
{
    assert(forall|l: Link| !is_first_link(s, 0, l));
    assert(s.subrange(0, s.len() as int) =~= s);
}

/// A text in which `]]` stands nowhere is left as it is, whatever opens in it.
pub proof fn lemma_unclosed_unchanged(s: Seq<char>)
    requires
        forall|i: int| !closes_at(s, i),
    ensures
        normalized(s) == s,
{
    lemma_without_links_unchanged(s);
}

/// The links of what follows place `k` are the links of the whole text from
/// `k` on, `k` places to the left.
proof fn lemma_link_in_rest(s: Seq<char>, k: int, m: Link)
    requires
        0 <= k <= s.len(),
        0 <= m.start,
    ensures
        is_link(s.subrange(k, s.len() as int), m) == is_link(s, shifted(m, k)),
{
    let t = s.subrange(k, s.len() as int);
    assert(forall|i: int| 0 <= i < t.len() ==> t[i] == s[i + k]);
    if is_link(t, m) {
        assert forall|j: int| m.start + k + 2 <= j < m.close + k implies s[j] != '\n' by {
            assert(t[j - k] != '\n');
        }
    }
    if is_link(s, shifted(m, k)) {
        assert forall|j: int| m.start + 2 <= j < m.close implies t[j] != '\n' by {
            assert(s[j + k] != '\n');
        }
    }
}

/// The first link of what follows place `k` is the first link of the whole
/// text from `k` on, `k` places to the left.
proof fn lemma_first_link_in_rest(s: Seq<char>, k: int, from: int, m: Link)
    requires
        0 <= k <= s.len(),
        0 <= from,
    ensures
        is_first_link(s.subrange(k, s.len() as int), from, m) == is_first_link(
            s,
            from + k,
            shifted(m, k),
        ),
{
    let t = s.subrange(k, s.len() as int);
    if from <= m.start {
        lemma_link_in_rest(s, k, m);
        if is_first_link(t, from, m) {
            assert forall|other: Link| #[trigger]
                is_link(s, other) && from + k <= other.start implies precedes(
                shifted(m, k),
                other,
            ) by {
                let back = shifted(other, -k);
                lemma_link_in_rest(s, k, back);
                assert(shifted(back, k) == other);
                assert(is_link(t, back));
            }
        }
        if is_first_link(s, from + k, shifted(m, k)) {
            assert forall|other: Link| #[trigger]
                is_link(t, other) && from <= other.start implies precedes(m, other) by {
                lemma_link_in_rest(s, k, other);
                assert(is_link(s, shifted(other, k)));
            }
        }
    }
}

/// What follows place `k` is rewritten as it would be alone.
proof fn lemma_normalized_in_rest(s: Seq<char>, k: int, from: int)
    requires
        0 <= k,
        0 <= from,
        k + from <= s.len(),
    ensures
        normalized_from(s.subrange(k, s.len() as int), from) == normalized_from(s, k + from),
    decreases s.len() - k - from,
{
    let t = s.subrange(k, s.len() as int);
    let at = k + from;
    if exists|l: Link| is_first_link(t, from, l) {
        let here = choose|l: Link| is_first_link(t, from, l);
        lemma_first_link_in_rest(s, k, from, here);
        let there = choose|l: Link| is_first_link(s, at, l);
        lemma_first_link_is_unique(s, at, there, shifted(here, k));
        lemma_normalized_in_rest(s, k, here.close + 2);
        assert(t.subrange(from, here.start) =~= s.subrange(k + from, there.start));
        assert(target_of(t, here) =~= target_of(s, there));
        assert(label_of(t, here) =~= label_of(s, there));
    } else {
        if exists|l: Link| is_first_link(s, at, l) {
            let there = choose|l: Link| is_first_link(s, at, l);
            let here = shifted(there, -k);
            lemma_first_link_in_rest(s, k, from, here);
            assert(shifted(here, k) == there);
            assert(false);
        }
        assert(t.subrange(from, t.len() as int) =~= s.subrange(k + from, s.len() as int));
    }
}

/// What follows a link is rewritten as it would be alone: nothing before
/// place `k` bears on the rewriting from `k` on.
pub proof fn lemma_rest_alone(s: Seq<char>, k: int)
    requires
        0 <= k <= s.len(),
    ensures
        normalized_from(s, k) == normalized(s.subrange(k, s.len() as int)),
{
    lemma_normalized_in_rest(s, k, 0);
}

/// Text without an opening bracket is kept, and what follows it is rewritten
/// as it would be alone.
pub proof fn lemma_plain_text_kept(plain: Seq<char>, rest: Seq<char>)
    requires
        is_plain(plain),
    ensures
        normalized(plain + rest) == plain + normalized(rest),
{
    let s = plain + rest;
    let k = plain.len() as int;
    assert forall|m: Link| #[trigger] is_link(s, m) implies k <= m.start by {
        if m.start < k {
            assert(plain[m.start] != '[');
        }
    }
    assert(forall|m: Link| is_first_link(s, 0, m) == is_first_link(s, k, m));
    lemma_rest_alone(s, k);
    assert(s.subrange(k, s.len() as int) =~= rest);
    if exists|l: Link| is_first_link(s, 0, l) {
        let first = choose|l: Link| is_first_link(s, 0, l);
        let again = choose|l: Link| is_first_link(s, k, l);
        lemma_first_link_is_unique(s, k, first, again);
        assert(s.subrange(0, first.start) =~= plain + s.subrange(k, first.start));
        assert(normalized_from(s, 0) =~= plain + normalized_from(s, k));
    } else {
        assert(s.subrange(0, s.len() as int) =~= plain + s.subrange(k, s.len() as int));
    }
}

/// A link without a label, `[[target]]`, becomes `[target](target)`, and what
/// follows it is rewritten as it would be alone.
pub proof fn lemma_bare_link(target: Seq<char>, rest: Seq<char>)
    requires
        is_bare_target(target),
    ensures
        normalized(wiki_link(target, None)) == inline_link(target, target),
        normalized(wiki_link(target, None) + rest) == inline_link(target, target) + normalized(
            rest,
        ),
{
    lemma_bare_link_then(target, rest);
    lemma_bare_link_then(target, Seq::empty());
    assert(wiki_link(target, None) + Seq::<char>::empty() =~= wiki_link(target, None));
    lemma_without_links_unchanged(Seq::<char>::empty());
    assert(inline_link(target, target) + Seq::<char>::empty() =~= inline_link(target, target));
}

/// A link without a label and what follows it.
proof fn lemma_bare_link_then(target: Seq<char>, rest: Seq<char>)
    requires
        is_bare_target(target),
    ensures
        normalized(wiki_link(target, None) + rest) == inline_link(target, target) + normalized(
            rest,
        ),
{
    let s = wiki_link(target, None) + rest;
    let n = target.len() as int;
    let l = Link { start: 0, split: n + 2, close: n + 2 };
    assert(forall|k: int| 0 <= k < n ==> s[k + 2] == target[k]);
    assert(s[n + 2] == ']' && s[n + 3] == ']');
    assert(is_link(s, l));
    assert forall|m: Link| #[trigger] is_link(s, m) && 0 <= m.start implies precedes(l, m) by {
        if m.start == 0 && m.split < n + 2 {
            if m.split == m.close {
                assert(closes_within(target, m.split - 2));
            } else {
                assert(target[m.split - 2] == '|');
            }
        }
    }
    assert(is_first_link(s, 0, l));
    lemma_first_link_is_unique(s, 0, l, choose|m: Link| is_first_link(s, 0, m));
    lemma_rest_alone(s, n + 4);
    assert(s.subrange(n + 4, s.len() as int) =~= rest);
    assert(target_of(s, l) =~= target);
    assert(s.subrange(0, 0) =~= Seq::<char>::empty());
    assert(normalized(s) =~= inline_link(target, target) + normalized(rest));
}

/// A link with a label, `[[target|label]]`, becomes `[label](target)`, and
/// what follows it is rewritten as it would be alone.
pub proof fn lemma_labelled_link(target: Seq<char>, label: Seq<char>, rest: Seq<char>)
    requires
        is_labelled_target(target),
        is_label(label),
    ensures
        normalized(wiki_link(target, Some(label))) == inline_link(label, target),
        normalized(wiki_link(target, Some(label)) + rest) == inline_link(label, target)
            + normalized(rest),
{
    lemma_labelled_link_then(target, label, rest);
    lemma_labelled_link_then(target, label, Seq::empty());
    assert(wiki_link(target, Some(label)) + Seq::<char>::empty() =~= wiki_link(
        target,
        Some(label),
    ));
    lemma_without_links_unchanged(Seq::<char>::empty());
    assert(inline_link(label, target) + Seq::<char>::empty() =~= inline_link(label, target));
}

/// A link with a label and what follows it.
proof fn lemma_labelled_link_then(target: Seq<char>, label: Seq<char>, rest: Seq<char>)
    requires
        is_labelled_target(target),
        is_label(label),
    ensures
        normalized(wiki_link(target, Some(label)) + rest) == inline_link(label, target)
            + normalized(rest),
{
    let s = wiki_link(target, Some(label)) + rest;
    let n = target.len() as int;
    let k = label.len() as int;
    let l = Link { start: 0, split: n + 2, close: n + 3 + k };
    assert(forall|i: int| 0 <= i < n ==> s[i + 2] == target[i]);
    assert(s[n + 2] == '|');
    assert(forall|i: int| 0 <= i < k ==> s[i + n + 3] == label[i]);
    assert(s[n + k + 3] == ']' && s[n + k + 4] == ']');
    assert(is_link(s, l));
    assert forall|m: Link| #[trigger] is_link(s, m) && 0 <= m.start implies precedes(l, m) by {
        if m.start == 0 {
            if m.split < n + 2 {
                if m.split == m.close {
                    assert(s[m.split + 1] == if m.split + 1 < n + 2 {
                        target[m.split - 1]
                    } else {
                        '|'
                    });
                    assert(closes_at(target, m.split - 2));
                } else {
                    assert(target[m.split - 2] == '|');
                }
            } else if m.split == n + 2 && m.close < n + 3 + k {
                assert(closes_within(label, m.close - n - 3));
            }
        }
    }
    assert(is_first_link(s, 0, l));
    lemma_first_link_is_unique(s, 0, l, choose|m: Link| is_first_link(s, 0, m));
    lemma_rest_alone(s, n + k + 5);
    assert(s.subrange(n + k + 5, s.len() as int) =~= rest);
    assert(target_of(s, l) =~= target);
    assert(label_of(s, l) =~= label);
    assert(s.subrange(0, 0) =~= Seq::<char>::empty());
    assert(normalized(s) =~= inline_link(label, target) + normalized(rest));
}

} // verus!
