//! Texts in alphabetical order.

use vstd::prelude::*;
use vstd::relations::*;
use vstd::seq_lib::*;

use crate::text::{chars_of, texts};

verus! {

/// `a` stands no later than `b`: at the first difference the smaller code point decides, and a
/// text stands before its continuations.
pub open spec fn text_le(a: Seq<char>, b: Seq<char>) -> bool
    decreases a.len(),
{
    if a.len() == 0 {
        true
    } else if b.len() == 0 {
        false
    } else if a[0] == b[0] {
        text_le(a.drop_first(), b.drop_first())
    } else {
        a[0] < b[0]
    }
}

/// `text_le` as a relation.
pub open spec fn alphabetically() -> spec_fn(Seq<char>, Seq<char>) -> bool {
    |a: Seq<char>, b: Seq<char>| text_le(a, b)
}

/// The same texts, in alphabetical order.
pub open spec fn in_alphabetical_order(list: Seq<Seq<char>>) -> Seq<Seq<char>> {
    list.sort_by(alphabetically())
}

proof fn lemma_le_reflexive(a: Seq<char>)
    ensures
        text_le(a, a),
    decreases a.len(),
{
    if a.len() > 0 {
        lemma_le_reflexive(a.drop_first());
    }
}

proof fn lemma_le_antisymmetric(a: Seq<char>, b: Seq<char>)
    requires
        text_le(a, b),
        text_le(b, a),
    ensures
        a == b,
    decreases a.len(),
{
    if a.len() == 0 || b.len() == 0 {
        assert(a.len() == 0 && b.len() == 0);
        assert(a =~= b);
    } else {
        assert(a[0] == b[0]);
        let x = a.drop_first();
        let y = b.drop_first();
        assert(x.len() == a.len() - 1 && y.len() == b.len() - 1);
        lemma_le_antisymmetric(x, y);
        assert forall|i: int| 0 <= i < a.len() implies a[i] == b[i] by {
            if i > 0 {
                assert(a[i] == x[i - 1]);
                assert(b[i] == y[i - 1]);
            }
        }
        assert(a =~= b);
    }
}

proof fn lemma_le_transitive(a: Seq<char>, b: Seq<char>, c: Seq<char>)
    requires
        text_le(a, b),
        text_le(b, c),
    ensures
        text_le(a, c),
    decreases a.len(),
{
    if a.len() > 0 && b.len() > 0 && c.len() > 0 && a[0] == b[0] && b[0] == c[0] {
        lemma_le_transitive(a.drop_first(), b.drop_first(), c.drop_first());
    }
}

proof fn lemma_le_total(a: Seq<char>, b: Seq<char>)
    ensures
        text_le(a, b) || text_le(b, a),
    decreases a.len(),
{
    if a.len() > 0 && b.len() > 0 && a[0] == b[0] {
        lemma_le_total(a.drop_first(), b.drop_first());
    }
}

/// Alphabetical order is a total order.
pub proof fn alphabetical_order_is_total()
    ensures
        total_ordering(alphabetically()),
{
    let le = alphabetically();
    assert forall|a: Seq<char>| #[trigger] le(a, a) by {
        lemma_le_reflexive(a);
    }
    assert forall|a: Seq<char>, b: Seq<char>| #[trigger] le(a, b) && #[trigger] le(b, a) implies a
        == b by {
        lemma_le_antisymmetric(a, b);
    }
    assert forall|a: Seq<char>, b: Seq<char>, c: Seq<char>| #[trigger]
        le(a, b) && #[trigger] le(b, c) implies le(a, c) by {
        lemma_le_transitive(a, b, c);
    }
    assert forall|a: Seq<char>, b: Seq<char>| #[trigger] le(a, b) || #[trigger] le(b, a) by {
        lemma_le_total(a, b);
    }
}

/// Whether `a` stands no later than `b`.
pub fn stands_no_later(a: &str, b: &str) -> (r: bool)
    ensures
        r == text_le(a@, b@),
{
    let x = chars_of(a);
    let y = chars_of(b);
    let mut i: usize = 0;
    proof {
        assert(x@.skip(0) =~= x@);
        assert(y@.skip(0) =~= y@);
    }
    while i < x.len() && i < y.len() && x[i] == y[i]
        invariant
            i <= x@.len(),
            i <= y@.len(),
            text_le(x@, y@) == text_le(x@.skip(i as int), y@.skip(i as int)),
        decreases x@.len() - i,
    {
        proof {
            assert(x@.skip(i as int).drop_first() =~= x@.skip(i + 1));
            assert(y@.skip(i as int).drop_first() =~= y@.skip(i + 1));
        }
        i += 1;
    }
    if i >= x.len() {
        true
    } else if i >= y.len() {
        false
    } else {
        x[i] < y[i]
    }
}

/// Puts texts into alphabetical order.
pub fn sort_texts(list: Vec<String>) -> (r: Vec<String>)
    ensures
        sorted_by(texts(r@), alphabetically()),
        texts(r@).to_multiset() == texts(list@).to_multiset(),
        texts(r@) == in_alphabetical_order(texts(list@)),
{
    let le = Ghost(alphabetically());
    let ghost all = texts(list@);
    let ghost strings = list@;
    let mut r: Vec<String> = Vec::new();
    proof {
        alphabetical_order_is_total();
        assert(texts(r@) =~= all.take(0));
    }
    for s in it: list
        invariant
            le@ == alphabetically(),
            total_ordering(le@),
            it.seq() == strings,
            all == texts(strings),
            sorted_by(texts(r@), le@),
            texts(r@).to_multiset() == all.take(it.index()).to_multiset(),
    {
        let mut p: usize = 0;
        let ghost before = texts(r@);
        while p < r.len() && stands_no_later(r[p].as_str(), s.as_str())
            invariant
                p <= r@.len(),
                before == texts(r@),
                forall|j: int| 0 <= j < p ==> text_le(#[trigger] before[j], s@),
            decreases r@.len() - p,
        {
            proof {
                assert(before[p as int] == r@[p as int]@);
            }
            p += 1;
        }
        let ghost text = s@;
        proof {
            assert(text == all[it.index()]);
            assert forall|j: int| p <= j < before.len() implies text_le(text, #[trigger] before[j]) by {
                assert(before[p as int] == r@[p as int]@);
                assert(le@(before[p as int], text) || le@(text, before[p as int]));
                if j > p {
                    assert(le@(before[p as int], before[j]));
                    lemma_le_transitive(text, before[p as int], before[j]);
                }
            }
        }
        r.insert(p, s);
        proof {
            assert(texts(r@) =~= before.insert(p as int, text));
            let after = texts(r@);
            assert forall|i: int, j: int| 0 <= i < j < after.len() implies #[trigger] le@(
                after[i],
                after[j],
            ) by {
                let i0 = if i < p {
                    i
                } else {
                    i - 1
                };
                let j0 = if j < p {
                    j
                } else {
                    j - 1
                };
                if i != p && j != p {
                    assert(le@(before[i0], before[j0]));
                } else if i == p {
                    assert(text_le(text, before[j0]));
                } else {
                    assert(text_le(before[i0], text));
                }
            }
            assert(all.take(it.index() + 1) =~= all.take(it.index()).push(text));
            to_multiset_insert(before, p as int, text);
            to_multiset_build(all.take(it.index()), text);
        }
    }
    proof {
        assert(all.take(all.len() as int) =~= all);
        all.lemma_sort_by_ensures(le@);
        lemma_sorted_unique(texts(r@), all.sort_by(le@), le@);
    }
    r
}

// ── Laws ─────────────────────────────────────────────────────────

/// The first difference decides: behind a common beginning the text with the smaller code point
/// comes first, and a text comes before every continuation of it.
pub proof fn the_first_difference_decides(
    common: Seq<char>,
    c: char,
    d: char,
    x: Seq<char>,
    y: Seq<char>,
)
    ensures
        (c as int) < (d as int) ==> text_le(common + seq![c] + x, common + seq![d] + y) && !text_le(
            common + seq![d] + y,
            common + seq![c] + x,
        ),
        text_le(common, common + x),
        x.len() > 0 ==> !text_le(common + x, common),
    decreases common.len(),
{
    let a = common + seq![c] + x;
    let b = common + seq![d] + y;
    let e = common + x;
    if common.len() == 0 {
        assert(a[0] == c && b[0] == d);
    } else {
        let rest = common.drop_first();
        assert(a[0] == common[0] && b[0] == common[0]);
        assert(a.drop_first() =~= rest + seq![c] + x);
        assert(b.drop_first() =~= rest + seq![d] + y);
        assert(e[0] == common[0]);
        assert(e.drop_first() =~= rest + x);
        the_first_difference_decides(rest, c, d, x, y);
    }
}

/// Alphabetical order keeps every text and puts none before a smaller one.
pub proof fn sorting_keeps_every_text(list: Seq<Seq<char>>)
    ensures
        in_alphabetical_order(list).len() == list.len(),
        in_alphabetical_order(list).to_multiset() == list.to_multiset(),
        forall|i: int, j: int|
            0 <= i < j < list.len() ==> text_le(
                #[trigger] in_alphabetical_order(list)[i],
                #[trigger] in_alphabetical_order(list)[j],
            ),
{
    alphabetical_order_is_total();
    let le = alphabetically();
    list.lemma_sort_by_ensures(le);
    let sorted = in_alphabetical_order(list);
    to_multiset_len(list);
    to_multiset_len(sorted);
    assert forall|i: int, j: int| 0 <= i < j < list.len() implies text_le(
        #[trigger] sorted[i],
        #[trigger] sorted[j],
    ) by {
        assert(le(sorted[i], sorted[j]));
    }
}

} // verus!
