//! The order of strings, and stable sorting by keys.

use vstd::prelude::*;

use crate::text::chars_of;

verus! {

/// The order of strings: by the first character in which they differ, a prefix
/// before what it is a prefix of.
pub open spec fn lex_less(a: Seq<char>, b: Seq<char>) -> bool
    decreases a.len(),
{
    if b.len() == 0 {
        false
    } else if a.len() == 0 {
        true
    } else if a[0] != b[0] {
        (a[0] as int) < (b[0] as int)
    } else {
        lex_less(a.skip(1), b.skip(1))
    }
}

/// No string comes before itself.
pub proof fn lemma_lex_irreflexive(a: Seq<char>)
    ensures
        !lex_less(a, a),
    decreases a.len(),
{
    if a.len() > 0 {
        lemma_lex_irreflexive(a.skip(1));
    }
}

/// Of two different strings one comes before the other.
pub proof fn lemma_lex_total(a: Seq<char>, b: Seq<char>)
    ensures
        lex_less(a, b) || lex_less(b, a) || a == b,
        !(lex_less(a, b) && lex_less(b, a)),
    decreases a.len(),
{
    if a.len() == 0 && b.len() == 0 {
        assert(a =~= b);
    } else if a.len() > 0 && b.len() > 0 && a[0] == b[0] {
        lemma_lex_total(a.skip(1), b.skip(1));
        if a.skip(1) == b.skip(1) {
            assert(a =~= seq![a[0]] + a.skip(1));
            assert(b =~= seq![b[0]] + b.skip(1));
        }
    }
}

pub proof fn lemma_lex_transitive(a: Seq<char>, b: Seq<char>, c: Seq<char>)
    requires
        lex_less(a, b),
        lex_less(b, c),
    ensures
        lex_less(a, c),
    decreases a.len(),
{
    if a.len() > 0 && a[0] == b[0] && b[0] == c[0] {
        lemma_lex_transitive(a.skip(1), b.skip(1), c.skip(1));
    }
}

/// The code point of a character.
fn code_point(c: char) -> (r: u32)
    ensures
        r as int == c as int,
{
    c as u32
}

/// Whether one string comes before another.
pub fn str_less(a: &str, b: &str) -> (r: bool)
    ensures
        r == lex_less(a@, b@),
{
    let x = chars_of(a);
    let y = chars_of(b);
    let mut i: usize = 0;
    assert(a@.skip(0) =~= a@);
    assert(b@.skip(0) =~= b@);
    while i < x.len() && i < y.len()
        invariant
            x@ == a@,
            y@ == b@,
            i <= x@.len(),
            i <= y@.len(),
            lex_less(a@, b@) == lex_less(a@.skip(i as int), b@.skip(i as int)),
        decreases x.len() - i,
    {
        let c: u32 = code_point(x[i]);
        let d: u32 = code_point(y[i]);
        if c != d {
            return c < d;
        }
        i += 1;
        assert(a@.skip(i - 1).skip(1) =~= a@.skip(i as int));
        assert(b@.skip(i - 1).skip(1) =~= b@.skip(i as int));
    }
    i < y.len()
}

// ── Keys ─────────────────────────────────────────────────────────────────────

/// What things are sorted by: a number, then two strings.
pub struct SortKey {
    pub rank: usize,
    pub first: String,
    pub second: String,
}

pub struct SortKeyView {
    pub rank: usize,
    pub first: Seq<char>,
    pub second: Seq<char>,
}

impl View for SortKey {
    type V = SortKeyView;

    open spec fn view(&self) -> SortKeyView {
        SortKeyView { rank: self.rank, first: self.first@, second: self.second@ }
    }
}

/// The views of a list of keys.
pub open spec fn key_views(v: Seq<SortKey>) -> Seq<SortKeyView> {
    v.map_values(|k: SortKey| k@)
}

/// The order of keys.
pub open spec fn key_less(a: SortKeyView, b: SortKeyView) -> bool {
    if a.rank != b.rank {
        a.rank < b.rank
    } else if a.first != b.first {
        lex_less(a.first, b.first)
    } else {
        lex_less(a.second, b.second)
    }
}

pub proof fn lemma_key_total(a: SortKeyView, b: SortKeyView)
    ensures
        key_less(a, b) || key_less(b, a) || a == b,
        !(key_less(a, b) && key_less(b, a)),
{
    lemma_lex_total(a.first, b.first);
    lemma_lex_total(a.second, b.second);
}

pub proof fn lemma_key_transitive(a: SortKeyView, b: SortKeyView, c: SortKeyView)
    requires
        !key_less(b, a),
        !key_less(c, b),
    ensures
        !key_less(c, a),
{
    lemma_key_total(a, b);
    lemma_key_total(b, c);
    lemma_key_total(a, c);
    if key_less(c, a) && a != b && b != c {
        if a.rank == b.rank && b.rank == c.rank {
            if a.first == b.first && b.first == c.first {
                lemma_lex_transitive(a.second, b.second, c.second);
            } else if a.first != b.first && b.first != c.first {
                lemma_lex_transitive(a.first, b.first, c.first);
            }
        }
    }
}

fn key_before(a: &SortKey, b: &SortKey) -> (r: bool)
    ensures
        r == key_less(a@, b@),
{
    if a.rank != b.rank {
        a.rank < b.rank
    } else if a.first != b.first {
        str_less(a.first.as_str(), b.first.as_str())
    } else {
        str_less(a.second.as_str(), b.second.as_str())
    }
}

// ── Stable sorting ───────────────────────────────────────────────────────────

/// `order` with `x` put in behind everything that does not come after it.
pub open spec fn placed(order: Seq<int>, keys: Seq<SortKeyView>, x: int) -> Seq<int>
    decreases order.len(),
{
    if order.len() == 0 || !key_less(keys[x], keys[order.last()]) {
        order.push(x)
    } else {
        placed(order.drop_last(), keys, x).push(order.last())
    }
}

/// The indices of the first `n` keys in sorted order; of equal keys the one
/// that came first stays first.
pub open spec fn sorted_to(keys: Seq<SortKeyView>, n: nat) -> Seq<int>
    decreases n,
{
    if n == 0 {
        seq![]
    } else {
        placed(sorted_to(keys, (n - 1) as nat), keys, n - 1)
    }
}

/// The indices of `keys` in sorted order.
pub open spec fn stable_order(keys: Seq<SortKeyView>) -> Seq<int> {
    sorted_to(keys, keys.len())
}

/// Where `x` is put in.
proof fn lemma_placed_at(order: Seq<int>, keys: Seq<SortKeyView>, x: int, pos: int)
    requires
        0 <= pos <= order.len(),
        pos > 0 ==> !key_less(keys[x], keys[order[pos - 1]]),
        forall|i: int| pos <= i < order.len() ==> key_less(keys[x], keys[#[trigger] order[i]]),
    ensures
        placed(order, keys, x) == order.insert(pos, x),
    decreases order.len(),
{
    if pos == order.len() {
        assert(order.insert(pos, x) =~= order.push(x));
    } else {
        assert(key_less(keys[x], keys[order[order.len() - 1]]));
        lemma_placed_at(order.drop_last(), keys, x, pos);
        assert(order.insert(pos, x) =~= order.drop_last().insert(pos, x).push(order.last()));
    }
}

/// Every index below `n` occurs, and nothing else.
pub open spec fn covers(order: Seq<int>, n: nat) -> bool {
    &&& order.len() == n
    &&& order.no_duplicates()
    &&& forall|i: int| 0 <= i < order.len() ==> 0 <= #[trigger] order[i] < n
}

/// No later entry comes before an earlier one, and equal keys keep their order.
pub open spec fn in_order(order: Seq<int>, keys: Seq<SortKeyView>) -> bool {
    forall|i: int, j: int|
        0 <= i < j < order.len() ==> {
            &&& !key_less(keys[#[trigger] order[j]], keys[#[trigger] order[i]])
            &&& keys[order[i]] == keys[order[j]] ==> order[i] < order[j]
        }
}

proof fn lemma_placed(order: Seq<int>, keys: Seq<SortKeyView>, x: int)
    requires
        in_order(order, keys),
        forall|i: int| 0 <= i < order.len() ==> 0 <= #[trigger] order[i] < x,
        order.no_duplicates(),
    ensures
        in_order(placed(order, keys, x), keys),
        placed(order, keys, x).len() == order.len() + 1,
        placed(order, keys, x).no_duplicates(),
        forall|i: int|
            0 <= i < placed(order, keys, x).len() ==> {
                ||| #[trigger] placed(order, keys, x)[i] == x
                ||| exists|k: int|
                    0 <= k < order.len() && #[trigger] order[k] == placed(order, keys, x)[i]
            },
    decreases order.len(),
{
    let more = placed(order, keys, x);
    if order.len() == 0 || !key_less(keys[x], keys[order.last()]) {
        assert forall|i: int, j: int| 0 <= i < j < more.len() implies {
            &&& !key_less(keys[#[trigger] more[j]], keys[#[trigger] more[i]])
            &&& keys[more[i]] == keys[more[j]] ==> more[i] < more[j]
        } by {
            if j == order.len() {
                if i < order.len() - 1 {
                    assert(!key_less(keys[order.last()], keys[order[i]]));
                    lemma_key_transitive(keys[order[i]], keys[order.last()], keys[x]);
                }
            } else {
                assert(more[i] == order[i] && more[j] == order[j]);
            }
        }
        assert forall|i: int| 0 <= i < more.len() implies {
            ||| #[trigger] more[i] == x
            ||| exists|k: int| 0 <= k < order.len() && #[trigger] order[k] == more[i]
        } by {
            if i < order.len() {
                assert(order[i] == more[i]);
            }
        }
    } else {
        let init = order.drop_last();
        assert forall|i: int, j: int| 0 <= i < j < init.len() implies {
            &&& !key_less(keys[#[trigger] init[j]], keys[#[trigger] init[i]])
            &&& keys[init[i]] == keys[init[j]] ==> init[i] < init[j]
        } by {
            assert(init[i] == order[i] && init[j] == order[j]);
        }
        assert forall|i: int| 0 <= i < init.len() implies 0 <= #[trigger] init[i] < x by {
            assert(init[i] == order[i]);
        }
        lemma_placed(init, keys, x);
        let front = placed(init, keys, x);
        let last = order.last();
        assert(more == front.push(last));
        lemma_key_total(keys[x], keys[last]);
        assert forall|i: int| 0 <= i < front.len() implies {
            &&& !key_less(keys[last], keys[#[trigger] front[i]])
            &&& keys[front[i]] == keys[last] ==> front[i] < last
            &&& front[i] != last
        } by {
            if front[i] != x {
                let k = choose|k: int| 0 <= k < init.len() && #[trigger] init[k] == front[i];
                assert(order[k] == front[i]);
                assert(order[order.len() - 1] == last);
            } else {
                assert(order[order.len() - 1] == last);
            }
        }
        assert forall|i: int, j: int| 0 <= i < j < more.len() implies {
            &&& !key_less(keys[#[trigger] more[j]], keys[#[trigger] more[i]])
            &&& keys[more[i]] == keys[more[j]] ==> more[i] < more[j]
        } by {
            if j < front.len() {
                assert(more[i] == front[i] && more[j] == front[j]);
            } else {
                assert(more[i] == front[i]);
            }
        }
        assert forall|i: int| 0 <= i < more.len() implies {
            ||| #[trigger] more[i] == x
            ||| exists|k: int| 0 <= k < order.len() && #[trigger] order[k] == more[i]
        } by {
            if i == front.len() {
                assert(order[order.len() - 1] == more[i]);
            } else if front[i] != x {
                let k = choose|k: int| 0 <= k < init.len() && #[trigger] init[k] == front[i];
                assert(order[k] == more[i]);
            }
        }
        assert(more.no_duplicates()) by {
            assert forall|i: int, j: int| 0 <= i < j < more.len() implies more[i] != more[j] by {
                if j < front.len() {
                    assert(front[i] != front[j]);
                } else {
                    assert(front[i] != last);
                }
            }
        }
    }
}

proof fn lemma_sorted_to(keys: Seq<SortKeyView>, n: nat)
    ensures
        covers(sorted_to(keys, n), n),
        in_order(sorted_to(keys, n), keys),
    decreases n,
{
    if n > 0 {
        let m = (n - 1) as nat;
        lemma_sorted_to(keys, m);
        lemma_placed(sorted_to(keys, m), keys, m as int);
        let order = sorted_to(keys, n);
        assert forall|i: int| 0 <= i < order.len() implies 0 <= #[trigger] order[i] < n by {
            if order[i] != m {
                let k = choose|k: int|
                    0 <= k < m && #[trigger] sorted_to(keys, m)[k] == order[i];
            }
        }
    }
}

/// Sorting loses nothing and repeats nothing, puts no entry before a smaller
/// one, and keeps the order of equal entries.
pub proof fn law_stable_order(keys: Seq<SortKeyView>)
    ensures
        covers(stable_order(keys), keys.len()),
        in_order(stable_order(keys), keys),
{
    lemma_sorted_to(keys, keys.len());
}

/// A list of different numbers below its length holds each of them.
pub proof fn lemma_covers_hits(order: Seq<int>, n: nat, k: int)
    requires
        covers(order, n),
        0 <= k < n,
    ensures
        exists|i: int| 0 <= i < order.len() && #[trigger] order[i] == k,
{
    let all = order.to_set();
    let range = vstd::set_lib::set_int_range(0, n as int);
    order.unique_seq_to_set();
    vstd::set_lib::lemma_int_range(0, n as int);
    assert forall|x: int| all.contains(x) implies range.contains(x) by {
        let i = choose|i: int| 0 <= i < order.len() && order[i] == x;
        assert(0 <= order[i] < n);
    }
    vstd::set_lib::lemma_subset_equality(all, range);
    assert(all.contains(k));
}

/// Things put in another order are the same things.
pub proof fn lemma_order_keeps_all<A>(order: Seq<int>, items: Seq<A>)
    requires
        covers(order, items.len()),
    ensures
        order.map_values(|k: int| items[k]).to_multiset() == items.to_multiset(),
    decreases items.len(),
{
    broadcast use vstd::seq_lib::group_to_multiset_ensures;

    let out = order.map_values(|k: int| items[k]);
    if items.len() == 0 {
        assert(out =~= items);
    } else {
        let init = items.drop_last();
        let n = items.len() as int;
        lemma_covers_hits(order, items.len(), n - 1);
        let p = choose|p: int| 0 <= p < order.len() && #[trigger] order[p] == n - 1;
        let rest = order.remove(p);
        assert(covers(rest, init.len())) by {
            assert forall|i: int| 0 <= i < rest.len() implies 0 <= #[trigger] rest[i] < n - 1 by {
                let k = if i < p {
                    i
                } else {
                    i + 1
                };
                assert(rest[i] == order[k]);
                assert(order[k] != order[p]);
            }
            assert forall|i: int, j: int| 0 <= i < rest.len() && 0 <= j < rest.len() && i
                != j implies rest[i] != rest[j] by {
                let a = if i < p {
                    i
                } else {
                    i + 1
                };
                let b = if j < p {
                    j
                } else {
                    j + 1
                };
                assert(order[a] != order[b]);
            }
        }
        lemma_order_keeps_all(rest, init);
        assert(out.remove(p) =~= rest.map_values(|k: int| init[k])) by {
            assert forall|i: int| 0 <= i < rest.len() implies out.remove(p)[i]
                == init[#[trigger] rest[i]] by {
                assert(0 <= rest[i] < n - 1);
            }
        }
        assert(out[p] == items.last());
        assert(items =~= init.push(items.last()));
        assert(out.contains(items.last()));
        let m = out.to_multiset();
        assert(m.count(items.last()) > 0);
        assert(m.remove(items.last()) == init.to_multiset());
        assert(m =~= m.remove(items.last()).insert(items.last()));
    }
}

/// Keys in order are sorted already.
pub proof fn lemma_sorted_stays(keys: Seq<SortKeyView>)
    requires
        forall|i: int, j: int|
            0 <= i < j < keys.len() ==> !key_less(#[trigger] keys[j], #[trigger] keys[i]),
    ensures
        stable_order(keys) == Seq::new(keys.len(), |i: int| i),
{
    lemma_sorted_to_stays(keys, keys.len());
}

proof fn lemma_sorted_to_stays(keys: Seq<SortKeyView>, n: nat)
    requires
        n <= keys.len(),
        forall|i: int, j: int|
            0 <= i < j < keys.len() ==> !key_less(#[trigger] keys[j], #[trigger] keys[i]),
    ensures
        sorted_to(keys, n) == Seq::new(n, |i: int| i),
    decreases n,
{
    if n == 0 {
        assert(sorted_to(keys, n) =~= Seq::new(n, |i: int| i));
    } else {
        let m = (n - 1) as nat;
        lemma_sorted_to_stays(keys, m);
        let before = Seq::new(m, |i: int| i);
        assert(placed(before, keys, m as int) == before.push(m as int)) by {
            if m > 0 {
                assert(!key_less(keys[m as int], keys[m - 1]));
            }
        }
        assert(before.push(m as int) =~= Seq::new(n, |i: int| i));
    }
}

/// The integers of a list of indices.
pub open spec fn indices(v: Seq<usize>) -> Seq<int> {
    v.map_values(|i: usize| i as int)
}

/// Sorts by keys: the indices of the keys in sorted order.
pub fn sorted_order(keys: &Vec<SortKey>) -> (r: Vec<usize>)
    ensures
        indices(r@) == stable_order(key_views(keys@)),
        r@.len() == keys@.len(),
        forall|i: int| 0 <= i < r@.len() ==> 0 <= #[trigger] r@[i] < keys@.len(),
{
    let ghost all = key_views(keys@);
    let mut order: Vec<usize> = Vec::new();
    let mut x: usize = 0;
    assert(indices(order@) =~= seq![]);
    while x < keys.len()
        invariant
            all == key_views(keys@),
            x <= keys@.len(),
            indices(order@) == sorted_to(all, x as nat),
            covers(indices(order@), x as nat),
        decreases keys.len() - x,
    {
        let mut pos: usize = order.len();
        let ghost before = indices(order@);
        assert(order@.len() == before.len());
        assert forall|i: int| 0 <= i < order@.len() implies #[trigger] order@[i] < x by {
            assert(before[i] == order@[i]);
        }
        while pos > 0 && key_before(&keys[x], &keys[order[pos - 1]])
            invariant
                all == key_views(keys@),
                x < keys@.len(),
                before == indices(order@),
                covers(before, x as nat),
                pos <= order@.len() == x,
                forall|i: int| 0 <= i < order@.len() ==> #[trigger] order@[i] < x,
                forall|i: int|
                    pos <= i < before.len() ==> key_less(all[x as int], all[#[trigger] before[i]]),
            decreases pos,
        {
            pos -= 1;
            assert(before[pos as int] == order@[pos as int]);
        }
        proof {
            if pos > 0 {
                assert(before[pos - 1] == order@[pos - 1]);
            }
            lemma_placed_at(before, all, x as int, pos as int);
            lemma_sorted_to(all, (x + 1) as nat);
        }
        order.insert(pos, x);
        assert(indices(order@) =~= before.insert(pos as int, x as int));
        x += 1;
    }
    proof {
        assert forall|i: int| 0 <= i < order@.len() implies 0 <= #[trigger] order@[i]
            < keys@.len() by {
            assert(indices(order@)[i] == order@[i]);
        }
    }
    order
}

} // verus!
