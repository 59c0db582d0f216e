//! Dictionary order on strings, and the order in which a list of strings
//! ascends.

use crate::text::views;
use vstd::prelude::*;
use vstd::string::*;

verus! {

/// Dictionary order by character code; a prefix comes first.
pub open spec fn lex_le(a: Seq<char>, b: Seq<char>) -> bool
    decreases a.len(),
{
    if a.len() == 0 {
        true
    } else if b.len() == 0 {
        false
    } else if a[0] != b[0] {
        (a[0] as u32) < (b[0] as u32)
    } else {
        lex_le(a.drop_first(), b.drop_first())
    }
}

/// Whether `a` comes before `b`, or equals it, in dictionary order.
pub fn string_le(a: &str, b: &str) -> (le: bool)
    ensures
        le == lex_le(a@, b@),
{
    let n = a.unicode_len();
    let m = b.unicode_len();
    let mut i: usize = 0;
    proof {
        assert(a@.subrange(0, n as int) =~= a@);
        assert(b@.subrange(0, m as int) =~= b@);
    }
    while i < n && i < m
        invariant
            n == a@.len(),
            m == b@.len(),
            i <= n,
            i <= m,
            lex_le(a@, b@) == lex_le(
                a@.subrange(i as int, n as int),
                b@.subrange(i as int, m as int),
            ),
        decreases n - i,
    {
        let x = a.get_char(i);
        let y = b.get_char(i);
        proof {
            let ra = a@.subrange(i as int, n as int);
            let rb = b@.subrange(i as int, m as int);
            assert(ra[0] == x && rb[0] == y);
            assert(ra.drop_first() =~= a@.subrange(i + 1, n as int));
            assert(rb.drop_first() =~= b@.subrange(i + 1, m as int));
        }
        if x != y {
            return x < y;
        }
        i = i + 1;
    }
    i == n
}

/// Of two strings, one does not come after the other.
pub proof fn lemma_lex_le_total(a: Seq<char>, b: Seq<char>)
    ensures
        lex_le(a, b) || lex_le(b, a),
    decreases a.len(),
{
    if a.len() > 0 && b.len() > 0 {
        if a[0] == b[0] {
            lemma_lex_le_total(a.drop_first(), b.drop_first());
        } else {
            let x = a[0];
            let y = b[0];
            assert(x as u32 != y as u32) by {
                vstd::utf8::char_u32_cast(x, x as u32);
                vstd::utf8::char_u32_cast(y, y as u32);
            }
        }
    }
}

/// What does not come after a string that does not come after a third does
/// not come after the third.
pub proof fn lemma_lex_le_transitive(a: Seq<char>, b: Seq<char>, c: Seq<char>)
    requires
        lex_le(a, b),
        lex_le(b, c),
    ensures
        lex_le(a, c),
    decreases a.len(),
{
    if a.len() > 0 && b.len() > 0 && c.len() > 0 && a[0] == b[0] && b[0] == c[0] {
        lemma_lex_le_transitive(a.drop_first(), b.drop_first(), c.drop_first());
    }
}

/// `order` with the index `i` put behind the last index whose key does not
/// come after the key of `i`.
pub open spec fn insert_by_key(order: Seq<usize>, keys: Seq<Seq<char>>, i: usize) -> Seq<usize>
    decreases order.len(),
{
    if order.len() == 0 {
        seq![i]
    } else if lex_le(keys[order.last() as int], keys[i as int]) {
        order.push(i)
    } else {
        insert_by_key(order.drop_last(), keys, i).push(order.last())
    }
}

/// The indices `0..n` arranged by ascending key; indices with equal keys
/// keep their order.
pub open spec fn order_of(keys: Seq<Seq<char>>, n: nat) -> Seq<usize>
    decreases n,
{
    if n == 0 {
        Seq::empty()
    } else {
        insert_by_key(order_of(keys, (n - 1) as nat), keys, (n - 1) as usize)
    }
}

/// The order in which the strings of `keys` ascend: the result lists their
/// indices, smallest key first, equal keys in their given order.
pub fn sort_order(keys: &Vec<String>) -> (order: Vec<usize>)
    ensures
        order@ == order_of(views(keys@), keys@.len()),
{
    let mut order: Vec<usize> = Vec::new();
    let mut i: usize = 0;
    while i < keys.len()
        invariant
            i <= keys.len(),
            order@ == order_of(views(keys@), i as nat),
            order@.len() == i,
            forall|k: int| 0 <= k < order@.len() ==> order@[k] < i,
        decreases keys.len() - i,
    {
        let ghost before = order@;
        let mut p: usize = order.len();
        proof {
            assert(before.subrange(0, p as int) =~= before);
            assert(insert_by_key(before, views(keys@), i) + before.subrange(
                p as int,
                before.len() as int,
            ) =~= insert_by_key(before, views(keys@), i));
        }
        while p > 0 && !string_le(keys[order[p - 1]].as_str(), keys[i].as_str())
            invariant
                p <= order@.len(),
                i < keys.len(),
                order@ == before,
                forall|k: int| 0 <= k < order@.len() ==> order@[k] < i,
                insert_by_key(before, views(keys@), i) == insert_by_key(
                    before.subrange(0, p as int),
                    views(keys@),
                    i,
                ) + before.subrange(p as int, before.len() as int),
            decreases p,
        {
            proof {
                let head = before.subrange(0, p as int);
                assert(head.last() == before[p - 1]);
                assert(head.drop_last() =~= before.subrange(0, p - 1));
                assert(insert_by_key(head.drop_last(), views(keys@), i).push(head.last())
                    + before.subrange(p as int, before.len() as int) =~= insert_by_key(
                    head.drop_last(),
                    views(keys@),
                    i,
                ) + before.subrange(p - 1, before.len() as int));
            }
            p = p - 1;
        }
        proof {
            let head = before.subrange(0, p as int);
            if p > 0 {
                assert(head.last() == before[p - 1]);
            }
            assert(insert_by_key(head, views(keys@), i) == head.push(i));
            assert(before.subrange(0, before.len() as int) =~= before);
        }
        order.insert(p, i);
        proof {
            assert(order@ =~= before.subrange(0, p as int).push(i) + before.subrange(
                p as int,
                before.len() as int,
            ));
        }
        i = i + 1;
    }
    order
}

/// The keys along `order` ascend.
pub open spec fn ascends(order: Seq<usize>, keys: Seq<Seq<char>>) -> bool {
    forall|a: int, b: int|
        0 <= a < b < order.len() ==> lex_le(keys[order[a] as int], keys[order[b] as int])
}

/// Inserting puts one more index into the order and keeps the others.
pub proof fn lemma_insert_by_key(order: Seq<usize>, keys: Seq<Seq<char>>, i: usize)
    ensures
        insert_by_key(order, keys, i).len() == order.len() + 1,
        forall|k: int|
            0 <= k <= order.len() ==> {
                let x = #[trigger] insert_by_key(order, keys, i)[k];
                x == i || exists|j: int| 0 <= j < order.len() && order[j] == x
            },
    decreases order.len(),
{
    let out = insert_by_key(order, keys, i);
    if order.len() == 0 {
    } else if lex_le(keys[order.last() as int], keys[i as int]) {
        assert forall|k: int| 0 <= k <= order.len() implies {
            let x = #[trigger] out[k];
            x == i || exists|j: int| 0 <= j < order.len() && order[j] == x
        } by {
            if k < order.len() {
                assert(order[k] == out[k]);
            }
        }
    } else {
        lemma_insert_by_key(order.drop_last(), keys, i);
        let inner = insert_by_key(order.drop_last(), keys, i);
        assert forall|k: int| 0 <= k <= order.len() implies {
            let x = #[trigger] out[k];
            x == i || exists|j: int| 0 <= j < order.len() && order[j] == x
        } by {
            if k < order.len() {
                let x = inner[k];
                assert(out[k] == x);
                if x != i {
                    let head = order.drop_last();
                    let j = choose|j: int| 0 <= j < head.len() && head[j] == x;
                    assert(order[j] == x);
                }
            } else {
                assert(out[k] == order.last());
                assert(order[order.len() - 1] == order.last());
            }
        }
    }
}

/// `order_of` lists `n` indices, each below `n`.
pub proof fn lemma_order_in_range(keys: Seq<Seq<char>>, n: nat)
    ensures
        order_of(keys, n).len() == n,
        forall|k: int| 0 <= k < n ==> (#[trigger] order_of(keys, n)[k]) < n,
    decreases n,
{
    if n > 0 {
        lemma_order_in_range(keys, (n - 1) as nat);
        lemma_insert_by_key(order_of(keys, (n - 1) as nat), keys, (n - 1) as usize);
    }
}

/// Inserting by key into an ascending order leaves it ascending.
pub proof fn lemma_insert_ascends(order: Seq<usize>, keys: Seq<Seq<char>>, i: usize)
    requires
        ascends(order, keys),
    ensures
        ascends(insert_by_key(order, keys, i), keys),
    decreases order.len(),
{
    let out = insert_by_key(order, keys, i);
    if order.len() == 0 {
    } else if lex_le(keys[order.last() as int], keys[i as int]) {
        assert forall|a: int, b: int| 0 <= a < b < out.len() implies lex_le(
            keys[out[a] as int],
            keys[out[b] as int],
        ) by {
            if b == order.len() {
                if a < order.len() - 1 {
                    assert(lex_le(keys[order[a] as int], keys[order[order.len() - 1] as int]));
                    lemma_lex_le_transitive(
                        keys[order[a] as int],
                        keys[order.last() as int],
                        keys[i as int],
                    );
                }
            } else {
                assert(lex_le(keys[order[a] as int], keys[order[b] as int]));
            }
        }
    } else {
        let head = order.drop_last();
        assert(ascends(head, keys)) by {
            assert forall|a: int, b: int| 0 <= a < b < head.len() implies lex_le(
                keys[head[a] as int],
                keys[head[b] as int],
            ) by {
                assert(lex_le(keys[order[a] as int], keys[order[b] as int]));
            }
        }
        lemma_insert_ascends(head, keys, i);
        lemma_insert_by_key(head, keys, i);
        let inner = insert_by_key(head, keys, i);
        lemma_lex_le_total(keys[order.last() as int], keys[i as int]);
        assert forall|a: int, b: int| 0 <= a < b < out.len() implies lex_le(
            keys[out[a] as int],
            keys[out[b] as int],
        ) by {
            if b < inner.len() {
                assert(out[a] == inner[a] && out[b] == inner[b]);
            } else {
                let x = inner[a];
                assert(out[a] == x);
                assert(out[b] == order.last());
                if x != i {
                    let j = choose|j: int| 0 <= j < head.len() && head[j] == x;
                    assert(lex_le(keys[order[j] as int], keys[order[order.len() - 1] as int]));
                }
            }
        }
    }
}

/// `order_of` arranges the indices so that their keys ascend.
pub proof fn lemma_order_ascends(keys: Seq<Seq<char>>, n: nat)
    ensures
        ascends(order_of(keys, n), keys),
    decreases n,
{
    if n > 0 {
        lemma_order_ascends(keys, (n - 1) as nat);
        lemma_insert_ascends(order_of(keys, (n - 1) as nat), keys, (n - 1) as usize);
    }
}

/// Inserting keeps every index of the order, and puts in the new one.
pub proof fn lemma_insert_keeps(order: Seq<usize>, keys: Seq<Seq<char>>, i: usize)
    ensures
        insert_by_key(order, keys, i).contains(i),
        forall|j: int| 0 <= j < order.len() ==> insert_by_key(order, keys, i).contains(order[j]),
    decreases order.len(),
{
    let out = insert_by_key(order, keys, i);
    if order.len() == 0 {
        assert(out[0] == i);
    } else if lex_le(keys[order.last() as int], keys[i as int]) {
        assert(out[order.len() as int] == i);
        assert forall|j: int| 0 <= j < order.len() implies out.contains(order[j]) by {
            assert(out[j] == order[j]);
        }
    } else {
        let head = order.drop_last();
        let inner = insert_by_key(head, keys, i);
        lemma_insert_keeps(head, keys, i);
        lemma_insert_by_key(head, keys, i);
        let at = choose|k: int| 0 <= k < inner.len() && inner[k] == i;
        assert(out[at] == i);
        assert forall|j: int| 0 <= j < order.len() implies out.contains(order[j]) by {
            if j < head.len() {
                assert(inner.contains(head[j]));
                let k = choose|k: int| 0 <= k < inner.len() && inner[k] == head[j];
                assert(out[k] == order[j]);
            } else {
                assert(out[order.len() as int] == order[j]);
            }
        }
    }
}

/// Inserting an index that the order does not hold into an order without
/// repetition gives one without repetition.
pub proof fn lemma_insert_distinct(order: Seq<usize>, keys: Seq<Seq<char>>, i: usize)
    requires
        forall|a: int, b: int| 0 <= a < b < order.len() ==> order[a] != order[b],
        forall|a: int| 0 <= a < order.len() ==> order[a] != i,
    ensures
        forall|a: int, b: int|
            0 <= a < b <= order.len() ==> insert_by_key(order, keys, i)[a] != insert_by_key(
                order,
                keys,
                i,
            )[b],
    decreases order.len(),
{
    let out = insert_by_key(order, keys, i);
    if order.len() == 0 {
    } else if lex_le(keys[order.last() as int], keys[i as int]) {
        assert forall|a: int, b: int| 0 <= a < b <= order.len() implies out[a] != out[b] by {
            assert(out[a] == order[a]);
            if b < order.len() {
                assert(out[b] == order[b]);
            }
        }
    } else {
        let head = order.drop_last();
        let inner = insert_by_key(head, keys, i);
        assert forall|a: int, b: int| 0 <= a < b < head.len() implies head[a] != head[b] by {
            assert(head[a] == order[a] && head[b] == order[b]);
        }
        assert forall|a: int| 0 <= a < head.len() implies head[a] != i by {
            assert(head[a] == order[a]);
        }
        lemma_insert_distinct(head, keys, i);
        lemma_insert_by_key(head, keys, i);
        assert forall|a: int, b: int| 0 <= a < b <= order.len() implies out[a] != out[b] by {
            assert(out[a] == inner[a]);
            if b < order.len() {
                assert(out[b] == inner[b]);
            } else {
                assert(out[b] == order[order.len() - 1]);
                let x = inner[a];
                if x != i {
                    let j = choose|j: int| 0 <= j < head.len() && head[j] == x;
                    assert(order[j] == x);
                }
            }
        }
    }
}

/// `order_of` lists every index below `n`, and each of them once.
pub proof fn lemma_order_permutes(keys: Seq<Seq<char>>, n: nat)
    requires
        n <= usize::MAX,
    ensures
        forall|i: usize| i < n ==> #[trigger] order_of(keys, n).contains(i),
        forall|a: int, b: int| 0 <= a < b < n ==> order_of(keys, n)[a] != order_of(keys, n)[b],
    decreases n,
{
    if n > 0 {
        let before = order_of(keys, (n - 1) as nat);
        let last = (n - 1) as usize;
        lemma_order_permutes(keys, (n - 1) as nat);
        lemma_order_in_range(keys, (n - 1) as nat);
        lemma_insert_keeps(before, keys, last);
        lemma_insert_distinct(before, keys, last);
        assert forall|i: usize| i < n implies #[trigger] order_of(keys, n).contains(i) by {
            if i < n - 1 {
                assert(before.contains(i));
                let k = choose|k: int| 0 <= k < before.len() && before[k] == i;
                assert(order_of(keys, n).contains(before[k]));
            }
        }
    }
}

} // verus!
