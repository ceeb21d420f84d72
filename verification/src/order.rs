//! Lexicographic order on character sequences and stable sorting by such keys.
use vstd::prelude::*;

verus! {

/// `a <= b` in the order of `str::cmp`: character by character, by code point, a proper
/// prefix first.
pub open spec fn lex_le(a: Seq<char>, b: Seq<char>) -> bool
    decreases a.len(),
{
    if a.len() == 0 {
        true
    } else if b.len() == 0 {
        false
    } else if a[0] != b[0] {
        (a[0] as u32) < (b[0] as u32)
    } else {
        lex_le(a.drop_first(), b.drop_first())
    }
}

/// `a < b` in the order of `str::cmp`.
pub open spec fn lex_lt(a: Seq<char>, b: Seq<char>) -> bool {
    lex_le(a, b) && a != b
}

pub proof fn lemma_lex_total(a: Seq<char>, b: Seq<char>)
    ensures
        lex_le(a, b) || lex_le(b, a),
    decreases a.len(),
{
    if a.len() > 0 && b.len() > 0 {
        if a[0] == b[0] {
            lemma_lex_total(a.drop_first(), b.drop_first());
        } else {
            lemma_char_code_injective(a[0], b[0]);
        }
    }
}

pub(crate) proof fn lemma_char_code_injective(c: char, d: char)
    requires
        c != d,
    ensures
        (c as u32) != (d as u32),
{
}

pub proof fn lemma_lex_antisymmetric(a: Seq<char>, b: Seq<char>)
    requires
        lex_le(a, b),
        lex_le(b, a),
    ensures
        a == b,
    decreases a.len(),
{
    if a.len() > 0 {
        lemma_lex_antisymmetric(a.drop_first(), b.drop_first());
        assert(a == seq![a[0]] + a.drop_first());
        assert(b == seq![b[0]] + b.drop_first());
    }
}

pub proof fn lemma_lex_transitive(a: Seq<char>, b: Seq<char>, c: Seq<char>)
    requires
        lex_le(a, b),
        lex_le(b, c),
    ensures
        lex_le(a, c),
    decreases a.len(),
{
    if a.len() > 0 && b.len() > 0 && c.len() > 0 && a[0] == b[0] && b[0] == c[0] {
        lemma_lex_transitive(a.drop_first(), b.drop_first(), c.drop_first());
    }
}

pub proof fn lemma_lex_reflexive(a: Seq<char>)
    ensures
        lex_le(a, a),
    decreases a.len(),
{
    if a.len() > 0 {
        lemma_lex_reflexive(a.drop_first());
    }
}

/// Whether `a <= b` in the order of `str::cmp`.
pub fn lex_le_exec(a: &Vec<char>, b: &Vec<char>) -> (r: bool)
    ensures
        r == lex_le(a@, b@),
{
    let mut i: usize = 0;
    assert(a@.subrange(0, a.len() as int) == a@);
    assert(b@.subrange(0, b.len() as int) == b@);
    while i < a.len() && i < b.len() && a[i] == b[i]
        invariant
            i <= a.len(),
            i <= b.len(),
            lex_le(a@, b@) == lex_le(a@.subrange(i as int, a.len() as int), b@.subrange(
                i as int,
                b.len() as int,
            )),
        decreases a.len() - i,
    {
        proof {
            let x = a@.subrange(i as int, a.len() as int);
            let y = b@.subrange(i as int, b.len() as int);
            assert(x.drop_first() == a@.subrange(i + 1, a.len() as int));
            assert(y.drop_first() == b@.subrange(i + 1, b.len() as int));
        }
        i = i + 1;
    }
    let ghost x = a@.subrange(i as int, a.len() as int);
    let ghost y = b@.subrange(i as int, b.len() as int);
    if i == a.len() {
        true
    } else if i == b.len() {
        false
    } else {
        assert(x[0] == a@[i as int] && y[0] == b@[i as int]);
        (a[i] as u32) < (b[i] as u32)
    }
}

/// `order` lists the indices of `keys` sorted by key, equal keys in their original order:
/// the order of a stable sort.
pub open spec fn is_stable_order(keys: Seq<Seq<char>>, order: Seq<usize>) -> bool {
    &&& order.len() == keys.len()
    &&& forall|i: int| 0 <= i < order.len() ==> #[trigger] order[i] < keys.len()
    &&& forall|i: int, j: int| 0 <= i < j < order.len() ==> order[i] != order[j]
    &&& forall|i: int, j: int|
        0 <= i < j < order.len() ==> #[trigger] ordered_before(keys, order[i], order[j])
}

/// Index `a` comes before index `b` in a stable sort by `keys`.
pub open spec fn ordered_before(keys: Seq<Seq<char>>, a: usize, b: usize) -> bool {
    lex_lt(keys[a as int], keys[b as int]) || (keys[a as int] == keys[b as int] && a < b)
}

/// The views of a vector of character vectors.
pub open spec fn keys_view(keys: Seq<Vec<char>>) -> Seq<Seq<char>> {
    keys.map_values(|k: Vec<char>| k@)
}

/// The indices of `keys` in the order of a stable sort by key.
pub fn stable_order(keys: &Vec<Vec<char>>) -> (order: Vec<usize>)
    ensures
        is_stable_order(keys_view(keys@), order@),
{
    let ghost kv = keys_view(keys@);
    let mut order: Vec<usize> = Vec::new();
    let mut i: usize = 0;
    while i < keys.len()
        invariant
            kv == keys_view(keys@),
            kv.len() == keys.len(),
            i <= keys.len(),
            order@.len() == i,
            forall|k: int| 0 <= k < order@.len() ==> #[trigger] order@[k] < i,
            forall|a: int, b: int| 0 <= a < b < order@.len() ==> order@[a] != order@[b],
            forall|a: int, b: int|
                0 <= a < b < order@.len() ==> #[trigger] ordered_before(kv, order@[a], order@[b]),
        decreases keys.len() - i,
    {
        let mut pos: usize = 0;
        while pos < order.len() && lex_le_exec(&keys[order[pos]], &keys[i])
            invariant
                kv == keys_view(keys@),
                kv.len() == keys.len(),
                i < keys.len(),
                pos <= order@.len(),
                forall|k: int| 0 <= k < order@.len() ==> #[trigger] order@[k] < i,
                forall|q: int| 0 <= q < pos ==> lex_le(#[trigger] kv[order@[q] as int], kv[i as int]),
            decreases order@.len() - pos,
        {
            assert(kv[order@[pos as int] as int] == keys@[order@[pos as int] as int]@);
            assert(kv[i as int] == keys@[i as int]@);
            pos = pos + 1;
        }
        let ghost old_order = order@;
        proof {
            if pos < order@.len() {
                assert(kv[order@[pos as int] as int] == keys@[order@[pos as int] as int]@);
                assert(kv[i as int] == keys@[i as int]@);
                assert(!lex_le(kv[order@[pos as int] as int], kv[i as int]));
            }
        }
        order.insert(pos, i);
        proof {
            let n = order@;
            assert(n == old_order.insert(pos as int, i));
            assert forall|a: int, b: int| 0 <= a < b < n.len() implies #[trigger] ordered_before(
                kv,
                n[a],
                n[b],
            ) by {
                if b < pos {
                    assert(n[a] == old_order[a] && n[b] == old_order[b]);
                } else if a > pos {
                    assert(n[a] == old_order[a - 1] && n[b] == old_order[b - 1]);
                } else if a < pos && b > pos {
                    assert(n[a] == old_order[a] && n[b] == old_order[b - 1]);
                } else if b == pos {
                    // n[a] is an earlier index whose key is not above the new key.
                    assert(n[a] == old_order[a] && n[b] == i);
                    assert(lex_le(kv[old_order[a] as int], kv[i as int]));
                    if kv[old_order[a] as int] != kv[i as int] {
                    }
                } else {
                    // a == pos: the new index precedes every later one.
                    assert(n[a] == i && n[b] == old_order[b - 1]);
                    let p = old_order[pos as int];
                    let q = old_order[b - 1];
                    lemma_lex_total(kv[p as int], kv[i as int]);
                    assert(lex_le(kv[i as int], kv[p as int]));
                    if b - 1 > pos {
                        assert(ordered_before(kv, old_order[pos as int], old_order[b - 1]));
                        if lex_lt(kv[p as int], kv[q as int]) {
                        } else {
                            lemma_lex_reflexive(kv[p as int]);
                        }
                        lemma_lex_transitive(kv[i as int], kv[p as int], kv[q as int]);
                        if kv[i as int] == kv[q as int] {
                            if lex_lt(kv[p as int], kv[q as int]) {
                            } else {
                                lemma_lex_reflexive(kv[p as int]);
                            }
                        }
                    } else {
                        if kv[i as int] == kv[p as int] {
                            lemma_lex_reflexive(kv[p as int]);
                        }
                    }
                }
            }
            assert forall|a: int, b: int| 0 <= a < b < n.len() implies n[a] != n[b] by {
                if b < pos {
                    assert(n[a] == old_order[a] && n[b] == old_order[b]);
                } else if a > pos {
                    assert(n[a] == old_order[a - 1] && n[b] == old_order[b - 1]);
                } else if a < pos && b > pos {
                    assert(n[a] == old_order[a] && n[b] == old_order[b - 1]);
                } else if b == pos {
                    assert(n[a] == old_order[a]);
                } else {
                    assert(n[b] == old_order[b - 1]);
                }
            }
            assert forall|k: int| 0 <= k < n.len() implies #[trigger] n[k] < i + 1 by {
                if k < pos {
                    assert(n[k] == old_order[k]);
                } else if k > pos {
                    assert(n[k] == old_order[k - 1]);
                }
            }
        }
        i = i + 1;
    }
    order
}

proof fn lemma_ordered_before_asym(keys: Seq<Seq<char>>, a: usize, b: usize)
    requires
        ordered_before(keys, a, b),
    ensures
        !ordered_before(keys, b, a),
{
    if lex_lt(keys[a as int], keys[b as int]) && lex_lt(keys[b as int], keys[a as int]) {
        lemma_lex_antisymmetric(keys[a as int], keys[b as int]);
    }
}

/// Index `x` appears in `o`.
pub open spec fn index_listed(o: Seq<usize>, x: int) -> bool {
    exists|j: int| 0 <= j < o.len() && #[trigger] o[j] as int == x
}

/// A stable order lists every index.
pub proof fn lemma_order_covers(keys: Seq<Seq<char>>, o: Seq<usize>)
    requires
        is_stable_order(keys, o),
    ensures
        forall|x: int| 0 <= x < keys.len() ==> #[trigger] index_listed(o, x),
{
    let n = keys.len() as int;
    let oi = o.map_values(|x: usize| x as int);
    assert(oi.no_duplicates()) by {
        assert forall|a: int, b: int| 0 <= a < oi.len() && 0 <= b < oi.len() && a != b implies oi[a]
            != oi[b] by {
            if a < b {
                assert(o[a] != o[b]);
            } else {
                assert(o[b] != o[a]);
            }
        }
    }
    oi.unique_seq_to_set();
    vstd::set_lib::lemma_int_range(0, n);
    let range = vstd::set_lib::set_int_range(0, n);
    assert(oi.to_set().subset_of(range)) by {
        assert forall|x: int| oi.to_set().contains(x) implies range.contains(x) by {
            let j = choose|j: int| 0 <= j < oi.len() && oi[j] == x;
            assert(o[j] < keys.len());
        }
    }
    vstd::set_lib::lemma_subset_equality(oi.to_set(), range);
    assert forall|x: int| 0 <= x < n implies #[trigger] index_listed(o, x) by {
        assert(range.contains(x));
        assert(oi.to_set().contains(x));
        let j = choose|j: int| 0 <= j < oi.len() && oi[j] == x;
        assert(o[j] as int == x);
    }
}

/// Two stable orders of the same keys agree up to position `i`.
proof fn lemma_stable_orders_agree(keys: Seq<Seq<char>>, o1: Seq<usize>, o2: Seq<usize>, i: int)
    requires
        is_stable_order(keys, o1),
        is_stable_order(keys, o2),
        0 <= i < o1.len(),
    ensures
        forall|k: int| 0 <= k <= i ==> o1[k] == o2[k],
    decreases i,
{
    if i > 0 {
        lemma_stable_orders_agree(keys, o1, o2, i - 1);
    }
    let a = o1[i];
    let b = o2[i];
    if a != b {
        lemma_order_covers(keys, o1);
        lemma_order_covers(keys, o2);
        assert(index_listed(o2, a as int));
        let j = choose|j: int| 0 <= j < o2.len() && #[trigger] o2[j] as int == a as int;
        assert(index_listed(o1, b as int));
        let k = choose|k: int| 0 <= k < o1.len() && #[trigger] o1[k] as int == b as int;
        if j < i {
            assert(o1[j] == o2[j]);
        }
        if k < i {
            assert(o1[k] == o2[k]);
        }
        assert(j > i && k > i);
        assert(ordered_before(keys, o1[i], o1[k]));
        assert(ordered_before(keys, o2[i], o2[j]));
        lemma_ordered_before_asym(keys, a, b);
    }
}

/// There is exactly one stable order of given keys: sorting by key, keeping equal keys in
/// their original order, has one outcome.
pub proof fn lemma_stable_order_unique(keys: Seq<Seq<char>>, o1: Seq<usize>, o2: Seq<usize>)
    requires
        is_stable_order(keys, o1),
        is_stable_order(keys, o2),
    ensures
        o1 == o2,
{
    assert forall|i: int| 0 <= i < o1.len() implies o1[i] == o2[i] by {
        lemma_stable_orders_agree(keys, o1, o2, i);
    }
    assert(o1 =~= o2);
}

} // verus!
