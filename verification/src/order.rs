//! Stable ordering of rows by a list of optional texts, as `sort_by` with a
//! comparator that compares the texts in turn orders them.
use vstd::prelude::*;
use crate::text::{lemma_lex_irreflexive, lemma_lex_total, lemma_lex_transitive, lex_less, str_eq, str_less};

verus! {

/// The texts a row is ordered by, compared in turn.
pub type OrderKey = Seq<Option<Seq<char>>>;

/// An absent text comes before any present one; present ones compare as text.
pub open spec fn opt_less(a: Option<Seq<char>>, b: Option<Seq<char>>) -> bool {
    match (a, b) {
        (None, Some(_)) => true,
        (Some(x), Some(y)) => lex_less(x, y),
        _ => false,
    }
}

/// `a` comes strictly before `b`: at the first place where they differ.
pub open spec fn key_less(a: OrderKey, b: OrderKey) -> bool
    decreases a.len(),
{
    if a.len() == 0 || b.len() == 0 {
        false
    } else if opt_less(a[0], b[0]) {
        true
    } else if a[0] == b[0] {
        key_less(a.skip(1), b.skip(1))
    } else {
        false
    }
}

/// Key `a` goes strictly before key `b`: the smaller first when ascending, the
/// greater first when descending.
pub open spec fn goes_first(a: OrderKey, b: OrderKey, descending: bool) -> bool {
    if descending { key_less(b, a) } else { key_less(a, b) }
}

/// `x` placed after every index whose key it does not go before: one step of
/// a stable sort.
pub open spec fn insert_in_order(keys: Seq<OrderKey>, descending: bool, sorted: Seq<int>, x: int) -> Seq<int>
    decreases sorted.len(),
{
    if sorted.len() == 0 {
        seq![x]
    } else if !goes_first(keys[x], keys[sorted.last()], descending) {
        sorted.push(x)
    } else {
        insert_in_order(keys, descending, sorted.drop_last(), x).push(sorted.last())
    }
}

/// The first `m` indices, stably sorted by their keys.
pub open spec fn stable_sorted(keys: Seq<OrderKey>, descending: bool, m: nat) -> Seq<int>
    decreases m,
{
    if m == 0 {
        Seq::empty()
    } else {
        insert_in_order(keys, descending, stable_sorted(keys, descending, (m - 1) as nat), m - 1)
    }
}

proof fn lemma_insert_in_order_at(keys: Seq<OrderKey>, descending: bool, sorted: Seq<int>, x: int, p: int)
    requires
        0 <= p <= sorted.len(),
        forall|j: int| p <= j < sorted.len() ==> goes_first(keys[x], keys[#[trigger] sorted[j]], descending),
        p > 0 ==> !goes_first(keys[x], keys[sorted[p - 1]], descending),
    ensures
        insert_in_order(keys, descending, sorted, x) == sorted.insert(p, x),
    decreases sorted.len(),
{
    if sorted.len() == 0 {
        assert(sorted.insert(p, x) =~= seq![x]);
    } else if !goes_first(keys[x], keys[sorted.last()], descending) {
        assert(p == sorted.len());
        assert(sorted.insert(p, x) =~= sorted.push(x));
    } else {
        lemma_insert_in_order_at(keys, descending, sorted.drop_last(), x, p);
        assert(sorted.drop_last().insert(p, x).push(sorted.last()) =~= sorted.insert(p, x));
    }
}

proof fn lemma_opt_order(a: Option<Seq<char>>, b: Option<Seq<char>>, c: Option<Seq<char>>)
    ensures
        !opt_less(a, a),
        opt_less(a, b) && opt_less(b, c) ==> opt_less(a, c),
        a != b ==> opt_less(a, b) || opt_less(b, a),
{
    if let Some(x) = a {
        lemma_lex_irreflexive(x);
    }
    if opt_less(a, b) && opt_less(b, c) {
        if let (Some(x), Some(y), Some(z)) = (a, b, c) {
            lemma_lex_transitive(x, y, z);
        }
    }
    if a != b {
        if let (Some(x), Some(y)) = (a, b) {
            lemma_lex_total(x, y);
        }
    }
}

/// On keys of one length, `key_less` is a strict total order.
proof fn lemma_key_order(a: OrderKey, b: OrderKey, c: OrderKey)
    requires
        a.len() == b.len(),
        b.len() == c.len(),
    ensures
        !key_less(a, a),
        key_less(a, b) && key_less(b, c) ==> key_less(a, c),
        a != b ==> key_less(a, b) || key_less(b, a),
    decreases a.len(),
{
    if a.len() > 0 {
        lemma_opt_order(a[0], b[0], c[0]);
        lemma_opt_order(b[0], c[0], a[0]);
        lemma_opt_order(c[0], a[0], b[0]);
        lemma_key_order(a.skip(1), b.skip(1), c.skip(1));
        if a != b && a[0] == b[0] {
            if a.skip(1) == b.skip(1) {
                assert(a =~= seq![a[0]] + a.skip(1));
                assert(b =~= seq![b[0]] + b.skip(1));
            }
        }
    } else {
        assert(a =~= b);
    }
}

proof fn lemma_goes_first_order(a: OrderKey, b: OrderKey, c: OrderKey, descending: bool)
    requires
        a.len() == b.len(),
        b.len() == c.len(),
    ensures
        !goes_first(a, a, descending),
        goes_first(a, b, descending) && goes_first(b, c, descending) ==> goes_first(a, c, descending),
        a != b ==> goes_first(a, b, descending) || goes_first(b, a, descending),
{
    lemma_key_order(a, b, c);
    lemma_key_order(c, b, a);
    lemma_key_order(b, a, c);
}

/// The rows among the first `m` that a list of indices orders: each of them
/// once, in ascending order of key, rows with equal keys in their own order.
pub open spec fn stably_orders(keys: Seq<OrderKey>, descending: bool, r: Seq<int>, m: nat) -> bool {
    &&& r.len() == m
    &&& ordered_below(keys, descending, r, m)
}

/// Distinct rows below `m`, in ascending order of key, rows with equal keys in
/// their own order.
pub open spec fn ordered_below(keys: Seq<OrderKey>, descending: bool, r: Seq<int>, m: nat) -> bool {
    &&& forall|i: int| 0 <= i < r.len() ==> 0 <= #[trigger] r[i] < m
    &&& forall|i: int, j: int| 0 <= i < j < r.len() ==> r[i] != r[j]
    &&& forall|i: int, j: int| 0 <= i < j < r.len() ==> !goes_first(keys[#[trigger] r[j]], keys[#[trigger] r[i]], descending)
    &&& forall|i: int, j: int| 0 <= i < j < r.len() && !goes_first(keys[#[trigger] r[i]], keys[#[trigger] r[j]], descending) ==> r[i] < r[j]
}

proof fn lemma_insert_in_order(keys: Seq<OrderKey>, descending: bool, s: Seq<int>, x: int)
    requires
        0 <= x < keys.len(),
        ordered_below(keys, descending, s, x as nat),
        forall|i: int, j: int| 0 <= i < keys.len() && 0 <= j < keys.len() ==> #[trigger] keys[i].len() == #[trigger] keys[j].len(),
    ensures
        exists|p: int| 0 <= p <= s.len() && insert_in_order(keys, descending, s, x) == s.insert(p, x)
            && (forall|j: int| 0 <= j < p ==> !goes_first(keys[x], keys[#[trigger] s[j]], descending))
            && (forall|j: int| p <= j < s.len() ==> goes_first(keys[x], keys[#[trigger] s[j]], descending)),
    decreases s.len(),
{
    if s.len() == 0 {
        assert(insert_in_order(keys, descending, s, x) == s.insert(0, x)) by {
            assert(s.insert(0, x) =~= seq![x]);
        }
    } else {
        let last = s.last();
        let n = s.len() as int;
        if !goes_first(keys[x], keys[last], descending) {
            assert(insert_in_order(keys, descending, s, x) == s.insert(n, x)) by {
                assert(s.insert(n, x) =~= s.push(x));
            }
            assert forall|j: int| 0 <= j < n implies !goes_first(keys[x], keys[#[trigger] s[j]], descending) by {
                if j < n - 1 {
                    assert(!goes_first(keys[s[n - 1]], keys[s[j]], descending));
                    lemma_goes_first_order(keys[x], keys[s[j]], keys[s[n - 1]], descending);
                    lemma_goes_first_order(keys[s[n - 1]], keys[x], keys[s[j]], descending);
                    lemma_goes_first_order(keys[s[j]], keys[s[n - 1]], keys[x], descending);
                }
            }
        } else {
            let t = s.drop_last();
            assert(ordered_below(keys, descending, t, x as nat)) by {
                assert forall|i: int| 0 <= i < t.len() implies 0 <= #[trigger] t[i] < x by {
                    assert(t[i] == s[i]);
                }
                assert forall|i: int, j: int| 0 <= i < j < t.len() implies !goes_first(keys[#[trigger] t[j]], keys[#[trigger] t[i]], descending) by {
                    assert(t[i] == s[i] && t[j] == s[j]);
                }
                assert forall|i: int, j: int| 0 <= i < j < t.len() && !goes_first(keys[#[trigger] t[i]], keys[#[trigger] t[j]], descending) implies t[i] < t[j] by {
                    assert(t[i] == s[i] && t[j] == s[j]);
                }
            }
            lemma_insert_in_order(keys, descending, t, x);
            let p = choose|p: int| 0 <= p <= t.len() && insert_in_order(keys, descending, t, x) == t.insert(p, x)
                && (forall|j: int| 0 <= j < p ==> !goes_first(keys[x], keys[#[trigger] t[j]], descending))
                && (forall|j: int| p <= j < t.len() ==> goes_first(keys[x], keys[#[trigger] t[j]], descending));
            assert(insert_in_order(keys, descending, s, x) == s.insert(p, x)) by {
                assert(t.insert(p, x).push(last) =~= s.insert(p, x));
            }
            assert forall|j: int| 0 <= j < p implies !goes_first(keys[x], keys[#[trigger] s[j]], descending) by {
                assert(s[j] == t[j]);
            }
            assert forall|j: int| p <= j < s.len() implies goes_first(keys[x], keys[#[trigger] s[j]], descending) by {
                if j < n - 1 {
                    assert(s[j] == t[j]);
                }
            }
        }
    }
}

/// Sorting rows by keys of one length gives each row once, in ascending order
/// of key, with rows of equal keys in their original order.
pub proof fn lemma_stable_sorted(keys: Seq<OrderKey>, descending: bool, m: nat)
    requires
        m <= keys.len(),
        forall|i: int, j: int| 0 <= i < keys.len() && 0 <= j < keys.len() ==> #[trigger] keys[i].len() == #[trigger] keys[j].len(),
    ensures
        stably_orders(keys, descending, stable_sorted(keys, descending, m), m),
    decreases m,
{
    if m > 0 {
        let x = m - 1;
        let s = stable_sorted(keys, descending, (m - 1) as nat);
        lemma_stable_sorted(keys, descending, (m - 1) as nat);
        lemma_insert_in_order(keys, descending, s, x);
        let p = choose|p: int| 0 <= p <= s.len() && insert_in_order(keys, descending, s, x) == s.insert(p, x)
            && (forall|j: int| 0 <= j < p ==> !goes_first(keys[x], keys[#[trigger] s[j]], descending))
            && (forall|j: int| p <= j < s.len() ==> goes_first(keys[x], keys[#[trigger] s[j]], descending));
        let r = s.insert(p, x);
        assert(stable_sorted(keys, descending, m) == r);
        assert forall|i: int| 0 <= i < r.len() implies 0 <= #[trigger] r[i] < m by {
            if i < p { assert(r[i] == s[i]); } else if i > p { assert(r[i] == s[i - 1]); }
        }
        assert forall|i: int, j: int| 0 <= i < j < r.len() implies r[i] != r[j] by {
            if i < p && j < p { assert(r[i] == s[i] && r[j] == s[j]); }
            else if i < p && j > p { assert(r[i] == s[i] && r[j] == s[j - 1]); }
            else if i > p { assert(r[i] == s[i - 1] && r[j] == s[j - 1]); }
            else if i == p { assert(r[j] == s[j - 1]); }
            else { assert(r[i] == s[i]); }
        }
        assert forall|i: int, j: int| 0 <= i < j < r.len() implies !goes_first(keys[#[trigger] r[j]], keys[#[trigger] r[i]], descending) by {
            if i < p && j < p { assert(r[i] == s[i] && r[j] == s[j]); }
            else if i < p && j > p { assert(r[i] == s[i] && r[j] == s[j - 1]); }
            else if i > p { assert(r[i] == s[i - 1] && r[j] == s[j - 1]); }
            else if i == p {
                assert(r[j] == s[j - 1]);
                lemma_goes_first_order(keys[x], keys[s[j - 1]], keys[x], descending);
            } else {
                assert(r[i] == s[i]);
                assert(r[j] == x);
            }
        }
        assert forall|i: int, j: int| 0 <= i < j < r.len() && !goes_first(keys[#[trigger] r[i]], keys[#[trigger] r[j]], descending) implies r[i] < r[j] by {
            if i < p && j < p { assert(r[i] == s[i] && r[j] == s[j]); }
            else if i < p && j > p { assert(r[i] == s[i] && r[j] == s[j - 1]); }
            else if i > p { assert(r[i] == s[i - 1] && r[j] == s[j - 1]); }
            else if i == p { assert(r[j] == s[j - 1]); }
            else { assert(r[i] == s[i]); assert(r[j] == x); }
        }
    }
}

pub open spec fn opt_text(o: Option<String>) -> Option<Seq<char>> {
    match o {
        Some(s) => Some(s@),
        None => None,
    }
}

pub open spec fn key_view(k: Seq<Option<String>>) -> OrderKey {
    Seq::new(k.len(), |i: int| opt_text(k[i]))
}

pub open spec fn keys_view(keys: Seq<Vec<Option<String>>>) -> Seq<OrderKey> {
    Seq::new(keys.len(), |i: int| key_view(keys[i]@))
}

fn opt_lt(a: &Option<String>, b: &Option<String>) -> (r: bool)
    ensures
        r == opt_less(opt_text(*a), opt_text(*b)),
{
    match (a, b) {
        (None, Some(_)) => true,
        (Some(x), Some(y)) => str_less(x.as_str(), y.as_str()),
        _ => false,
    }
}

fn opt_same(a: &Option<String>, b: &Option<String>) -> (r: bool)
    ensures
        r == (opt_text(*a) == opt_text(*b)),
{
    match (a, b) {
        (None, None) => true,
        (Some(x), Some(y)) => str_eq(x.as_str(), y.as_str()),
        _ => false,
    }
}

/// Whether key `a` comes strictly before key `b`.
pub fn key_lt(a: &Vec<Option<String>>, b: &Vec<Option<String>>) -> (r: bool)
    ensures
        r == key_less(key_view(a@), key_view(b@)),
{
    let ghost ka = key_view(a@);
    let ghost kb = key_view(b@);
    let mut i: usize = 0;
    assert(ka.skip(0) =~= ka);
    assert(kb.skip(0) =~= kb);
    while i < a.len() && i < b.len()
        invariant
            i <= a@.len(),
            i <= b@.len(),
            ka == key_view(a@),
            kb == key_view(b@),
            key_less(ka, kb) == key_less(ka.skip(i as int), kb.skip(i as int)),
        decreases a@.len() - i,
    {
        assert(ka.skip(i as int)[0] == opt_text(a@[i as int]));
        assert(kb.skip(i as int)[0] == opt_text(b@[i as int]));
        if opt_lt(&a[i], &b[i]) {
            return true;
        }
        if !opt_same(&a[i], &b[i]) {
            return false;
        }
        assert(ka.skip(i as int).skip(1) =~= ka.skip(i + 1));
        assert(kb.skip(i as int).skip(1) =~= kb.skip(i + 1));
        i = i + 1;
    }
    false
}

fn first_of(a: &Vec<Option<String>>, b: &Vec<Option<String>>, descending: bool) -> (r: bool)
    ensures
        r == goes_first(key_view(a@), key_view(b@), descending),
{
    if descending { key_lt(b, a) } else { key_lt(a, b) }
}

/// The indices of the keys in stable order, ascending or descending: as
/// `sort_by` orders rows with a comparator that compares their keys.
pub fn stable_order(keys: &Vec<Vec<Option<String>>>, descending: bool) -> (r: Vec<usize>)
    ensures
        r@.map_values(|v: usize| v as int) == stable_sorted(keys_view(keys@), descending, keys@.len()),
        r@.len() == keys@.len(),
        forall|j: int| 0 <= j < r@.len() ==> #[trigger] r@[j] < keys@.len(),
{
    let ghost kv = keys_view(keys@);
    let n = keys.len();
    let mut sorted: Vec<usize> = Vec::new();
    let mut i: usize = 0;
    while i < n
        invariant
            n == keys@.len(),
            kv == keys_view(keys@),
            i <= n,
            sorted@.map_values(|v: usize| v as int) == stable_sorted(kv, descending, i as nat),
            forall|j: int| 0 <= j < sorted@.len() ==> #[trigger] sorted@[j] < i,
            sorted@.len() == i,
        decreases n - i,
    {
        let ghost before = sorted@.map_values(|v: usize| v as int);
        let mut p: usize = sorted.len();
        while p > 0 && first_of(&keys[i], &keys[sorted[p - 1]], descending)
            invariant
                p <= sorted@.len(),
                n == keys@.len(),
                kv == keys_view(keys@),
                i < n,
                before == sorted@.map_values(|v: usize| v as int),
                forall|j: int| 0 <= j < sorted@.len() ==> #[trigger] sorted@[j] < i,
                forall|j: int| p <= j < sorted@.len() ==> goes_first(kv[i as int], kv[#[trigger] sorted@[j] as int], descending),
            decreases p,
        {
            p = p - 1;
        }
        proof {
            assert forall|j: int| p <= j < before.len() implies goes_first(kv[i as int], kv[#[trigger] before[j]], descending) by {
                assert(before[j] == sorted@[j] as int);
            }
            if p > 0 {
                assert(before[p - 1] == sorted@[p - 1] as int);
            }
            lemma_insert_in_order_at(kv, descending, before, i as int, p as int);
        }
        sorted.insert(p, i);
        assert(sorted@.map_values(|v: usize| v as int) =~= before.insert(p as int, i as int));
        i = i + 1;
    }
    sorted
}

} // verus!
