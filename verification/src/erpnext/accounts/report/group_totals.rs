//! The layout of an item register grouped by one field: where each group's
//! subtotal opens and closes, where its rows go and whether a grand total
//! ends the listing. The sums themselves are the caller's.
use vstd::prelude::*;
use crate::text::str_eq;

verus! {

/// One step of a grouped listing, over the items by index.
#[derive(Debug, PartialEq, Eq, Clone, Copy)]
pub enum GroupStep {
    /// Emit the running subtotal of the group of this item, then a blank
    /// row, and add that subtotal to the grand total.
    Close(usize),
    /// Start the subtotal of this item's group and the grand total, each
    /// unless it is already running.
    Open(usize),
    /// Emit this item's row and add it to the subtotal of its group.
    Row(usize),
    /// Emit the grand total.
    GrandTotal,
}

/// Whether a group starts at item `i`: its group value differs from the one
/// before it, the value before the first item being empty.
pub open spec fn opens_at(groups: Seq<Seq<char>>, i: int) -> bool {
    if i == 0 {
        groups[0] != Seq::<char>::empty()
    } else {
        groups[i] != groups[i - 1]
    }
}

/// Whether the group of item `i - 1` is closed before item `i`: the value
/// changes there and the previous value is not empty.
pub open spec fn closes_before(groups: Seq<Seq<char>>, i: int) -> bool {
    i > 0 && groups[i] != groups[i - 1] && groups[i - 1] != Seq::<char>::empty()
}

/// The steps for item `i` of a grouped listing.
pub open spec fn item_steps(groups: Seq<Seq<char>>, i: int) -> Seq<GroupStep> {
    (if closes_before(groups, i) { seq![GroupStep::Close((i - 1) as usize)] } else { Seq::empty() })
        + (if opens_at(groups, i) { seq![GroupStep::Open(i as usize)] } else { Seq::empty() })
        + seq![GroupStep::Row(i as usize)]
}

/// The steps for the first `n` items of a grouped listing.
pub open spec fn grouped_steps(groups: Seq<Seq<char>>, n: nat) -> Seq<GroupStep>
    decreases n,
{
    if n == 0 {
        Seq::empty()
    } else {
        grouped_steps(groups, (n - 1) as nat) + item_steps(groups, n - 1)
    }
}

/// Whether a subtotal with group value `v` was started among the items.
pub open spec fn value_opened(groups: Seq<Seq<char>>, v: Seq<char>) -> bool {
    exists|k: int| 0 <= k < groups.len() && opens_at(groups, k) && groups[k] == v
}

/// Whether any subtotal, and with it the grand total, was started.
pub open spec fn any_opened(groups: Seq<Seq<char>>) -> bool {
    exists|k: int| 0 <= k < groups.len() && opens_at(groups, k)
}

/// What ends a grouped listing: the last group's subtotal, if one runs for
/// its value, then the grand total, if it runs.
pub open spec fn closing_steps(groups: Seq<Seq<char>>) -> Seq<GroupStep> {
    if groups.len() == 0 {
        Seq::empty()
    } else {
        (if value_opened(groups, groups.last()) {
            seq![GroupStep::Close((groups.len() - 1) as usize)]
        } else {
            Seq::empty()
        }) + (if any_opened(groups) { seq![GroupStep::GrandTotal] } else { Seq::empty() })
    }
}

/// The steps of a listing: one row per item in order when it is not grouped;
/// otherwise the steps of each item, then the closing steps.
pub open spec fn listing_steps(groups: Seq<Seq<char>>, grouped: bool) -> Seq<GroupStep> {
    if grouped {
        grouped_steps(groups, groups.len()) + closing_steps(groups)
    } else {
        Seq::new(groups.len(), |i: int| GroupStep::Row(i as usize))
    }
}

/// The items whose rows the steps emit, in order.
pub open spec fn rows_of(steps: Seq<GroupStep>) -> Seq<usize>
    decreases steps.len(),
{
    if steps.len() == 0 {
        Seq::empty()
    } else {
        rows_of(steps.drop_last()) + match steps.last() {
            GroupStep::Row(i) => seq![i],
            _ => Seq::empty(),
        }
    }
}

pub open spec fn group_values(groups: Seq<String>) -> Seq<Seq<char>> {
    Seq::new(groups.len(), |i: int| groups[i]@)
}

/// How the facts on started subtotals grow by one item.
proof fn lemma_open_facts(g: Seq<Seq<char>>, i: int)
    requires
        0 <= i < g.len(),
        i > 0 && g[i - 1] != Seq::<char>::empty() ==> (exists|k: int|
            0 <= k < i && opens_at(g, k) && g[k] == g[i - 1]),
    ensures
        g[i] != Seq::<char>::empty() ==> (exists|k: int| 0 <= k < i + 1 && opens_at(g, k) && g[k] == g[i]),
        (exists|k: int| 0 <= k < i + 1 && opens_at(g, k)) == ((exists|k: int| 0 <= k < i && opens_at(g, k))
            || opens_at(g, i)),
        (exists|k: int| 0 <= k < i + 1 && opens_at(g, k) && g[k] == Seq::<char>::empty()) == ((exists|k: int|
            0 <= k < i && opens_at(g, k) && g[k] == Seq::<char>::empty()) || (opens_at(g, i) && g[i]
            == Seq::<char>::empty())),
{
    if g[i] != Seq::<char>::empty() {
        if opens_at(g, i) {
            assert(0 <= i < i + 1 && opens_at(g, i) && g[i] == g[i]);
        } else {
            assert(i > 0);
            let k = choose|k: int| 0 <= k < i && opens_at(g, k) && g[k] == g[i - 1];
            assert(0 <= k < i + 1 && opens_at(g, k) && g[k] == g[i]);
        }
    }
    if opens_at(g, i) {
        assert(0 <= i < i + 1 && opens_at(g, i));
    }
    if exists|k: int| 0 <= k < i + 1 && opens_at(g, k) {
        let k = choose|k: int| 0 <= k < i + 1 && opens_at(g, k);
        if k < i {
            assert(0 <= k < i && opens_at(g, k));
        }
    }
    if exists|k: int| 0 <= k < i + 1 && opens_at(g, k) && g[k] == Seq::<char>::empty() {
        let k = choose|k: int| 0 <= k < i + 1 && opens_at(g, k) && g[k] == Seq::<char>::empty();
        if k < i {
            assert(0 <= k < i && opens_at(g, k) && g[k] == Seq::<char>::empty());
        }
    }
}

/// The steps of an item register over the group value of each item:
/// `grouped` says whether the register is grouped at all.
pub fn group_layout(groups: &Vec<String>, grouped: bool) -> (r: Vec<GroupStep>)
    ensures
        r@ == listing_steps(group_values(groups@), grouped),
{
    let ghost g = group_values(groups@);
    let n = groups.len();
    let mut out: Vec<GroupStep> = Vec::new();
    if !grouped {
        let mut i: usize = 0;
        while i < n
            invariant
                n == groups@.len(),
                i <= n,
                out@ == Seq::new(i as nat, |k: int| GroupStep::Row(k as usize)),
            decreases n - i,
        {
            out.push(GroupStep::Row(i));
            assert(out@ =~= Seq::new((i + 1) as nat, |k: int| GroupStep::Row(k as usize)));
            i = i + 1;
        }
        return out;
    }
    let mut any_open = false;
    let mut empty_open = false;
    let mut i: usize = 0;
    while i < n
        invariant
            n == groups@.len(),
            g == group_values(groups@),
            i <= n,
            out@ == grouped_steps(g, i as nat),
            any_open == (exists|k: int| 0 <= k < i && opens_at(g, k)),
            empty_open == (exists|k: int| 0 <= k < i && opens_at(g, k) && g[k] == Seq::<char>::empty()),
            i > 0 && g[i - 1] != Seq::<char>::empty() ==> (exists|k: int|
                0 <= k < i && opens_at(g, k) && g[k] == g[i - 1]),
        decreases n - i,
    {
        let ghost before = out@;
        let value = groups[i].as_str();
        let changed = if i == 0 {
            value.unicode_len() != 0
        } else {
            !str_eq(groups[i - 1].as_str(), value)
        };
        assert(g[i as int] == value@);
        assert((value@.len() == 0) == (g[i as int] == Seq::<char>::empty())) by {
            if value@.len() == 0 {
                assert(g[i as int] =~= Seq::<char>::empty());
            }
        }
        proof {
            if i == 0 {
                assert(g[0] == groups@[0]@);
            } else {
                assert(g[i - 1] == groups@[i - 1]@);
                assert(g[i as int] == groups@[i as int]@);
            }
        }
        assert(changed == opens_at(g, i as int));
        let close = changed && i > 0 && groups[i - 1].as_str().unicode_len() != 0;
        proof {
            if i > 0 && groups@[i - 1]@.len() == 0 {
                assert(g[i - 1] =~= Seq::<char>::empty());
            }
        }
        assert(close == closes_before(g, i as int));
        if close {
            out.push(GroupStep::Close(i - 1));
        }
        if changed {
            out.push(GroupStep::Open(i));
            if value.unicode_len() == 0 {
                empty_open = true;
            }
            any_open = true;
        }
        out.push(GroupStep::Row(i));
        assert(out@ =~= before + item_steps(g, i as int));
        assert(grouped_steps(g, (i + 1) as nat) == grouped_steps(g, i as nat) + item_steps(g, i as int));
        proof {
            lemma_open_facts(g, i as int);
        }
        i = i + 1;
    }
    if n > 0 {
        let last_open = groups[n - 1].as_str().unicode_len() != 0 || empty_open;
        proof {
            assert(g.last() == groups@[n - 1]@);
            if groups@[n - 1]@.len() != 0 {
                assert(g[n - 1] != Seq::<char>::empty());
            } else {
                assert(g.last() =~= Seq::<char>::empty());
            }
        }
        assert(last_open == value_opened(g, g.last()));
        assert(any_open == any_opened(g));
        let ghost before = out@;
        if last_open {
            out.push(GroupStep::Close(n - 1));
        }
        if any_open {
            out.push(GroupStep::GrandTotal);
        }
        assert(out@ =~= before + closing_steps(g));
    } else {
        assert(out@ =~= grouped_steps(g, 0) + closing_steps(g));
    }
    out
}

proof fn lemma_rows_of_concat(a: Seq<GroupStep>, b: Seq<GroupStep>)
    ensures
        rows_of(a + b) == rows_of(a) + rows_of(b),
    decreases b.len(),
{
    if b.len() == 0 {
        assert(a + b =~= a);
        assert(rows_of(b) =~= Seq::<usize>::empty());
        assert(rows_of(a) + rows_of(b) =~= rows_of(a));
    } else {
        lemma_rows_of_concat(a, b.drop_last());
        assert((a + b).drop_last() =~= a + b.drop_last());
        assert((a + b).last() == b.last());
        assert(rows_of(a) + rows_of(b) =~= rows_of(a) + rows_of(b.drop_last()) + match b.last() {
            GroupStep::Row(i) => seq![i],
            _ => Seq::empty(),
        });
    }
}

proof fn lemma_grouped_rows(g: Seq<Seq<char>>, n: nat)
    requires
        n <= g.len(),
    ensures
        rows_of(grouped_steps(g, n)) == Seq::new(n, |i: int| i as usize),
    decreases n,
{
    if n == 0 {
        assert(rows_of(grouped_steps(g, 0)) =~= Seq::new(0, |i: int| i as usize));
    } else {
        let i = n - 1;
        lemma_grouped_rows(g, (n - 1) as nat);
        lemma_rows_of_concat(grouped_steps(g, (n - 1) as nat), item_steps(g, i));
        let c: Seq<GroupStep> = if closes_before(g, i) { seq![GroupStep::Close((i - 1) as usize)] } else { Seq::empty() };
        let o: Seq<GroupStep> = if opens_at(g, i) { seq![GroupStep::Open(i as usize)] } else { Seq::empty() };
        lemma_rows_of_concat(c + o, seq![GroupStep::Row(i as usize)]);
        lemma_rows_of_concat(c, o);
        reveal_with_fuel(rows_of, 2);
        assert(rows_of(c) =~= Seq::<usize>::empty());
        assert(rows_of(o) =~= Seq::<usize>::empty());
        assert(rows_of(seq![GroupStep::Row(i as usize)]) =~= seq![i as usize]);
        assert(Seq::new(n, |k: int| k as usize) =~= Seq::new((n - 1) as nat, |k: int| k as usize) + seq![i as usize]);
    }
}

proof fn lemma_plain_rows(n: nat)
    ensures
        rows_of(Seq::new(n, |i: int| GroupStep::Row(i as usize))) == Seq::new(n, |i: int| i as usize),
    decreases n,
{
    if n > 0 {
        lemma_plain_rows((n - 1) as nat);
        assert(Seq::new(n, |i: int| GroupStep::Row(i as usize)).drop_last() =~= Seq::new(
            (n - 1) as nat,
            |i: int| GroupStep::Row(i as usize),
        ));
        assert(Seq::new(n, |k: int| k as usize) =~= Seq::new((n - 1) as nat, |k: int| k as usize) + seq![(n - 1) as usize]);
    } else {
        assert(rows_of(Seq::new(0, |i: int| GroupStep::Row(i as usize))) =~= Seq::new(0, |i: int| i as usize));
    }
}

/// Grouped or not, a listing emits the row of every item exactly once, in
/// the order of the items; the subtotal, blank and total rows come between.
pub proof fn lemma_every_row_once_in_order(groups: Seq<Seq<char>>, grouped: bool)
    ensures
        rows_of(listing_steps(groups, grouped)) == Seq::new(groups.len(), |i: int| i as usize),
{
    if grouped {
        lemma_grouped_rows(groups, groups.len());
        lemma_rows_of_concat(grouped_steps(groups, groups.len()), closing_steps(groups));
        let t = closing_steps(groups);
        if groups.len() > 0 {
            let c: Seq<GroupStep> = if value_opened(groups, groups.last()) {
                seq![GroupStep::Close((groups.len() - 1) as usize)]
            } else {
                Seq::empty()
            };
            let e: Seq<GroupStep> = if any_opened(groups) { seq![GroupStep::GrandTotal] } else { Seq::empty() };
            lemma_rows_of_concat(c, e);
            reveal_with_fuel(rows_of, 2);
            assert(rows_of(c) =~= Seq::<usize>::empty());
            assert(rows_of(e) =~= Seq::<usize>::empty());
        }
        assert(rows_of(t) =~= Seq::<usize>::empty());
        assert(rows_of(listing_steps(groups, grouped)) =~= Seq::new(groups.len(), |i: int| i as usize));
    } else {
        lemma_plain_rows(groups.len());
    }
}

} // verus!
