//! Report definitions of the accounting module and the plans through which a
//! report hands its work to another one.
use std::collections::BTreeMap;
use vstd::prelude::*;
use crate::text::{owned, texts_strictly_sorted};

pub mod account_balance;
pub mod accounts_payable;
pub mod accounts_receivable;
pub mod accounts_receivable_summary;
pub mod asset_depreciation_ledger;
pub mod asset_depreciations_and_balances;
pub mod balance_sheet;
pub mod bank_clearance_summary;
pub mod bank_reconciliation_statement;
pub mod billed_items_to_be_received;
pub mod budget_variance_report;
pub mod calculated_discount_mismatch;
pub mod cash_flow;
pub mod cheques_and_deposits_incorrectly_cleared;
pub mod consolidated_financial_statement;
pub mod consolidated_trial_balance;
pub mod custom_financial_statement;
pub mod customer_ledger_summary;
pub mod deferred_revenue_and_expense;
pub mod dimension_wise_accounts_balance_report;
pub mod financial_ratios;
pub mod financial_statements;
pub mod general_and_payment_ledger_comparison;
pub mod general_ledger;
pub mod gross_and_net_profit_report;
pub mod gross_profit;
pub mod group_totals;
pub mod inactive_sales_items;
pub mod invalid_ledger_entries;
pub mod non_billed_report;
pub mod item_wise_purchase_register;
pub mod item_wise_sales_register;
pub mod payment_ledger;
pub mod payment_period_based_on_invoice_date;
pub mod pos_register;
pub mod profit_and_loss_statement;

verus! {

/// Report filters by name.
pub type ReportFilters = BTreeMap<String, String>;

#[derive(Debug, PartialEq, Eq)]
pub enum ReportArg {
    Text(&'static str),
    List(&'static [&'static str]),
}

/// A report that runs another report with the given filters and arguments.
#[derive(Debug, PartialEq, Eq)]
pub struct DelegatedReportExecution {
    pub delegate: &'static str,
    pub filters: Option<ReportFilters>,
    pub args: Vec<(&'static str, ReportArg)>,
}

/// A document-trends report: which document type it summarises, with which
/// filters, and where its columns and data come from.
#[derive(Debug, PartialEq, Eq)]
pub struct TrendReportExecution {
    pub document_type: &'static str,
    pub filters: ReportFilters,
    pub columns_source: &'static str,
    pub data_source: &'static str,
}

impl TrendReportExecution {
    pub fn new(document_type: &'static str, filters: Option<ReportFilters>) -> (r: Self)
        ensures
            r.document_type == document_type,
            r.filters@ == match filters {
                Some(f) => f@,
                None => Map::<String, String>::empty(),
            },
            r.columns_source@ == "erpnext.controllers.trends.get_columns"@,
            r.data_source@ == "erpnext.controllers.trends.get_data"@,
    {
        let filters = match filters {
            Some(f) => f,
            None => BTreeMap::new(),
        };
        TrendReportExecution {
            document_type,
            filters,
            columns_source: "erpnext.controllers.trends.get_columns",
            data_source: "erpnext.controllers.trends.get_data",
        }
    }
}

/// `BTreeMap::get` on a map keyed by `String`, with a `&str` key: the value
/// stored under the key that holds the same characters, if there is one.
#[verifier::external_body]
pub(crate) fn map_get<'a, V: DeepView>(map: &'a BTreeMap<String, V>, key: &str) -> (r: Option<&'a V>)
    ensures
        match r {
            Some(v) => map.deep_view().contains_key(key@) && map.deep_view()[key@] == v.deep_view(),
            None => !map.deep_view().contains_key(key@),
        },
{
    map.get(key)
}

/// `BTreeMap::insert` on a map keyed by `String`: afterwards the key holds the
/// value, and every other key holds what it held before.
#[verifier::external_body]
pub(crate) fn map_insert<V: DeepView>(map: &mut BTreeMap<String, V>, key: String, value: V)
    ensures
        final(map).deep_view() == old(map).deep_view().insert(key@, value.deep_view()),
{
    map.insert(key, value);
}

/// `BTreeMap::keys` on a map keyed by `String`, collected: every key once, in
/// ascending order of their characters.
#[verifier::external_body]
pub(crate) fn map_keys<V: DeepView>(map: &BTreeMap<String, V>) -> (r: Vec<String>)
    ensures
        texts_strictly_sorted(r.deep_view()),
        forall|k: Seq<char>| #[trigger] r.deep_view().contains(k) <==> map.deep_view().contains_key(k),
{
    map.keys().cloned().collect()
}

/// For each key present among `keys` that `by_key` holds, what it holds.
pub open spec fn lists_for(keys: Seq<Option<Seq<char>>>, by_key: Map<Seq<char>, Seq<Seq<char>>>) -> Map<Seq<char>, Seq<Seq<char>>> {
    Map::new(|k: Seq<char>| (exists|i: int| 0 <= i < keys.len() && #[trigger] keys[i] == Some(k)) && by_key.contains_key(k),
        |k: Seq<char>| by_key[k])
}

/// The lists held under the keys that occur, by key.
pub fn lists_for_keys(keys: &[Option<String>], by_key: &BTreeMap<String, Vec<String>>) -> (r: BTreeMap<String, Vec<String>>)
    ensures
        r.deep_view() == lists_for(keys.deep_view(), by_key.deep_view()),
{
    let ghost kv = keys.deep_view();
    let ghost m = by_key.deep_view();
    let mut r: BTreeMap<String, Vec<String>> = BTreeMap::new();
    proof {
        vstd::std_specs::btree::lemma_btree_map_deepview_dom(r);
        assert(r.deep_view() =~= Map::empty());
        assert(lists_for(kv.subrange(0, 0), m) =~= Map::empty());
    }
    let mut i: usize = 0;
    while i < keys.len()
        invariant
            i <= kv.len(),
            kv == keys.deep_view(),
            m == by_key.deep_view(),
            r.deep_view() == lists_for(kv.subrange(0, i as int), m),
        decreases kv.len() - i,
    {
        let ghost before = r.deep_view();
        assert(kv[i as int] == keys@[i as int].deep_view());
        if let Some(k) = &keys[i] {
            if let Some(list) = map_get(by_key, k.as_str()) {
                let copy = list.clone();
                assert(copy@ =~= list@);
                assert(copy.deep_view() =~= list.deep_view());
                map_insert(&mut r, owned(k.as_str()), copy);
            }
        }
        assert(r.deep_view() =~= lists_for(kv.subrange(0, i + 1), m)) by {
            assert forall|x: Seq<char>| (exists|j: int| 0 <= j < i + 1 && #[trigger] kv.subrange(0, i + 1)[j] == Some(x))
                <==> ((exists|j: int| 0 <= j < i && #[trigger] kv.subrange(0, i as int)[j] == Some(x)) || kv[i as int] == Some(x)) by {
                if exists|j: int| 0 <= j < i + 1 && #[trigger] kv.subrange(0, i + 1)[j] == Some(x) {
                    let j = choose|j: int| 0 <= j < i + 1 && #[trigger] kv.subrange(0, i + 1)[j] == Some(x);
                    if j < i { assert(kv.subrange(0, i as int)[j] == Some(x)); }
                }
                if exists|j: int| 0 <= j < i && #[trigger] kv.subrange(0, i as int)[j] == Some(x) {
                    let j = choose|j: int| 0 <= j < i && #[trigger] kv.subrange(0, i as int)[j] == Some(x);
                    assert(kv.subrange(0, i + 1)[j] == Some(x));
                }
                if kv[i as int] == Some(x) {
                    assert(kv.subrange(0, i + 1)[i as int] == Some(x));
                }
            }
        }
        i = i + 1;
    }
    assert(kv.subrange(0, i as int) =~= kv);
    r
}

} // verus!
