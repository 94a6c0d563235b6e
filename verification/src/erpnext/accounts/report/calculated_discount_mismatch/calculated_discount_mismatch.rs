//! Calculated discount mismatch: finds documents whose discount amount was
//! edited by hand; the transaction query, the reading of a version's change
//! log, and the columns.
use vstd::prelude::*;
use crate::text::{contains_str, contains_text, owned, str_eq};

verus! {

pub const AFFECTED_DOCTYPES: [&'static str; 9] = [
    "POS Invoice",
    "Purchase Invoice",
    "Sales Invoice",
    "Purchase Order",
    "Supplier Quotation",
    "Quotation",
    "Sales Order",
    "Delivery Note",
    "Purchase Receipt",
];

pub const LAST_MODIFIED_DATE_THRESHOLD: &'static str = "2025-05-30";

#[derive(Debug, PartialEq, Eq)]
pub struct ReportColumn {
    pub label: &'static str,
    pub fieldname: &'static str,
    pub fieldtype: &'static str,
    pub options: &'static str,
    pub width: u16,
}

/// label, field name, field type, options, width
pub type ColumnView = (Seq<char>, Seq<char>, Seq<char>, Seq<char>, u16);

impl DeepView for ReportColumn {
    type V = ColumnView;

    open spec fn deep_view(&self) -> ColumnView {
        (self.label@, self.fieldname@, self.fieldtype@, self.options@, self.width)
    }
}

pub open spec fn column(label: Seq<char>, fieldname: Seq<char>, fieldtype: Seq<char>, options: Seq<char>, width: u16) -> ColumnView {
    (label, fieldname, fieldtype, options, width)
}

impl ReportColumn {
    pub fn link(label: &'static str, fieldname: &'static str, options: &'static str, width: u16) -> (r: Self)
        ensures
            r.deep_view() == column(label@, fieldname@, "Link"@, options@, width),
    {
        ReportColumn { label, fieldname, fieldtype: "Link", options, width }
    }

    pub fn dynamic_link(label: &'static str, fieldname: &'static str, options: &'static str, width: u16) -> (r: Self)
        ensures
            r.deep_view() == column(label@, fieldname@, "Dynamic Link"@, options@, width),
    {
        ReportColumn { label, fieldname, fieldtype: "Dynamic Link", options, width }
    }

    pub fn percent(label: &'static str, fieldname: &'static str, width: u16) -> (r: Self)
        ensures
            r.deep_view() == column(label@, fieldname@, "Percent"@, ""@, width),
    {
        ReportColumn { label, fieldname, fieldtype: "Percent", options: "", width }
    }

    pub fn currency(label: &'static str, fieldname: &'static str, width: u16) -> (r: Self)
        ensures
            r.deep_view() == column(label@, fieldname@, "Currency"@, ""@, width),
    {
        ReportColumn { label, fieldname, fieldtype: "Currency", options: "", width }
    }
}

/// A version of a document: its type, its name and the change log it holds.
#[derive(Debug, PartialEq, Eq)]
pub struct VersionRecord {
    pub ref_doctype: String,
    pub docname: String,
    pub data: String,
}

impl VersionRecord {
    pub fn new(ref_doctype: &str, docname: &str, data: &str) -> (r: Self)
        ensures
            r.ref_doctype@ == ref_doctype@,
            r.docname@ == docname@,
            r.data@ == data@,
    {
        VersionRecord { ref_doctype: owned(ref_doctype), docname: owned(docname), data: owned(data) }
    }
}

pub open spec fn spec_columns() -> Seq<ColumnView> {
    seq![
        column("Transaction Type"@, "doctype"@, "Link"@, "DocType"@, 120),
        column("Transaction Name"@, "docname"@, "Dynamic Link"@, "doctype"@, 150),
        column("Discount Percentage in Transaction"@, "actual_discount_percentage"@, "Percent"@, ""@, 180),
        column("Discount Amount in Transaction"@, "actual_discount_amount"@, "Currency"@, ""@, 180),
        column("Suspected Discount Amount"@, "suspected_discount_amount"@, "Currency"@, ""@, 180),
    ]
}

pub fn get_columns() -> (r: Vec<ReportColumn>)
    ensures
        r.deep_view() == spec_columns(),
{
    let r = vec![
        ReportColumn::link("Transaction Type", "doctype", "DocType", 120),
        ReportColumn::dynamic_link("Transaction Name", "docname", "doctype", 150),
        ReportColumn::percent("Discount Percentage in Transaction", "actual_discount_percentage", 180),
        ReportColumn::currency("Discount Amount in Transaction", "actual_discount_amount", 180),
        ReportColumn::currency("Suspected Discount Amount", "suspected_discount_amount", 180),
    ];
    assert(r.deep_view() =~= spec_columns());
    r
}

/// The conditions on the transactions of `doctype`: not cancelled, with a
/// discount percentage and amount, modified after the threshold date.
pub fn get_transactions_query_plan(doctype: &'static str) -> (r: Vec<(&'static str, &'static str, &'static str)>)
    ensures
        r.deep_view() == seq![
            ("docstatus"@, "<"@, "2"@),
            ("additional_discount_percentage"@, ">"@, "0"@),
            ("discount_amount"@, "!="@, "0"@),
            ("modified"@, ">"@, LAST_MODIFIED_DATE_THRESHOLD@),
            ("doctype"@, "="@, doctype@),
        ],
{
    let r = vec![
        ("docstatus", "<", "2"),
        ("additional_discount_percentage", ">", "0"),
        ("discount_amount", "!=", "0"),
        ("modified", ">", LAST_MODIFIED_DATE_THRESHOLD),
        ("doctype", "=", doctype),
    ];
    assert(r.deep_view() =~= seq![
        ("docstatus"@, "<"@, "2"@),
        ("additional_discount_percentage"@, ">"@, "0"@),
        ("discount_amount"@, "!="@, "0"@),
        ("modified"@, ">"@, LAST_MODIFIED_DATE_THRESHOLD@),
        ("doctype"@, "="@, doctype@),
    ]);
    r
}

/// A JSON document as plain values: a number as serde_json displays the
/// parsed number, an object as its entries in key order.
#[derive(Debug)]
pub enum JsonValue {
    Null,
    Bool(bool),
    Number(String),
    Text(String),
    Array(Vec<JsonValue>),
    Object(Vec<(String, JsonValue)>),
}

/// What `serde_json::from_str::<Value>` reads from a text, as plain values;
/// `None` where it reports an error.
pub uninterp spec fn parsed_json(text: Seq<char>) -> Option<JsonValue>;

/// `serde_json::from_str::<serde_json::Value>`, with the value turned into
/// plain values. The result is named, not stated: the JSON grammar is
/// serde_json's.
#[verifier::external_body]
fn parse_json(text: &str) -> (r: Option<JsonValue>)
    ensures
        r == parsed_json(text@),
{
    serde_json::from_str::<serde_json::Value>(text).ok().map(|value| plain_json(&value))
}

/// `serde_json::Value`, carried through `plain_json` only.
#[verifier::external_type_specification]
#[verifier::external_body]
pub struct ExJsonValue(serde_json::Value);

/// Turns a `serde_json::Value` into plain values, one arm per variant; numbers
/// become their `Display` text. Called by `parse_json` alone, on the value that
/// `serde_json::from_str` gave back.
#[verifier::external_body]
fn plain_json(value: &serde_json::Value) -> JsonValue {
    match value {
        serde_json::Value::Null => JsonValue::Null,
        serde_json::Value::Bool(b) => JsonValue::Bool(*b),
        serde_json::Value::Number(n) => JsonValue::Number(n.to_string()),
        serde_json::Value::String(s) => JsonValue::Text(s.clone()),
        serde_json::Value::Array(items) => JsonValue::Array(items.iter().map(plain_json).collect()),
        serde_json::Value::Object(map) => JsonValue::Object(map.iter().map(|(k, v)| (k.clone(), plain_json(v))).collect()),
    }
}

/// The value under `key` in the entries of an object, the first such entry.
pub open spec fn entry_value(entries: Seq<(String, JsonValue)>, key: Seq<char>) -> Option<JsonValue>
    decreases entries.len(),
{
    if entries.len() == 0 {
        None
    } else if entries[0].0@ == key {
        Some(entries[0].1)
    } else {
        entry_value(entries.skip(1), key)
    }
}

/// The text of a value that is a string.
pub open spec fn text_of(value: JsonValue) -> Option<Seq<char>> {
    match value {
        JsonValue::Text(s) => Some(s@),
        _ => None,
    }
}

/// A change row `["discount_amount", old, new]`: its old and new texts.
pub open spec fn discount_row(row: JsonValue) -> Option<(Seq<char>, Seq<char>)> {
    match row {
        JsonValue::Array(items) => {
            if items@.len() >= 1 && text_of(items@[0]) == Some("discount_amount"@) && items@.len() >= 3
                && text_of(items@[1]) is Some && text_of(items@[2]) is Some {
                Some((text_of(items@[1])->0, text_of(items@[2])->0))
            } else {
                None
            }
        },
        _ => None,
    }
}

/// The first row of a change log that records a discount amount change.
pub open spec fn first_discount_row(rows: Seq<JsonValue>) -> Option<(Seq<char>, Seq<char>)>
    decreases rows.len(),
{
    if rows.len() == 0 {
        None
    } else if discount_row(rows[0]) is Some {
        discount_row(rows[0])
    } else {
        first_discount_row(rows.skip(1))
    }
}

/// The discount amount change a version's data records: its `changed` array's
/// first `["discount_amount", old, new]` row.
pub open spec fn discount_change(data: JsonValue) -> Option<(Seq<char>, Seq<char>)> {
    match data {
        JsonValue::Object(entries) => match entry_value(entries@, "changed"@) {
            Some(JsonValue::Array(rows)) => first_discount_row(rows@),
            _ => None,
        },
        _ => None,
    }
}

fn text_value(value: &JsonValue) -> (r: Option<&String>)
    ensures
        r.deep_view() == text_of(*value),
{
    match value {
        JsonValue::Text(s) => Some(s),
        _ => None,
    }
}

fn read_discount_row(row: &JsonValue) -> (r: Option<(String, String)>)
    ensures
        r.deep_view() == discount_row(*row),
{
    match row {
        JsonValue::Array(items) => {
            if items.len() < 1 {
                return None;
            }
            let first = match text_value(&items[0]) {
                Some(s) => s,
                None => return None,
            };
            if !str_eq(first.as_str(), "discount_amount") {
                return None;
            }
            if items.len() < 3 {
                return None;
            }
            let old = match text_value(&items[1]) {
                Some(s) => s.clone(),
                None => return None,
            };
            let new = match text_value(&items[2]) {
                Some(s) => s.clone(),
                None => return None,
            };
            Some((old, new))
        },
        _ => None,
    }
}

/// Reads the discount amount change out of a version's parsed data.
pub fn discount_change_of(data: &JsonValue) -> (r: Option<(String, String)>)
    ensures
        r.deep_view() == discount_change(*data),
{
    let entries = match data {
        JsonValue::Object(entries) => entries,
        _ => return None,
    };
    let mut i: usize = 0;
    assert(entries@.skip(0) =~= entries@);
    while i < entries.len() && !str_eq(entries[i].0.as_str(), "changed")
        invariant
            i <= entries@.len(),
            entry_value(entries@, "changed"@) == entry_value(entries@.skip(i as int), "changed"@),
        decreases entries@.len() - i,
    {
        assert(entries@.skip(i as int)[0] == entries@[i as int]);
        assert(entries@.skip(i as int).skip(1) =~= entries@.skip(i + 1));
        i = i + 1;
    }
    if i == entries.len() {
        return None;
    }
    assert(entries@.skip(i as int)[0] == entries@[i as int]);
    let changed = &entries[i].1;
    let rows = match changed {
        JsonValue::Array(rows) => rows,
        _ => return None,
    };
    let mut k: usize = 0;
    assert(rows@.skip(0) =~= rows@);
    while k < rows.len()
        invariant
            k <= rows@.len(),
            discount_change(*data) == first_discount_row(rows@.skip(k as int)),
        decreases rows@.len() - k,
    {
        assert(rows@.skip(k as int)[0] == rows@[k as int]);
        assert(rows@.skip(k as int).skip(1) =~= rows@.skip(k + 1));
        let change = read_discount_row(&rows[k]);
        if change.is_some() {
            return change;
        }
        k = k + 1;
    }
    None
}

/// The discount amount change (old, new) that a version's JSON data records.
pub fn parse_discount_change(version_data: &str) -> (r: Option<(String, String)>)
    ensures
        r.deep_view() == match parsed_json(version_data@) {
            Some(data) => discount_change(data),
            None => None,
        },
{
    match parse_json(version_data) {
        Some(data) => discount_change_of(&data),
        None => None,
    }
}

/// What the mismatch check reads of a transaction: its doctype, its name and
/// its discount amount as formatted.
#[derive(Debug, PartialEq, Eq)]
pub struct DiscountTransactionKey {
    pub doctype: String,
    pub name: String,
    pub formatted_discount_amount: String,
}

/// doctype, name, formatted discount amount
pub type TransactionView = (Seq<char>, Seq<char>, Seq<char>);

impl DeepView for DiscountTransactionKey {
    type V = TransactionView;

    open spec fn deep_view(&self) -> TransactionView {
        (self.doctype@, self.name@, self.formatted_discount_amount@)
    }
}

/// reference doctype, document name, data
pub type VersionView = (Seq<char>, Seq<char>, Seq<char>);

impl DeepView for VersionRecord {
    type V = VersionView;

    open spec fn deep_view(&self) -> VersionView {
        (self.ref_doctype@, self.docname@, self.data@)
    }
}

/// A transaction whose discount amount is the new amount of a recorded
/// discount change: the transaction's index, that amount and the old one.
#[derive(Debug, PartialEq, Eq)]
pub struct DiscountFinding {
    pub transaction: usize,
    pub actual_discount_amount: String,
    pub suspected_discount_amount: String,
}

pub type FindingView = (int, Seq<char>, Seq<char>);

impl DeepView for DiscountFinding {
    type V = FindingView;

    open spec fn deep_view(&self) -> FindingView {
        (self.transaction as int, self.actual_discount_amount@, self.suspected_discount_amount@)
    }
}

/// The index of the first transaction with the doctype and name.
pub open spec fn transaction_index(txs: Seq<TransactionView>, key: (Seq<char>, Seq<char>)) -> Option<int>
    decreases txs.len(),
{
    if txs.len() == 0 {
        None
    } else if txs[0].0 == key.0 && txs[0].1 == key.1 {
        Some(0)
    } else {
        match transaction_index(txs.skip(1), key) {
            Some(k) => Some(k + 1),
            None => None,
        }
    }
}

proof fn lemma_transaction_index(txs: Seq<TransactionView>, key: (Seq<char>, Seq<char>))
    ensures
        transaction_index(txs, key) matches Some(k) ==> 0 <= k < txs.len() && txs[k].0 == key.0 && txs[k].1 == key.1,
    decreases txs.len(),
{
    if txs.len() > 0 {
        lemma_transaction_index(txs.skip(1), key);
    }
}

pub open spec fn version_key(v: VersionView) -> (Seq<char>, Seq<char>) {
    (v.0, v.1)
}

/// The documents that versions are recorded for and that are among the
/// transactions, each once, in the order of their first version.
pub open spec fn mismatch_keys(txs: Seq<TransactionView>, versions: Seq<VersionView>) -> Seq<(Seq<char>, Seq<char>)>
    decreases versions.len(),
{
    if versions.len() == 0 {
        Seq::empty()
    } else {
        let before = mismatch_keys(txs, versions.drop_last());
        let key = version_key(versions.last());
        if transaction_index(txs, key) is Some && !before.contains(key) { before.push(key) } else { before }
    }
}

/// A version whose data names the discount percentage ends the search for its
/// document.
pub open spec fn names_percentage(data: Seq<char>) -> bool {
    contains_text(data, "\"additional_discount_percentage\""@)
}

/// The finding for a document from its versions at `i` on, in order: none once
/// a version names the percentage; versions without a discount change are
/// passed over; the first change settles it, a finding when its new amount is
/// the transaction's amount.
pub open spec fn finding_from(txs: Seq<TransactionView>, versions: Seq<VersionView>,
    changes: Seq<Option<(Seq<char>, Seq<char>)>>, key: (Seq<char>, Seq<char>), i: int) -> Option<FindingView>
    decreases versions.len() - i,
{
    if i >= versions.len() || i < 0 {
        None
    } else if version_key(versions[i]) != key {
        finding_from(txs, versions, changes, key, i + 1)
    } else if names_percentage(versions[i].2) {
        None
    } else {
        match changes[i] {
            None => finding_from(txs, versions, changes, key, i + 1),
            Some((old, new)) => match transaction_index(txs, key) {
                Some(t) => if new == txs[t].2 { Some((t, new, old)) } else { None },
                None => None,
            },
        }
    }
}

/// The findings for the documents in order.
pub open spec fn findings_for(txs: Seq<TransactionView>, versions: Seq<VersionView>,
    changes: Seq<Option<(Seq<char>, Seq<char>)>>, keys: Seq<(Seq<char>, Seq<char>)>) -> Seq<FindingView>
    decreases keys.len(),
{
    if keys.len() == 0 {
        Seq::empty()
    } else {
        let before = findings_for(txs, versions, changes, keys.drop_last());
        match finding_from(txs, versions, changes, keys.last(), 0) {
            Some(f) => before.push(f),
            None => before,
        }
    }
}

pub open spec fn spec_mismatches(txs: Seq<TransactionView>, versions: Seq<VersionView>,
    changes: Seq<Option<(Seq<char>, Seq<char>)>>) -> Seq<FindingView>
{
    findings_for(txs, versions, changes, mismatch_keys(txs, versions))
}

fn find_transaction(txs: &[DiscountTransactionKey], doctype: &str, name: &str) -> (r: Option<usize>)
    ensures
        match (r, transaction_index(txs.deep_view(), (doctype@, name@))) {
            (Some(a), Some(b)) => a == b && a < txs@.len(),
            (None, None) => true,
            _ => false,
        },
{
    let ghost all = txs.deep_view();
    let ghost key = (doctype@, name@);
    let mut i: usize = 0;
    assert(all.skip(0) =~= all);
    while i < txs.len() && !(str_eq(txs[i].doctype.as_str(), doctype) && str_eq(txs[i].name.as_str(), name))
        invariant
            i <= all.len(),
            all == txs.deep_view(),
            key == (doctype@, name@),
            match transaction_index(all, key) {
                Some(j) => match transaction_index(all.skip(i as int), key) { Some(j2) => j == j2 + i, None => false },
                None => transaction_index(all.skip(i as int), key) is None,
            },
        decreases all.len() - i,
    {
        assert(all.skip(i as int)[0] == all[i as int]);
        assert(all[i as int] == txs[i as int].deep_view());
        assert(all.skip(i as int).skip(1) =~= all.skip(i + 1));
        i = i + 1;
    }
    if i == txs.len() {
        None
    } else {
        assert(all.skip(i as int)[0] == all[i as int]);
        assert(all[i as int] == txs[i as int].deep_view());
        Some(i)
    }
}

fn holds_key(keys: &Vec<(String, String)>, doctype: &str, name: &str) -> (r: bool)
    ensures
        r == keys.deep_view().contains((doctype@, name@)),
{
    let mut i: usize = 0;
    while i < keys.len()
        invariant
            i <= keys@.len(),
            forall|j: int| 0 <= j < i ==> #[trigger] keys.deep_view()[j] != (doctype@, name@),
        decreases keys@.len() - i,
    {
        if str_eq(keys[i].0.as_str(), doctype) && str_eq(keys[i].1.as_str(), name) {
            assert(keys.deep_view()[i as int] == (doctype@, name@));
            return true;
        }
        i = i + 1;
    }
    false
}

fn collect_keys(txs: &[DiscountTransactionKey], versions: &[VersionRecord]) -> (r: Vec<(String, String)>)
    ensures
        r.deep_view() == mismatch_keys(txs.deep_view(), versions.deep_view()),
{
    let ghost all = versions.deep_view();
    let mut keys: Vec<(String, String)> = Vec::new();
    let mut i: usize = 0;
    while i < versions.len()
        invariant
            i <= all.len(),
            all == versions.deep_view(),
            keys.deep_view() == mismatch_keys(txs.deep_view(), all.subrange(0, i as int)),
        decreases all.len() - i,
    {
        assert(all.subrange(0, i + 1).drop_last() =~= all.subrange(0, i as int));
        assert(all.subrange(0, i + 1).last() == all[i as int]);
        let v = &versions[i];
        let known = find_transaction(txs, v.ref_doctype.as_str(), v.docname.as_str()).is_some();
        if known && !holds_key(&keys, v.ref_doctype.as_str(), v.docname.as_str()) {
            let ghost before = keys.deep_view();
            keys.push((v.ref_doctype.clone(), v.docname.clone()));
            assert(keys.deep_view() =~= before.push(version_key(all[i as int])));
        }
        i = i + 1;
    }
    assert(all.subrange(0, i as int) =~= all);
    keys
}

fn finding_for_key(txs: &[DiscountTransactionKey], versions: &[VersionRecord], changes: &[Option<(String, String)>],
    doctype: &str, name: &str) -> (r: Option<DiscountFinding>)
    requires
        changes@.len() == versions@.len(),
    ensures
        r.deep_view() == finding_from(txs.deep_view(), versions.deep_view(), changes.deep_view(), (doctype@, name@), 0),
{
    let ghost tv = txs.deep_view();
    let ghost vv = versions.deep_view();
    let ghost cv = changes.deep_view();
    let ghost key = (doctype@, name@);
    let mut i: usize = 0;
    while i < versions.len()
        invariant
            i <= vv.len(),
            vv == versions.deep_view(),
            tv == txs.deep_view(),
            cv == changes.deep_view(),
            cv.len() == vv.len(),
            key == (doctype@, name@),
            finding_from(tv, vv, cv, key, 0) == finding_from(tv, vv, cv, key, i as int),
        decreases vv.len() - i,
    {
        let v = &versions[i];
        assert(vv[i as int] == v.deep_view());
        assert(cv[i as int] == changes[i as int].deep_view());
        if !(str_eq(v.ref_doctype.as_str(), doctype) && str_eq(v.docname.as_str(), name)) {
            i = i + 1;
            continue;
        }
        if contains_str(v.data.as_str(), "\"additional_discount_percentage\"") {
            return None;
        }
        match &changes[i] {
            None => {
                i = i + 1;
            },
            Some((old, new)) => {
                proof { lemma_transaction_index(tv, key); }
                let t = match find_transaction(txs, doctype, name) {
                    Some(t) => t,
                    None => return None,
                };
                if !str_eq(new.as_str(), txs[t].formatted_discount_amount.as_str()) {
                    return None;
                }
                return Some(DiscountFinding {
                    transaction: t,
                    actual_discount_amount: new.clone(),
                    suspected_discount_amount: old.clone(),
                });
            },
        }
    }
    None
}

/// The transactions whose discount amount is the new amount of the first
/// discount change recorded for them, given the change that each version's
/// data records (`None` where it records none).
pub fn select_mismatches(transactions: &[DiscountTransactionKey], versions: &[VersionRecord],
    changes: &[Option<(String, String)>]) -> (r: Vec<DiscountFinding>)
    requires
        changes@.len() == versions@.len(),
    ensures
        r.deep_view() == spec_mismatches(transactions.deep_view(), versions.deep_view(), changes.deep_view()),
{
    let keys = collect_keys(transactions, versions);
    let ghost kv = keys.deep_view();
    let mut out: Vec<DiscountFinding> = Vec::new();
    let mut i: usize = 0;
    while i < keys.len()
        invariant
            i <= kv.len(),
            kv == keys.deep_view(),
            kv == mismatch_keys(transactions.deep_view(), versions.deep_view()),
            changes@.len() == versions@.len(),
            out.deep_view() == findings_for(transactions.deep_view(), versions.deep_view(), changes.deep_view(),
                kv.subrange(0, i as int)),
        decreases kv.len() - i,
    {
        assert(kv.subrange(0, i + 1).drop_last() =~= kv.subrange(0, i as int));
        assert(kv.subrange(0, i + 1).last() == kv[i as int]);
        match finding_for_key(transactions, versions, changes, keys[i].0.as_str(), keys[i].1.as_str()) {
            Some(f) => {
                let ghost before = out.deep_view();
                out.push(f);
                assert(out.deep_view() =~= before.push(f.deep_view()));
            },
            None => {},
        }
        i = i + 1;
    }
    assert(kv.subrange(0, i as int) =~= kv);
    out
}

/// The change each version's data records, as `parse_discount_change` reads it.
pub open spec fn recorded_change(data: Seq<char>) -> Option<(Seq<char>, Seq<char>)> {
    match parsed_json(data) {
        Some(d) => discount_change(d),
        None => None,
    }
}

pub open spec fn recorded_changes(versions: Seq<VersionView>) -> Seq<Option<(Seq<char>, Seq<char>)>> {
    Seq::new(versions.len(), |i: int| recorded_change(versions[i].2))
}

/// The transactions whose discount amount is the new amount of the first
/// discount change recorded in their versions' data.
pub fn find_mismatches(transactions: &[DiscountTransactionKey], versions: &[VersionRecord]) -> (r: Vec<DiscountFinding>)
    ensures
        r.deep_view() == spec_mismatches(transactions.deep_view(), versions.deep_view(), recorded_changes(versions.deep_view())),
{
    let ghost vv = versions.deep_view();
    let mut changes: Vec<Option<(String, String)>> = Vec::new();
    let mut i: usize = 0;
    while i < versions.len()
        invariant
            i <= vv.len(),
            vv == versions.deep_view(),
            changes.deep_view() == recorded_changes(vv).subrange(0, i as int),
        decreases vv.len() - i,
    {
        let ghost before = changes.deep_view();
        changes.push(parse_discount_change(versions[i].data.as_str()));
        assert(changes.deep_view() =~= before.push(recorded_change(vv[i as int].2)));
        i = i + 1;
        assert(changes.deep_view() =~= recorded_changes(vv).subrange(0, i as int));
    }
    assert(recorded_changes(vv).subrange(0, i as int) =~= recorded_changes(vv));
    select_mismatches(transactions, versions, changes.as_slice())
}

} // verus!
