//! Point-of-sale register: the filter checks, the grouping field, the query
//! shape and conditions, and the columns with the grouped one first.
use vstd::prelude::*;
use crate::text::{join_strings, joined, lex_less, str_eq, str_less};

verus! {

#[derive(Debug, PartialEq, Eq)]
pub enum PosRegisterError {
    MissingCompany,
    MissingDateRange,
    FromDateAfterToDate,
    GroupedByFilteredField(&'static str),
}

#[derive(Debug, Default, PartialEq, Eq)]
pub struct PosRegisterFilters {
    pub company: Option<String>,
    pub from_date: Option<String>,
    pub to_date: Option<String>,
    pub pos_profile: Option<String>,
    pub owner: Option<String>,
    pub customer: Option<String>,
    pub is_return: Option<bool>,
    pub mode_of_payment: Option<String>,
    pub group_by: Option<String>,
}

#[derive(Clone, Copy, Debug)]
pub struct ReportColumn {
    pub label: &'static str,
    pub fieldname: &'static str,
    pub fieldtype: &'static str,
    pub options: &'static str,
    pub width: u16,
}

/// label, field name, field type, options, width
pub type ColumnView = (Seq<char>, Seq<char>, Seq<char>, Seq<char>, u16);

impl DeepView for ReportColumn {
    type V = ColumnView;

    open spec fn deep_view(&self) -> ColumnView {
        (self.label@, self.fieldname@, self.fieldtype@, self.options@, self.width)
    }
}

impl ReportColumn {
    pub fn link(label: &'static str, fieldname: &'static str, options: &'static str, width: u16) -> (r: Self)
        ensures
            r.deep_view() == (label@, fieldname@, "Link"@, options@, width),
    {
        ReportColumn { label, fieldname, fieldtype: "Link", options, width }
    }

    pub fn date(label: &'static str, fieldname: &'static str, width: u16) -> (r: Self)
        ensures
            r.deep_view() == (label@, fieldname@, "Date"@, ""@, width),
    {
        ReportColumn { label, fieldname, fieldtype: "Date", options: "", width }
    }

    pub fn data(label: &'static str, fieldname: &'static str, width: u16) -> (r: Self)
        ensures
            r.deep_view() == (label@, fieldname@, "Data"@, ""@, width),
    {
        ReportColumn { label, fieldname, fieldtype: "Data", options: "", width }
    }

    pub fn currency(label: &'static str, fieldname: &'static str, options: &'static str, width: u16) -> (r: Self)
        ensures
            r.deep_view() == (label@, fieldname@, "Currency"@, options@, width),
    {
        ReportColumn { label, fieldname, fieldtype: "Currency", options, width }
    }
}

pub open spec fn spec_columns() -> Seq<ColumnView> {
    seq![
        ("Posting Date"@, "posting_date"@, "Date"@, ""@, 90u16),
        ("POS Invoice"@, "pos_invoice"@, "Link"@, "POS Invoice"@, 120u16),
        ("Customer"@, "customer"@, "Link"@, "Customer"@, 120u16),
        ("POS Profile"@, "pos_profile"@, "Link"@, "POS Profile"@, 160u16),
        ("Cashier"@, "owner"@, "Link"@, "User"@, 140u16),
        ("Grand Total"@, "grand_total"@, "Currency"@, "Company:company:default_currency"@, 120u16),
        ("Paid Amount"@, "paid_amount"@, "Currency"@, "Company:company:default_currency"@, 120u16),
        ("Payment Method"@, "mode_of_payment"@, "Data"@, ""@, 150u16),
        ("Is Return"@, "is_return"@, "Data"@, ""@, 80u16),
        ("Company"@, "company"@, "Link"@, "Company"@, 120u16),
    ]
}

pub fn get_columns() -> (r: Vec<ReportColumn>)
    ensures
        r.deep_view() == spec_columns(),
{
    let r = vec![
        ReportColumn::date("Posting Date", "posting_date", 90),
        ReportColumn::link("POS Invoice", "pos_invoice", "POS Invoice", 120),
        ReportColumn::link("Customer", "customer", "Customer", 120),
        ReportColumn::link("POS Profile", "pos_profile", "POS Profile", 160),
        ReportColumn::link("Cashier", "owner", "User", 140),
        ReportColumn::currency("Grand Total", "grand_total", "Company:company:default_currency", 120),
        ReportColumn::currency("Paid Amount", "paid_amount", "Company:company:default_currency", 120),
        ReportColumn::data("Payment Method", "mode_of_payment", 150),
        ReportColumn::data("Is Return", "is_return", 80),
        ReportColumn::link("Company", "company", "Company", 120),
    ];
    assert(r.deep_view() =~= spec_columns());
    r
}

/// The grouping names whose field is also filtered.
pub open spec fn grouped_and_filtered(f: PosRegisterFilters) -> Option<Seq<char>> {
    match f.group_by {
        Some(g) => {
            if g@ == "POS Profile"@ && f.pos_profile is Some { Some("POS Profile"@) }
            else if g@ == "Customer"@ && f.customer is Some { Some("Customer"@) }
            else if g@ == "Cashier"@ && f.owner is Some { Some("Cashier"@) }
            else if g@ == "Payment Method"@ && f.mode_of_payment is Some { Some("Payment Method"@) }
            else { None }
        },
        None => None,
    }
}

pub fn validate_filters(filters: &PosRegisterFilters) -> (r: Result<(), PosRegisterError>)
    ensures
        filters.company is None ==> r matches Err(PosRegisterError::MissingCompany),
        filters.company is Some && filters.from_date is None && filters.to_date is None
            ==> r matches Err(PosRegisterError::MissingDateRange),
        filters.company is Some && !(filters.from_date is None && filters.to_date is None) ==> {
            let after = (filters.from_date matches Some(a) && (filters.to_date matches Some(b) && lex_less(b@, a@)));
            &&& after ==> (r matches Err(PosRegisterError::FromDateAfterToDate))
            &&& !after ==> match (r, grouped_and_filtered(*filters)) {
                (Ok(_), None) => true,
                (Err(PosRegisterError::GroupedByFilteredField(n)), Some(m)) => n@ == m,
                _ => false,
            }
        },
{
    if filters.company.is_none() {
        return Err(PosRegisterError::MissingCompany);
    }
    if filters.from_date.is_none() && filters.to_date.is_none() {
        return Err(PosRegisterError::MissingDateRange);
    }
    match (&filters.from_date, &filters.to_date) {
        (Some(a), Some(b)) => {
            if str_less(b.as_str(), a.as_str()) {
                return Err(PosRegisterError::FromDateAfterToDate);
            }
        },
        _ => {},
    }
    match &filters.group_by {
        Some(g) => {
            let g = g.as_str();
            if str_eq(g, "POS Profile") && filters.pos_profile.is_some() {
                Err(PosRegisterError::GroupedByFilteredField("POS Profile"))
            } else if str_eq(g, "Customer") && filters.customer.is_some() {
                Err(PosRegisterError::GroupedByFilteredField("Customer"))
            } else if str_eq(g, "Cashier") && filters.owner.is_some() {
                Err(PosRegisterError::GroupedByFilteredField("Cashier"))
            } else if str_eq(g, "Payment Method") && filters.mode_of_payment.is_some() {
                Err(PosRegisterError::GroupedByFilteredField("Payment Method"))
            } else {
                Ok(())
            }
        },
        None => Ok(()),
    }
}

pub open spec fn when(cond: bool, items: Seq<Seq<char>>) -> Seq<Seq<char>> {
    if cond { items } else { Seq::empty() }
}

/// Company and dates, then one condition per further filter that is set.
pub open spec fn spec_conditions(f: PosRegisterFilters) -> Seq<Seq<char>> {
    seq!["company = %(company)s"@, "posting_date >= %(from_date)s"@, "posting_date <= %(to_date)s"@]
    + when(f.pos_profile is Some, seq!["pos_profile = %(pos_profile)s"@])
    + when(f.owner is Some, seq!["owner = %(owner)s"@])
    + when(f.customer is Some, seq!["customer = %(customer)s"@])
    + when(f.is_return is Some, seq!["is_return = %(is_return)s"@])
    + when(f.mode_of_payment is Some, seq!["exists Sales Invoice Payment matching mode_of_payment"@])
}

pub fn get_conditions(filters: &PosRegisterFilters) -> (r: Vec<&'static str>)
    ensures
        r.deep_view() == spec_conditions(*filters),
{
    let mut c = vec!["company = %(company)s", "posting_date >= %(from_date)s", "posting_date <= %(to_date)s"];
    let ghost s0 = c.deep_view();
    if filters.pos_profile.is_some() { c.push("pos_profile = %(pos_profile)s"); }
    let ghost s1 = c.deep_view();
    assert(s1 =~= s0 + when(filters.pos_profile is Some, seq!["pos_profile = %(pos_profile)s"@]));
    if filters.owner.is_some() { c.push("owner = %(owner)s"); }
    let ghost s2 = c.deep_view();
    assert(s2 =~= s1 + when(filters.owner is Some, seq!["owner = %(owner)s"@]));
    if filters.customer.is_some() { c.push("customer = %(customer)s"); }
    let ghost s3 = c.deep_view();
    assert(s3 =~= s2 + when(filters.customer is Some, seq!["customer = %(customer)s"@]));
    if filters.is_return.is_some() { c.push("is_return = %(is_return)s"); }
    let ghost s4 = c.deep_view();
    assert(s4 =~= s3 + when(filters.is_return is Some, seq!["is_return = %(is_return)s"@]));
    if filters.mode_of_payment.is_some() { c.push("exists Sales Invoice Payment matching mode_of_payment"); }
    assert(c.deep_view() =~= spec_conditions(*filters));
    c
}

/// The entry field a grouping name groups by; empty when none.
pub open spec fn group_field(group_by: Option<Seq<char>>) -> Seq<char> {
    match group_by {
        Some(g) => {
            if g == "POS Profile"@ { "pos_profile"@ }
            else if g == "Cashier"@ { "owner"@ }
            else if g == "Customer"@ { "customer"@ }
            else if g == "Payment Method"@ { "mode_of_payment"@ }
            else { ""@ }
        },
        None => ""@,
    }
}

pub fn get_group_by_field(group_by: Option<&str>) -> (r: &'static str)
    ensures
        r@ == group_field(match group_by { Some(g) => Some(g@), None => None }),
{
    match group_by {
        Some(g) => {
            if str_eq(g, "POS Profile") { "pos_profile" }
            else if str_eq(g, "Cashier") { "owner" }
            else if str_eq(g, "Customer") { "customer" }
            else if str_eq(g, "Payment Method") { "mode_of_payment" }
            else { "" }
        },
        None => "",
    }
}

/// The selected fields, payment join table and condition, and paid-amount
/// expression of the entries query for a grouping field.
pub open spec fn spec_query_shape(field: Seq<char>) -> (Seq<char>, Seq<char>, Seq<char>, Seq<char>) {
    if field == "mode_of_payment"@ {
        ("p.posting_date, sip.mode_of_payment"@, "Sales Invoice Payment"@, "sip.parent = p.name AND adjusted base_amount != 0"@,
            "sip.base_amount - IF(sip.type='Cash', p.change_amount, 0)"@)
    } else if field == ""@ {
        ("p.posting_date"@, ""@, ""@, ""@)
    } else {
        (if field == "customer"@ { "p.posting_date, p.customer"@ } else if field == "owner"@ { "p.posting_date, p.owner"@ }
            else { "p.posting_date, p.pos_profile"@ }, ""@, ""@, "p.base_paid_amount - p.change_amount"@)
    }
}

pub fn get_pos_entries_query_plan(filters: &PosRegisterFilters) -> (r: (&'static str, &'static str, &'static str, &'static str))
    ensures
        (r.0@, r.1@, r.2@, r.3@) == spec_query_shape(group_field(match filters.group_by { Some(g) => Some(g@), None => None })),
{
    let field = get_group_by_field(match &filters.group_by { Some(g) => Some(g.as_str()), None => None });
    if str_eq(field, "mode_of_payment") {
        ("p.posting_date, sip.mode_of_payment", "Sales Invoice Payment", "sip.parent = p.name AND adjusted base_amount != 0",
            "sip.base_amount - IF(sip.type='Cash', p.change_amount, 0)")
    } else if str_eq(field, "") {
        ("p.posting_date", "", "", "")
    } else {
        (if str_eq(field, "customer") { "p.posting_date, p.customer" } else if str_eq(field, "owner") { "p.posting_date, p.owner" }
            else { "p.posting_date, p.pos_profile" }, "", "", "p.base_paid_amount - p.change_amount")
    }
}

/// The columns with the first one of the grouping field moved to the front.
pub open spec fn grouped_first(columns: Seq<ColumnView>, field: Seq<char>) -> Seq<ColumnView> {
    if exists|i: int| 0 <= i < columns.len() && #[trigger] columns[i].1 == field {
        let i = choose|i: int| 0 <= i < columns.len() && #[trigger] columns[i].1 == field
            && forall|j: int| 0 <= j < i ==> #[trigger] columns[j].1 != field;
        seq![columns[i]] + columns.subrange(0, i) + columns.subrange(i + 1, columns.len() as int)
    } else {
        columns
    }
}

/// Moves the first column of the grouping field to the front, as the
/// register does when it groups.
pub fn move_group_column_first(columns: &mut Vec<ReportColumn>, group_by_field: &str)
    ensures
        final(columns).deep_view() == grouped_first(old(columns).deep_view(), group_by_field@),
{
    let ghost cols = columns.deep_view();
    let mut i: usize = 0;
    while i < columns.len() && !str_eq(columns[i].fieldname, group_by_field)
        invariant
            i <= columns@.len(),
            cols == columns.deep_view(),
            forall|j: int| 0 <= j < i ==> #[trigger] cols[j].1 != group_by_field@,
        decreases columns@.len() - i,
    {
        i = i + 1;
    }
    if i < columns.len() {
        let c = columns.remove(i);
        columns.insert(0, c);
        assert(cols[i as int].1 == group_by_field@);
        let ghost k = choose|k: int| 0 <= k < cols.len() && #[trigger] cols[k].1 == group_by_field@
            && forall|j: int| 0 <= j < k ==> #[trigger] cols[j].1 != group_by_field@;
        assert(k == i) by {
            if k < i { assert(cols[k].1 != group_by_field@); }
            if k > i { assert(cols[i as int].1 != group_by_field@); }
        }
        assert(columns.deep_view() =~= seq![cols[i as int]] + cols.subrange(0, i as int) + cols.subrange(i + 1, cols.len() as int));
    } else {
        assert(!exists|j: int| 0 <= j < cols.len() && #[trigger] cols[j].1 == group_by_field@);
    }
}

/// The first entry of the list for the invoice.
pub open spec fn payments_for(modes: Seq<(Seq<char>, Seq<Seq<char>>)>, invoice: Seq<char>) -> Option<Seq<Seq<char>>>
    decreases modes.len(),
{
    if modes.len() == 0 {
        None
    } else if modes[0].0 == invoice {
        Some(modes[0].1)
    } else {
        payments_for(modes.skip(1), invoice)
    }
}

/// The modes of payment of an invoice, joined by commas, where the list has
/// an entry for it.
pub fn mode_of_payment_text(invoice: &str, mode_of_payments: &[(String, Vec<String>)]) -> (r: Option<String>)
    ensures
        r.deep_view() == match payments_for(mode_of_payments.deep_view(), invoice@) {
            Some(p) => Some(joined(p, ", "@)),
            None => None,
        },
{
    let ghost all = mode_of_payments.deep_view();
    let mut i: usize = 0;
    assert(all.skip(0) =~= all);
    while i < mode_of_payments.len()
        invariant
            i <= all.len(),
            all == mode_of_payments.deep_view(),
            payments_for(all, invoice@) == payments_for(all.skip(i as int), invoice@),
        decreases all.len() - i,
    {
        assert(all.skip(i as int)[0] == all[i as int]);
        assert(all[i as int] == mode_of_payments@[i as int].deep_view());
        if str_eq(mode_of_payments[i].0.as_str(), invoice) {
            return Some(join_strings(&mode_of_payments[i].1, ", "));
        }
        assert(all.skip(i as int).skip(1) =~= all.skip(i + 1));
        i = i + 1;
    }
    None
}

/// What setting the modes of payment reads and writes of a register entry.
#[derive(Debug, PartialEq, Eq)]
pub struct PosPaymentEntry {
    pub pos_invoice: String,
    pub mode_of_payment: Option<String>,
}

/// Each entry whose invoice the list has gets that invoice's modes of
/// payment, joined by commas; the others keep theirs.
pub fn concat_mode_of_payments(pos_entries: &mut Vec<PosPaymentEntry>, mode_of_payments: &[(String, Vec<String>)])
    ensures
        final(pos_entries)@.len() == old(pos_entries)@.len(),
        forall|i: int| 0 <= i < old(pos_entries)@.len() ==> {
            let (a, b) = (#[trigger] final(pos_entries)@[i], old(pos_entries)@[i]);
            &&& a.pos_invoice == b.pos_invoice
            &&& a.mode_of_payment.deep_view() == match payments_for(mode_of_payments.deep_view(), b.pos_invoice@) {
                Some(p) => Some(joined(p, ", "@)),
                None => b.mode_of_payment.deep_view(),
            }
        },
{
    let ghost before = pos_entries@;
    let mut i: usize = 0;
    while i < pos_entries.len()
        invariant
            i <= pos_entries@.len(),
            pos_entries@.len() == before.len(),
            forall|q: int| 0 <= q < before.len() ==> {
                let (a, b) = (#[trigger] pos_entries@[q], before[q]);
                &&& a.pos_invoice == b.pos_invoice
                &&& a.mode_of_payment.deep_view() == if q < i {
                    match payments_for(mode_of_payments.deep_view(), b.pos_invoice@) {
                        Some(p) => Some(joined(p, ", "@)),
                        None => b.mode_of_payment.deep_view(),
                    }
                } else {
                    b.mode_of_payment.deep_view()
                }
            },
        decreases pos_entries@.len() - i,
    {
        let found = mode_of_payment_text(pos_entries[i].pos_invoice.as_str(), mode_of_payments);
        if let Some(text) = found {
            pos_entries[i].mode_of_payment = Some(text);
        }
        i = i + 1;
    }
}


/// What grouping reads of a register entry.
#[derive(Debug, PartialEq, Eq)]
pub struct PosGroupKeys {
    pub pos_profile: String,
    pub owner: String,
    pub customer: String,
    pub mode_of_payment: Option<String>,
}

/// The value of the grouping field of an entry: its profile, owner, customer
/// or mode of payment (empty where it has none), and empty for any other
/// field.
pub open spec fn spec_group_value(keys: PosGroupKeys, field: Seq<char>) -> Seq<char> {
    if field == "pos_profile"@ {
        keys.pos_profile@
    } else if field == "owner"@ {
        keys.owner@
    } else if field == "customer"@ {
        keys.customer@
    } else if field == "mode_of_payment"@ {
        match keys.mode_of_payment {
            Some(m) => m@,
            None => Seq::empty(),
        }
    } else {
        Seq::empty()
    }
}

/// The value of the grouping field of an entry (see `spec_group_value`).
pub fn group_value(keys: &PosGroupKeys, group_by_field: &str) -> (r: String)
    ensures
        r@ == spec_group_value(*keys, group_by_field@),
{
    if str_eq(group_by_field, "pos_profile") {
        keys.pos_profile.clone()
    } else if str_eq(group_by_field, "owner") {
        keys.owner.clone()
    } else if str_eq(group_by_field, "customer") {
        keys.customer.clone()
    } else if str_eq(group_by_field, "mode_of_payment") {
        match &keys.mode_of_payment {
            Some(m) => m.clone(),
            None => String::new(),
        }
    } else {
        String::new()
    }
}

/// A row of the grouped register, named by the entries it comes from.
#[derive(Debug, PartialEq, Eq, Clone, Copy)]
pub enum PosStep {
    /// This entry's row.
    Row(usize),
    /// The subtotal of the group whose first entry this is, then a blank row.
    Subtotal(usize),
}

/// Entry `i` is the first with its group value.
pub open spec fn opens_group(values: Seq<Seq<char>>, i: int) -> bool {
    forall|j: int| 0 <= j < i ==> #[trigger] values[j] != values[i]
}

/// The rows of the entries, among the first `upto`, whose group value is `v`.
pub open spec fn member_rows(values: Seq<Seq<char>>, v: Seq<char>, upto: int) -> Seq<PosStep>
    decreases upto,
{
    if upto <= 0 {
        Seq::empty()
    } else {
        member_rows(values, v, upto - 1) + if values[upto - 1] == v {
            seq![PosStep::Row((upto - 1) as usize)]
        } else {
            Seq::empty()
        }
    }
}

/// The grouped register over the groups that the first `upto` entries open:
/// each group, in the order its first entry comes, lists its entries in
/// their order, then its subtotal.
pub open spec fn pos_group_steps(values: Seq<Seq<char>>, upto: int) -> Seq<PosStep>
    decreases upto,
{
    if upto <= 0 {
        Seq::empty()
    } else {
        pos_group_steps(values, upto - 1) + if opens_group(values, upto - 1) {
            member_rows(values, values[upto - 1], values.len() as int) + seq![PosStep::Subtotal((upto - 1) as usize)]
        } else {
            Seq::empty()
        }
    }
}

/// The rows of the register grouped by the entries' group values.
pub fn group_entries(group_values: &[String]) -> (r: Vec<PosStep>)
    ensures
        r@ == pos_group_steps(group_values.deep_view(), group_values.len() as int),
{
    let ghost vs = group_values.deep_view();
    let mut out: Vec<PosStep> = Vec::new();
    let mut i: usize = 0;
    while i < group_values.len()
        invariant
            i <= group_values.len(),
            vs == group_values.deep_view(),
            out@ == pos_group_steps(vs, i as int),
        decreases group_values.len() - i,
    {
        assert(vs[i as int] == group_values@[i as int]@);
        let mut first = true;
        let mut j: usize = 0;
        while j < i
            invariant
                j <= i < group_values.len(),
                vs == group_values.deep_view(),
                first <==> forall|x: int| 0 <= x < j ==> #[trigger] vs[x] != vs[i as int],
            decreases i - j,
        {
            assert(vs[j as int] == group_values@[j as int]@);
            if str_eq(group_values[j].as_str(), group_values[i].as_str()) {
                first = false;
            }
            j = j + 1;
        }
        if first {
            let ghost head = out@;
            let mut r: usize = 0;
            while r < group_values.len()
                invariant
                    r <= group_values.len(),
                    i < group_values.len(),
                    vs == group_values.deep_view(),
                    out@ == head + member_rows(vs, vs[i as int], r as int),
                decreases group_values.len() - r,
            {
                assert(vs[r as int] == group_values@[r as int]@);
                if str_eq(group_values[r].as_str(), group_values[i].as_str()) {
                    out.push(PosStep::Row(r));
                }
                assert(out@ =~= head + member_rows(vs, vs[i as int], r + 1));
                r = r + 1;
            }
            out.push(PosStep::Subtotal(i));
        }
        assert(out@ =~= pos_group_steps(vs, i + 1));
        i = i + 1;
    }
    out
}

} // verus!
