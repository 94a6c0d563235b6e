//! Accounts receivable / payable report: the report state that the filters
//! and settings set up, and the column layout with its ageing buckets.
use vstd::prelude::*;
use crate::text::{
    trim_underscores,
    digit_fields, split_digit_fields,
    ascii_lower, char_is_ascii_alphanumeric, is_ascii_alphanumeric, to_ascii_lower,
    all_digits, char_is_whitespace, chars_of, int_text, i64_text, usize_text, is_whitespace, owned, parse_i32,
    parse_i32_spec, push_char, split_char, split_on, str_eq, trim, trimmed,
};

verus! {

#[derive(Clone, Copy, Debug, PartialEq, Eq, Structural)]
pub enum AccountType {
    Receivable,
    Payable,
}

#[derive(Debug, PartialEq, Eq)]
pub struct AccountsReceivableArgs {
    pub account_type: AccountType,
    pub naming_by: [String; 2],
}

#[derive(Debug, PartialEq, Eq)]
pub struct ReceivablePayableFilters {
    pub company: Option<String>,
    pub report_date: Option<String>,
    pub calculate_ageing_with: Option<String>,
    pub range: Option<String>,
    pub account_type: Option<AccountType>,
    pub group_by_party: bool,
    pub in_party_currency: bool,
    pub party: Vec<String>,
    pub party_account: Option<String>,
    pub based_on_payment_terms: bool,
    pub show_future_payments: bool,
    pub show_delivery_notes: bool,
    pub show_sales_person: bool,
    pub show_remarks: bool,
    pub sales_partner: Option<String>,
}

#[derive(Debug, PartialEq, Eq)]
pub struct ReceivablePayableSettings {
    pub default_company: String,
    pub company_currency: String,
    pub currency_precision: u32,
    pub party_naming_by: String,
    pub ple_fetch_method: Option<String>,
}

#[derive(Debug, PartialEq, Eq)]
pub struct ReceivablePayableState {
    pub filters: ReceivablePayableFilters,
    pub default_company: String,
    pub age_as_on: String,
    pub ranges: Vec<String>,
    pub range_numbers: Vec<usize>,
    pub ple_fetch_method: String,
    pub company_currency: String,
    pub currency_precision: u32,
    pub dr_or_cr: &'static str,
    pub account_type: AccountType,
    pub party_type: Vec<&'static str>,
    pub skip_total_row: u8,
}

#[derive(Debug, PartialEq, Eq)]
pub struct ReceivablePayableRuntime {
    pub account_type: AccountType,
    pub party_naming_by: String,
    pub ranges: Vec<String>,
    pub range_numbers: Vec<usize>,
}

#[derive(Debug, PartialEq, Eq)]
pub struct ReportColumn {
    pub label: String,
    pub fieldname: String,
    pub fieldtype: &'static str,
    pub options: Option<&'static str>,
    pub width: u16,
}

/// label, field name, field type, options, width
pub type ColumnView = (Seq<char>, Seq<char>, Seq<char>, Option<Seq<char>>, u16);

impl DeepView for ReportColumn {
    type V = ColumnView;

    open spec fn deep_view(&self) -> ColumnView {
        (self.label@, self.fieldname@, self.fieldtype@, self.options.deep_view(), self.width)
    }
}

pub open spec fn column(label: Seq<char>, fieldname: Seq<char>, fieldtype: Seq<char>, options: Option<Seq<char>>, width: u16) -> ColumnView {
    (label, fieldname, fieldtype, options, width)
}

impl ReportColumn {
    pub fn data(label: &str, fieldname: &str, width: u16) -> (r: Self)
        ensures
            r.deep_view() == column(label@, fieldname@, "Data"@, None, width),
    {
        ReportColumn { label: owned(label), fieldname: owned(fieldname), fieldtype: "Data", options: None, width }
    }

    pub fn text(label: &str, fieldname: &str, width: u16) -> (r: Self)
        ensures
            r.deep_view() == column(label@, fieldname@, "Text"@, None, width),
    {
        ReportColumn { label: owned(label), fieldname: owned(fieldname), fieldtype: "Text", options: None, width }
    }

    pub fn date(label: &str, fieldname: &str) -> (r: Self)
        ensures
            r.deep_view() == column(label@, fieldname@, "Date"@, None, 90),
    {
        ReportColumn { label: owned(label), fieldname: owned(fieldname), fieldtype: "Date", options: None, width: 90 }
    }

    pub fn integer(label: &str, fieldname: &str, width: u16) -> (r: Self)
        ensures
            r.deep_view() == column(label@, fieldname@, "Int"@, None, width),
    {
        ReportColumn { label: owned(label), fieldname: owned(fieldname), fieldtype: "Int", options: None, width }
    }

    pub fn link(label: &str, fieldname: &str, options: &'static str, width: u16) -> (r: Self)
        ensures
            r.deep_view() == column(label@, fieldname@, "Link"@, Some(options@), width),
    {
        ReportColumn { label: owned(label), fieldname: owned(fieldname), fieldtype: "Link", options: Some(options), width }
    }

    pub fn dynamic_link(label: &str, fieldname: &str, options: &'static str, width: u16) -> (r: Self)
        ensures
            r.deep_view() == column(label@, fieldname@, "Dynamic Link"@, Some(options@), width),
    {
        ReportColumn {
            label: owned(label),
            fieldname: owned(fieldname),
            fieldtype: "Dynamic Link",
            options: Some(options),
            width,
        }
    }

    pub fn currency(label: &str, fieldname: &str, width: u16) -> (r: Self)
        ensures
            r.deep_view() == column(label@, fieldname@, "Currency"@, Some("currency"@), width),
    {
        ReportColumn {
            label: owned(label),
            fieldname: owned(fieldname),
            fieldtype: "Currency",
            options: Some("currency"),
            width,
        }
    }
}

pub fn accounts_receivable_args() -> (r: AccountsReceivableArgs)
    ensures
        r.account_type == AccountType::Receivable,
        r.naming_by@[0]@ == "Selling Settings"@,
        r.naming_by@[1]@ == "cust_master_name"@,
{
    AccountsReceivableArgs {
        account_type: AccountType::Receivable,
        naming_by: [owned("Selling Settings"), owned("cust_master_name")],
    }
}

fn copy_string_option(value: &Option<String>) -> (r: Option<String>)
    ensures
        r == *value,
{
    match value {
        Some(s) => Some(s.clone()),
        None => None,
    }
}

fn copy_strings(values: &Vec<String>) -> (r: Vec<String>)
    ensures
        r@ == values@,
{
    let r = values.clone();
    assert(r@ =~= values@);
    r
}

/// The same filter values.
pub open spec fn same_filters(a: ReceivablePayableFilters, b: ReceivablePayableFilters) -> bool {
    &&& a.company == b.company
    &&& a.report_date == b.report_date
    &&& a.calculate_ageing_with == b.calculate_ageing_with
    &&& a.range == b.range
    &&& a.account_type == b.account_type
    &&& a.group_by_party == b.group_by_party
    &&& a.in_party_currency == b.in_party_currency
    &&& a.party@ == b.party@
    &&& a.party_account == b.party_account
    &&& a.based_on_payment_terms == b.based_on_payment_terms
    &&& a.show_future_payments == b.show_future_payments
    &&& a.show_delivery_notes == b.show_delivery_notes
    &&& a.show_sales_person == b.show_sales_person
    &&& a.show_remarks == b.show_remarks
    &&& a.sales_partner == b.sales_partner
}

fn copy_filters(filters: &ReceivablePayableFilters) -> (r: ReceivablePayableFilters)
    ensures
        same_filters(r, *filters),
{
    ReceivablePayableFilters {
        company: copy_string_option(&filters.company),
        report_date: copy_string_option(&filters.report_date),
        calculate_ageing_with: copy_string_option(&filters.calculate_ageing_with),
        range: copy_string_option(&filters.range),
        account_type: filters.account_type,
        group_by_party: filters.group_by_party,
        in_party_currency: filters.in_party_currency,
        party: copy_strings(&filters.party),
        party_account: copy_string_option(&filters.party_account),
        based_on_payment_terms: filters.based_on_payment_terms,
        show_future_payments: filters.show_future_payments,
        show_delivery_notes: filters.show_delivery_notes,
        show_sales_person: filters.show_sales_person,
        show_remarks: filters.show_remarks,
        sales_partner: copy_string_option(&filters.sales_partner),
    }
}

/// The ageing ranges that a range filter such as "30, 60, 90, 120" names.
pub open spec fn parsed_ranges(range: Seq<char>) -> Seq<Seq<char>> {
    digit_fields(range, ',')
}

/// `1, 2, ..., n`.
pub open spec fn one_through(n: nat) -> Seq<usize> {
    Seq::new(n, |i: int| (i + 1) as usize)
}

pub open spec fn default_range() -> Seq<char> {
    "30, 60, 90, 120"@
}

impl ReceivablePayableState {
    /// The range filter the state uses: the given one, or the default buckets.
    pub open spec fn range_in_effect(filters: ReceivablePayableFilters) -> Seq<char> {
        match filters.range {
            Some(r) => r@,
            None => default_range(),
        }
    }

    pub fn new(filters: &ReceivablePayableFilters, settings: &ReceivablePayableSettings, today: &str) -> (r: Self)
        requires
            parsed_ranges(Self::range_in_effect(*filters)).len() + 1 <= usize::MAX,
        ensures
            r.filters.report_date matches Some(d) && d@ == match filters.report_date {
                Some(given) => given@,
                None => today@,
            },
            r.filters.range matches Some(g) && g@ == Self::range_in_effect(*filters),
            r.filters.company == filters.company,
            r.filters.calculate_ageing_with == filters.calculate_ageing_with,
            r.filters.account_type == filters.account_type,
            r.filters.group_by_party == filters.group_by_party,
            r.filters.in_party_currency == filters.in_party_currency,
            r.filters.party@ == filters.party@,
            r.filters.party_account == filters.party_account,
            r.filters.based_on_payment_terms == filters.based_on_payment_terms,
            r.filters.show_future_payments == filters.show_future_payments,
            r.filters.show_delivery_notes == filters.show_delivery_notes,
            r.filters.show_sales_person == filters.show_sales_person,
            r.filters.show_remarks == filters.show_remarks,
            r.filters.sales_partner == filters.sales_partner,
            r.default_company@ == settings.default_company@,
            r.age_as_on@ == match filters.calculate_ageing_with {
                None => today@,
                Some(w) => if w@ == "Today Date"@ {
                    today@
                } else {
                    match filters.report_date {
                        Some(given) => given@,
                        None => today@,
                    }
                },
            },
            r.ranges.deep_view() == parsed_ranges(Self::range_in_effect(*filters)),
            r.range_numbers@ == one_through((r.ranges@.len() + 1) as nat),
            r.ple_fetch_method@ == match settings.ple_fetch_method {
                Some(m) => m@,
                None => "Buffered Cursor"@,
            },
            r.company_currency@ == settings.company_currency@,
            r.currency_precision == settings.currency_precision,
            r.dr_or_cr@ == ""@,
            r.account_type == AccountType::Receivable,
            r.party_type@.len() == 0,
            r.skip_total_row == 0,
    {
        let mut f = copy_filters(filters);
        if f.report_date.is_none() {
            f.report_date = Some(owned(today));
        }
        if f.range.is_none() {
            f.range = Some(owned("30, 60, 90, 120"));
        }
        let report_date = match &f.report_date {
            Some(d) => d.clone(),
            None => owned(today),
        };
        let age_as_on = match &f.calculate_ageing_with {
            None => owned(today),
            Some(w) => if str_eq(w.as_str(), "Today Date") {
                owned(today)
            } else {
                report_date
            },
        };
        let ranges = match &f.range {
            Some(range) => split_digit_fields(range.as_str(), ','),
            None => Vec::new(),
        };
        let mut range_numbers: Vec<usize> = Vec::new();
        let count = ranges.len() + 1;
        let mut k: usize = 0;
        while k < count
            invariant
                k <= count,
                count == ranges@.len() + 1,
                range_numbers@ == one_through(k as nat),
            decreases count - k,
        {
            range_numbers.push(k + 1);
            k = k + 1;
            assert(range_numbers@ =~= one_through(k as nat));
        }
        let ple_fetch_method = match &settings.ple_fetch_method {
            Some(m) => m.clone(),
            None => owned("Buffered Cursor"),
        };
        ReceivablePayableState {
            filters: f,
            default_company: settings.default_company.clone(),
            age_as_on,
            ranges,
            range_numbers,
            ple_fetch_method,
            company_currency: settings.company_currency.clone(),
            currency_precision: settings.currency_precision,
            dr_or_cr: "",
            account_type: AccountType::Receivable,
            party_type: Vec::new(),
            skip_total_row: 0,
        }
    }
}


impl ReceivablePayableState {
    pub fn with_defaults(self) -> (r: Self)
        ensures
            r.filters.company == match self.filters.company {
                Some(c) => Some(c),
                None => Some(self.default_company),
            },
            r.account_type == match self.filters.account_type {
                Some(t) => t,
                None => AccountType::Receivable,
            },
            r.dr_or_cr@ == if r.account_type == AccountType::Receivable { "debit"@ } else { "credit"@ },
            r.party_type.deep_view() == if r.account_type == AccountType::Receivable {
                seq!["Customer"@]
            } else {
                seq!["Supplier"@]
            },
            r.skip_total_row == if self.filters.in_party_currency {
                if self.filters.party@.len() == 1 { 0u8 } else { 1u8 }
            } else if self.filters.group_by_party {
                1u8
            } else {
                0u8
            },
            same_filters_except_company(r.filters, self.filters),
            r.default_company == self.default_company,
            r.age_as_on == self.age_as_on,
            r.ranges == self.ranges,
            r.range_numbers == self.range_numbers,
            r.ple_fetch_method == self.ple_fetch_method,
            r.company_currency == self.company_currency,
            r.currency_precision == self.currency_precision,
    {
        let mut state = self;
        if state.filters.company.is_none() {
            state.filters.company = Some(state.default_company.clone());
        }
        state.account_type = match state.filters.account_type {
            Some(t) => t,
            None => AccountType::Receivable,
        };
        state.dr_or_cr = match state.account_type {
            AccountType::Receivable => "debit",
            AccountType::Payable => "credit",
        };
        state.party_type = match state.account_type {
            AccountType::Receivable => vec!["Customer"],
            AccountType::Payable => vec!["Supplier"],
        };
        assert(state.party_type.deep_view() =~= if state.account_type == AccountType::Receivable {
            seq!["Customer"@]
        } else {
            seq!["Supplier"@]
        });
        state.skip_total_row = 0;
        if state.filters.group_by_party {
            state.skip_total_row = 1;
        }
        if state.filters.in_party_currency {
            state.skip_total_row = if state.filters.party.len() == 1 { 0 } else { 1 };
        }
        state
    }
}

/// Every filter but the company is the same.
pub open spec fn same_filters_except_company(a: ReceivablePayableFilters, b: ReceivablePayableFilters) -> bool {
    &&& a.report_date == b.report_date
    &&& a.calculate_ageing_with == b.calculate_ageing_with
    &&& a.range == b.range
    &&& a.account_type == b.account_type
    &&& a.group_by_party == b.group_by_party
    &&& a.in_party_currency == b.in_party_currency
    &&& a.party == b.party
    &&& a.party_account == b.party_account
    &&& a.based_on_payment_terms == b.based_on_payment_terms
    &&& a.show_future_payments == b.show_future_payments
    &&& a.show_delivery_notes == b.show_delivery_notes
    &&& a.show_sales_person == b.show_sales_person
    &&& a.show_remarks == b.show_remarks
    &&& a.sales_partner == b.sales_partner
}

pub open spec fn spec_currency_fields() -> Seq<Seq<char>> {
    seq![
        "invoiced"@, "paid"@, "credit_note"@, "outstanding"@, "range1"@, "range2"@, "range3"@,
        "range4"@, "range5"@, "future_amount"@, "remaining_balance"@,
    ]
}

pub fn get_currency_fields() -> (r: Vec<&'static str>)
    ensures
        r.deep_view() == spec_currency_fields(),
{
    let r = vec![
        "invoiced", "paid", "credit_note", "outstanding", "range1", "range2", "range3", "range4",
        "range5", "future_amount", "remaining_balance",
    ];
    assert(r.deep_view() =~= spec_currency_fields());
    r
}

/// Trimmed and lower-cased, each character that is no ASCII letter or digit
/// replaced by `_`.
pub open spec fn scrub_body(s: Seq<char>) -> Seq<char> {
    Seq::new(s.len(), |i: int| if is_ascii_alphanumeric(s[i]) { ascii_lower(s[i]) } else { '_' })
}

/// The field name the report derives from a label.
pub open spec fn scrubbed(label: Seq<char>) -> Seq<char> {
    trim_underscores(scrub_body(trimmed(label)))
}

fn scrub(label: &str) -> (r: String)
    ensures
        r@ == scrubbed(label@),
{
    let t = trim(label);
    let chars = chars_of(t.as_str());
    let n = chars.len();
    let mut body: Vec<char> = Vec::new();
    let mut i: usize = 0;
    while i < n
        invariant
            n == chars@.len(),
            chars@ == trimmed(label@),
            i <= n,
            body@ == scrub_body(chars@).subrange(0, i as int),
        decreases n - i,
    {
        let c = chars[i];
        let mapped = if char_is_ascii_alphanumeric(c) { to_ascii_lower(c) } else { '_' };
        body.push(mapped);
        i = i + 1;
        assert(body@ =~= scrub_body(chars@).subrange(0, i as int));
    }
    assert(body@ =~= scrub_body(chars@));
    let mut a: usize = 0;
    let mut b: usize = n;
    while a < b && (body[a] == '_' || body[b - 1] == '_')
        invariant
            n == body@.len(),
            a <= b <= n,
            trim_underscores(body@) == trim_underscores(body@.subrange(a as int, b as int)),
        decreases b - a,
    {
        let ghost sub = body@.subrange(a as int, b as int);
        if body[a] == '_' {
            assert(sub.skip(1) =~= body@.subrange(a + 1, b as int));
            a = a + 1;
        } else {
            assert(sub.drop_last() =~= body@.subrange(a as int, b - 1));
            b = b - 1;
        }
    }
    assert(body@.subrange(0, n as int) =~= body@);
    crate::text::string_of(&body, a, b)
}

proof fn lemma_field_types_distinct()
    ensures
        "Date"@ != "Currency"@, "Data"@ != "Currency"@, "Data"@ != "Date"@, "Link"@ != "Currency"@, "Link"@ != "Date"@,
        "Dynamic Link"@ != "Currency"@, "Dynamic Link"@ != "Date"@, "Int"@ != "Currency"@,
        "Int"@ != "Date"@, "Text"@ != "Currency"@, "Text"@ != "Date"@,
{
    reveal_strlit("Currency");
    reveal_strlit("Date");
    reveal_strlit("Data");
    reveal_strlit("Link");
    reveal_strlit("Dynamic Link");
    reveal_strlit("Int");
    reveal_strlit("Text");
    assert("Currency"@.len() == 8);
    assert("Date"@.len() == 4);
    assert("Dynamic Link"@.len() == 12);
    assert("Int"@.len() == 3);
    assert("Data"@[3] != "Date"@[3]);
    assert("Link"@[0] != "Date"@[0]);
    assert("Text"@[0] != "Date"@[0]);
}

/// The column that `add_column` appends: a currency column always shows the
/// `currency` field's currency, and a date column is 90 wide.
pub open spec fn added_column(label: Seq<char>, fieldname: Option<Seq<char>>, fieldtype: Seq<char>, options: Option<Seq<char>>, width: u16) -> ColumnView {
    let name = match fieldname {
        Some(f) => f,
        None => scrubbed(label),
    };
    if fieldtype == "Currency"@ {
        column(label, name, fieldtype, Some("currency"@), width)
    } else if fieldtype == "Date"@ {
        column(label, name, fieldtype, options, 90)
    } else {
        column(label, name, fieldtype, options, width)
    }
}

fn add_column(
    columns: &mut Vec<ReportColumn>,
    label: &str,
    fieldname: Option<&str>,
    fieldtype: &'static str,
    options: Option<&'static str>,
    width: u16,
)
    ensures
        final(columns).deep_view() == old(columns).deep_view().push(
            added_column(label@, fieldname.deep_view(), fieldtype@, options.deep_view(), width),
        ),
{
    let name = match fieldname {
        Some(f) => owned(f),
        None => scrub(label),
    };
    let (options, width) = if str_eq(fieldtype, "Currency") {
        (Some("currency"), width)
    } else if str_eq(fieldtype, "Date") {
        (options, 90)
    } else {
        (options, width)
    };
    let ghost before = columns.deep_view();
    columns.push(ReportColumn { label: owned(label), fieldname: name, fieldtype, options, width });
    assert(columns.deep_view() =~= before.push(
        added_column(label@, fieldname.deep_view(), fieldtype@, options.deep_view(), width),
    ));
}


/// The lower bound of the next ageing bucket: one past the current bound when
/// it reads as an `i32`, else unchanged.
pub open spec fn next_lower_bound(previous: int, current: Seq<char>) -> int {
    match parse_i32_spec(current) {
        Some(v) => v + 1,
        None => previous,
    }
}

/// The currency columns `range{index + 1}`, ... of the buckets whose upper
/// bounds are `labels`, the first starting at `previous`.
pub open spec fn ageing_columns(labels: Seq<Seq<char>>, index: int, previous: int) -> Seq<ColumnView>
    decreases labels.len(),
{
    if labels.len() == 0 {
        Seq::empty()
    } else {
        seq![column(int_text(previous) + "-"@ + labels[0], "range"@ + int_text(index + 1), "Currency"@, Some("currency"@), 120)]
            + ageing_columns(labels.skip(1), index + 1, next_lower_bound(previous, labels[0]))
    }
}

/// No bound reads as the largest `i32`, whose successor would overflow.
pub open spec fn bounds_fit(ranges: Seq<Seq<char>>) -> bool {
    forall|i: int| 0 <= i < ranges.len() ==> parse_i32_spec(#[trigger] ranges[i]) != Some(i32::MAX)
}

/// The `<0` column, then one column per range and one for "Above".
pub open spec fn ageing_section(ranges: Seq<Seq<char>>) -> Seq<ColumnView> {
    seq![column("<0"@, "range0"@, "Currency"@, Some("currency"@), 120)]
        + ageing_columns(ranges.push("Above"@), 0, 0)
}

fn setup_ageing_columns(columns: &mut Vec<ReportColumn>, ranges: &Vec<String>)
    requires
        bounds_fit(ranges.deep_view()),
    ensures
        final(columns).deep_view() == old(columns).deep_view() + ageing_section(ranges.deep_view()),
{
    let mut labels: Vec<String> = copy_strings(ranges);
    labels.push(owned("Above"));
    let ghost all = ranges.deep_view().push("Above"@);
    assert(labels.deep_view() =~= all);
    let mut previous: i32 = 0;
    add_column(columns, "<0", Some("range0"), "Currency", None, 120);
    let ghost base = columns.deep_view();
    assert(base =~= old(columns).deep_view() + seq![column("<0"@, "range0"@, "Currency"@, Some("currency"@), 120)]);
    let mut index: usize = 0;
    assert(all.skip(0) =~= all);
    assert(columns.deep_view() + ageing_columns(all, 0, 0) =~= base + ageing_columns(all, 0, 0));
    while index < labels.len()
        invariant
            labels.deep_view() == all,
            all.len() == ranges@.len() + 1,
            index <= all.len(),
            bounds_fit(ranges.deep_view()),
            all == ranges.deep_view().push("Above"@),
            base + ageing_columns(all, 0, 0) == columns.deep_view() + ageing_columns(all.skip(index as int), index as int, previous as int),
        decreases all.len() - index,
    {
        let current = &labels[index];
        let mut label = i64_text(previous as i64);
        label.append("-");
        label.append(current.as_str());
        let mut fieldname = owned("range");
        let number = usize_text(index + 1);
        fieldname.append(number.as_str());
        let ghost rest = all.skip(index as int);
        assert(rest[0] == current@);
        assert(rest.skip(1) =~= all.skip(index + 1));
        let ghost before = columns.deep_view();
        let ghost prev = previous as int;
        add_column(columns, label.as_str(), Some(fieldname.as_str()), "Currency", None, 120);
        let parsed = parse_i32(current.as_str());
        match parsed {
            Some(value) => {
                proof {
                    if index < ranges@.len() {
                        assert(all[index as int] == ranges.deep_view()[index as int]);
                    } else {
                        assert(all[index as int] == "Above"@);
                        assert(parse_i32_spec("Above"@) is None) by {
                            reveal_strlit("Above");
                            assert("Above"@[0] == 'A');
                        }
                    }
                }
                previous = value + 1;
            },
            None => {},
        }
        index = index + 1;
        assert(previous as int == next_lower_bound(prev, rest[0]));
        assert(columns.deep_view() + ageing_columns(all.skip(index as int), index as int, previous as int)
            =~= before + ageing_columns(rest, (index - 1) as int, prev));
    }
    assert(all.skip(index as int) =~= Seq::<Seq<char>>::empty());
    assert(ageing_columns(all.skip(index as int), index as int, previous as int) =~= Seq::<ColumnView>::empty());
    assert(columns.deep_view() =~= old(columns).deep_view() + ageing_section(ranges.deep_view()));
}


pub open spec fn when(cond: bool, cols: Seq<ColumnView>) -> Seq<ColumnView> {
    if cond { cols } else { Seq::empty() }
}

/// The columns before the amounts: party, account, contact, voucher and terms.
pub open spec fn leading_columns(filters: ReceivablePayableFilters, runtime: ReceivablePayableRuntime) -> Seq<ColumnView> {
    let receivable = runtime.account_type == AccountType::Receivable;
    seq![column("Posting Date"@, "posting_date"@, "Date"@, None, 90), column("Party Type"@, "party_type"@, "Data"@, None, 100), column("Party"@, "party"@, "Dynamic Link"@, Some("party_type"@), 180)]
        + seq![column(if receivable { "Receivable Account"@ } else { "Payable Account"@ }, "party_account"@, "Link"@, Some("Account"@), 180)]
        + when(runtime.party_naming_by@ == "Naming Series"@, if receivable {
            seq![column("Customer Name"@, "customer_name"@, "Data"@, None, 120)]
        } else {
            seq![column("Supplier Name"@, "supplier_name"@, "Data"@, None, 120)]
        })
        + when(receivable, seq![column("Customer Contact"@, "customer_primary_contact"@, "Link"@, Some("Contact"@), 120)])
        + seq![column("Cost Center"@, "cost_center"@, "Data"@, None, 120), column("Project"@, "project"@, "Link"@, Some("Project"@), 120), column("Voucher Type"@, "voucher_type"@, "Data"@, None, 120), column("Voucher No"@, "voucher_no"@, "Dynamic Link"@, Some("voucher_type"@), 180), column("Due Date"@, "due_date"@, "Date"@, None, 90)]
        + when(!receivable, seq![column("Bill No"@, "bill_no"@, "Data"@, None, 120), column("Bill Date"@, "bill_date"@, "Date"@, None, 90)])
        + when(filters.based_on_payment_terms, seq![column("Payment Term"@, "payment_term"@, "Data"@, None, 120), column("Invoice Grand Total"@, "invoice_grand_total"@, "Currency"@, Some("currency"@), 120)])
}

/// The amount columns, the age and the ageing buckets, and the currency.
pub open spec fn amount_columns(runtime: ReceivablePayableRuntime) -> Seq<ColumnView> {
    let receivable = runtime.account_type == AccountType::Receivable;
    seq![column("Invoiced Amount"@, "invoiced"@, "Currency"@, Some("currency"@), 120), column("Paid Amount"@, "paid"@, "Currency"@, Some("currency"@), 120)]
        + seq![column(if receivable { "Credit Note"@ } else { "Debit Note"@ }, "credit_note"@, "Currency"@, Some("currency"@), 120)]
        + seq![column("Outstanding Amount"@, "outstanding"@, "Currency"@, Some("currency"@), 120), column("Age (Days)"@, "age"@, "Int"@, None, 80)]
        + ageing_section(runtime.ranges.deep_view())
        + seq![column("Currency"@, "currency"@, "Link"@, Some("Currency"@), 80)]
}

/// Future payments, party details and remarks.
pub open spec fn trailing_columns(filters: ReceivablePayableFilters, runtime: ReceivablePayableRuntime) -> Seq<ColumnView> {
    let receivable = runtime.account_type == AccountType::Receivable;
    when(filters.show_future_payments, seq![column("Future Payment Ref"@, "future_ref"@, "Data"@, None, 120), column("Future Payment Amount"@, "future_amount"@, "Currency"@, Some("currency"@), 120), column("Remaining Balance"@, "remaining_balance"@, "Currency"@, Some("currency"@), 120)])
        + when(receivable, seq![column("Customer LPO"@, "po_no"@, "Data"@, None, 120)]
            + when(filters.show_delivery_notes, seq![column("Delivery Notes"@, "delivery_notes"@, "Data"@, None, 120)])
            + seq![column("Territory"@, "territory"@, "Link"@, Some("Territory"@), 120), column("Customer Group"@, "customer_group"@, "Link"@, Some("Customer Group"@), 120)]
            + when(filters.show_sales_person, seq![column("Sales Person"@, "sales_person"@, "Data"@, None, 120)])
            + when(filters.sales_partner is Some, seq![column("Sales Partner"@, "default_sales_partner"@, "Data"@, None, 120)]))
        + when(!receivable, seq![column("Supplier Group"@, "supplier_group"@, "Link"@, Some("Supplier Group"@), 120)])
        + when(filters.show_remarks, seq![column("Remarks"@, "remarks"@, "Text"@, None, 200)])
}

/// The report's columns, in order, for the given filters and runtime settings.
pub open spec fn spec_columns(filters: ReceivablePayableFilters, runtime: ReceivablePayableRuntime) -> Seq<ColumnView> {
    leading_columns(filters, runtime) + amount_columns(runtime) + trailing_columns(filters, runtime)
}

fn add_leading_columns(columns: &mut Vec<ReportColumn>, filters: &ReceivablePayableFilters, runtime: &ReceivablePayableRuntime)
    ensures
        final(columns).deep_view() == old(columns).deep_view() + leading_columns(*filters, *runtime),
{
    let receivable = runtime.account_type == AccountType::Receivable;
    proof { lemma_field_types_distinct(); }
    let ghost s0 = columns.deep_view();
    add_column(columns, "Posting Date", Some("posting_date"), "Date", None, 120);
    add_column(columns, "Party Type", Some("party_type"), "Data", None, 100);
    add_column(columns, "Party", Some("party"), "Dynamic Link", Some("party_type"), 180);
    add_column(columns, if receivable { "Receivable Account" } else { "Payable Account" }, Some("party_account"), "Link", Some("Account"), 180);
    if str_eq(runtime.party_naming_by.as_str(), "Naming Series") {
        if receivable {
            add_column(columns, "Customer Name", Some("customer_name"), "Data", None, 120);
        } else {
            add_column(columns, "Supplier Name", Some("supplier_name"), "Data", None, 120);
        }
    }
    if receivable {
        add_column(columns, "Customer Contact", Some("customer_primary_contact"), "Link", Some("Contact"), 120);
    }
    let ghost s2 = columns.deep_view();
    add_column(columns, "Cost Center", Some("cost_center"), "Data", None, 120);
    add_column(columns, "Project", Some("project"), "Link", Some("Project"), 120);
    add_column(columns, "Voucher Type", Some("voucher_type"), "Data", None, 120);
    add_column(columns, "Voucher No", Some("voucher_no"), "Dynamic Link", Some("voucher_type"), 180);
    add_column(columns, "Due Date", Some("due_date"), "Date", None, 120);
    if !receivable {
        add_column(columns, "Bill No", Some("bill_no"), "Data", None, 120);
    add_column(columns, "Bill Date", Some("bill_date"), "Date", None, 120);
    }
    if filters.based_on_payment_terms {
        add_column(columns, "Payment Term", Some("payment_term"), "Data", None, 120);
    add_column(columns, "Invoice Grand Total", Some("invoice_grand_total"), "Currency", None, 120);
    }
    assert(columns.deep_view() =~= s0 + leading_columns(*filters, *runtime));
}

fn add_amount_columns(columns: &mut Vec<ReportColumn>, runtime: &ReceivablePayableRuntime)
    requires
        bounds_fit(runtime.ranges.deep_view()),
    ensures
        final(columns).deep_view() == old(columns).deep_view() + amount_columns(*runtime),
{
    let receivable = runtime.account_type == AccountType::Receivable;
    proof { lemma_field_types_distinct(); }
    let ghost s0 = columns.deep_view();
    add_column(columns, "Invoiced Amount", Some("invoiced"), "Currency", None, 120);
    add_column(columns, "Paid Amount", Some("paid"), "Currency", None, 120);
    add_column(columns, if receivable { "Credit Note" } else { "Debit Note" }, Some("credit_note"), "Currency", None, 120);
    add_column(columns, "Outstanding Amount", Some("outstanding"), "Currency", None, 120);
    add_column(columns, "Age (Days)", Some("age"), "Int", None, 80);
    let ghost s4 = columns.deep_view();
    setup_ageing_columns(columns, &runtime.ranges);
    add_column(columns, "Currency", Some("currency"), "Link", Some("Currency"), 80);
    assert(columns.deep_view() =~= s0 + amount_columns(*runtime));
}

fn add_trailing_columns(columns: &mut Vec<ReportColumn>, filters: &ReceivablePayableFilters, runtime: &ReceivablePayableRuntime)
    ensures
        final(columns).deep_view() == old(columns).deep_view() + trailing_columns(*filters, *runtime),
{
    let receivable = runtime.account_type == AccountType::Receivable;
    proof { lemma_field_types_distinct(); }
    let ghost s0 = columns.deep_view();
    if filters.show_future_payments {
        add_column(columns, "Future Payment Ref", Some("future_ref"), "Data", None, 120);
    add_column(columns, "Future Payment Amount", Some("future_amount"), "Currency", None, 120);
    add_column(columns, "Remaining Balance", Some("remaining_balance"), "Currency", None, 120);
    }
    let ghost s6 = columns.deep_view();
    if receivable {
        add_column(columns, "Customer LPO", Some("po_no"), "Data", None, 120);
        if filters.show_delivery_notes {
            add_column(columns, "Delivery Notes", Some("delivery_notes"), "Data", None, 120);
        }
        add_column(columns, "Territory", Some("territory"), "Link", Some("Territory"), 120);
        add_column(columns, "Customer Group", Some("customer_group"), "Link", Some("Customer Group"), 120);
        if filters.show_sales_person {
            add_column(columns, "Sales Person", Some("sales_person"), "Data", None, 120);
        }
        if filters.sales_partner.is_some() {
            add_column(columns, "Sales Partner", Some("default_sales_partner"), "Data", None, 120);
        }
    } else {
        add_column(columns, "Supplier Group", Some("supplier_group"), "Link", Some("Supplier Group"), 120);
    }
    if filters.show_remarks {
        add_column(columns, "Remarks", Some("remarks"), "Text", None, 200);
    }
    assert(columns.deep_view() =~= s0 + trailing_columns(*filters, *runtime));
}

pub fn get_columns(filters: &ReceivablePayableFilters, runtime: &ReceivablePayableRuntime) -> (r: Vec<ReportColumn>)
    requires
        bounds_fit(runtime.ranges.deep_view()),
    ensures
        r.deep_view() == spec_columns(*filters, *runtime),
{
    let mut columns: Vec<ReportColumn> = Vec::new();
    add_leading_columns(&mut columns, filters, runtime);
    add_amount_columns(&mut columns, runtime);
    add_trailing_columns(&mut columns, filters, runtime);
    assert(columns.deep_view() =~= spec_columns(*filters, *runtime));
    columns
}

} // verus!
