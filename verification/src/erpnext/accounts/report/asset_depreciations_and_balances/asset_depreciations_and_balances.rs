//! Asset depreciations and balances: the query plans behind the asset values,
//! depreciation and value adjustments per category or per asset, the date
//! arithmetic of the period labels, and the columns.
use vstd::prelude::*;
use crate::calendar::{
    civil_in_range, civil_of, date_text, day_number_in_range, epoch_day, format_date, hinnant_days,
    is_valid_date,
};
use crate::erpnext::accounts::report::consolidated_trial_balance::consolidated_trial_balance::{find_first, first_at};
use crate::text::{concat, owned, parse_i32_spec, parse_i32, parse_u32, parse_u32_spec, split_char, split_on, str_eq};

verus! {

#[derive(Debug, Default, PartialEq, Eq)]
pub struct AssetDepreciationsAndBalancesFilters {
    pub company: String,
    pub from_date: String,
    pub to_date: String,
    pub group_by: String,
    pub asset_category: Option<String>,
    pub asset: Option<String>,
    pub finance_book: Option<String>,
}

#[derive(Debug, PartialEq, Eq)]
pub struct ReportColumn {
    pub label: String,
    pub fieldname: &'static str,
    pub fieldtype: &'static str,
    pub options: &'static str,
    pub width: u16,
}

/// label, field name, field type, options, width
pub type ColumnView = (Seq<char>, Seq<char>, Seq<char>, Seq<char>, u16);

impl DeepView for ReportColumn {
    type V = ColumnView;

    open spec fn deep_view(&self) -> ColumnView {
        (self.label@, self.fieldname@, self.fieldtype@, self.options@, self.width)
    }
}

pub open spec fn column(label: Seq<char>, fieldname: Seq<char>, fieldtype: Seq<char>, options: Seq<char>, width: u16) -> ColumnView {
    (label, fieldname, fieldtype, options, width)
}

impl ReportColumn {
    pub fn link(label: &str, fieldname: &'static str, options: &'static str, width: u16) -> (r: Self)
        ensures
            r.deep_view() == column(label@, fieldname@, "Link"@, options@, width),
    {
        ReportColumn { label: owned(label), fieldname, fieldtype: "Link", options, width }
    }

    pub fn data(label: &str, fieldname: &'static str, width: u16) -> (r: Self)
        ensures
            r.deep_view() == column(label@, fieldname@, "Data"@, ""@, width),
    {
        ReportColumn { label: owned(label), fieldname, fieldtype: "Data", options: "", width }
    }

    pub fn currency(label: &str, fieldname: &'static str, width: u16) -> (r: Self)
        ensures
            r.deep_view() == column(label@, fieldname@, "Currency"@, ""@, width),
    {
        ReportColumn { label: owned(label), fieldname, fieldtype: "Currency", options: "", width }
    }
}

/// A query: its source table, selected fields, joined tables, conditions and
/// grouping field.
#[derive(Debug, Default, PartialEq, Eq)]
pub struct QueryPlan {
    pub source: &'static str,
    pub selects: Vec<&'static str>,
    pub joins: Vec<&'static str>,
    pub conditions: Vec<String>,
    pub group_by: Option<&'static str>,
}

pub type PlanView = (Seq<char>, Seq<Seq<char>>, Seq<Seq<char>>, Seq<Seq<char>>, Option<Seq<char>>);

impl DeepView for QueryPlan {
    type V = PlanView;

    open spec fn deep_view(&self) -> PlanView {
        (self.source@, self.selects.deep_view(), self.joins.deep_view(), self.conditions.deep_view(), self.group_by.deep_view())
    }
}

#[derive(Debug, Default, PartialEq, Eq)]
pub struct DepreciationQueryPlans {
    pub gl: QueryPlan,
    pub opening: QueryPlan,
}

pub open spec fn when(cond: bool, items: Seq<Seq<char>>) -> Seq<Seq<char>> {
    if cond { items } else { Seq::empty() }
}

/// The condition on the asset category, when the filters name one.
pub open spec fn category_condition(filters: AssetDepreciationsAndBalancesFilters) -> Seq<Seq<char>> {
    match filters.asset_category {
        Some(c) => seq!["asset.asset_category = "@ + c@],
        None => Seq::empty(),
    }
}

/// The condition on the asset, when the filters name one.
pub open spec fn asset_condition(filters: AssetDepreciationsAndBalancesFilters) -> Seq<Seq<char>> {
    match filters.asset {
        Some(a) => seq!["asset.name = "@ + a@],
        None => Seq::empty(),
    }
}

/// The condition that the asset is kept in the finance book the filters name.
pub open spec fn book_asset_condition(filters: AssetDepreciationsAndBalancesFilters) -> Seq<Seq<char>> {
    match filters.finance_book {
        Some(b) => seq!["asset.name IN assets with finance_book "@ + b@],
        None => Seq::empty(),
    }
}

/// The conditions on the ledger's finance book and the asset's, when the
/// filters name a book.
pub open spec fn book_gl_condition(filters: AssetDepreciationsAndBalancesFilters) -> Seq<Seq<char>> {
    match filters.finance_book {
        Some(b) => seq!["ifnull(gl_entry.finance_book, '') = "@ + b@, "asset.name IN assets with finance_book "@ + b@],
        None => Seq::empty(),
    }
}

pub open spec fn spec_base_asset_conditions(filters: AssetDepreciationsAndBalancesFilters) -> Seq<Seq<char>> {
    seq![
        "asset.docstatus = 1"@,
        "asset.company = "@ + filters.company@,
        "asset.purchase_date <= "@ + filters.to_date@,
        "asset.name NOT IN capitalized assets before "@ + filters.from_date@,
    ]
}

fn base_asset_conditions(filters: &AssetDepreciationsAndBalancesFilters) -> (r: Vec<String>)
    ensures
        r.deep_view() == spec_base_asset_conditions(*filters),
{
    let r = vec![
        owned("asset.docstatus = 1"),
        concat("asset.company = ", filters.company.as_str()),
        concat("asset.purchase_date <= ", filters.to_date.as_str()),
        concat("asset.name NOT IN capitalized assets before ", filters.from_date.as_str()),
    ];
    assert(r.deep_view() =~= spec_base_asset_conditions(*filters));
    r
}

fn push_optional_asset_category(plan: &mut QueryPlan, filters: &AssetDepreciationsAndBalancesFilters)
    ensures
        final(plan).deep_view() == (old(plan).deep_view().0, old(plan).deep_view().1, old(plan).deep_view().2,
            old(plan).deep_view().3 + category_condition(*filters), old(plan).deep_view().4),
{
    if let Some(asset_category) = &filters.asset_category {
        plan.conditions.push(concat("asset.asset_category = ", asset_category.as_str()));
    }
    assert(plan.conditions.deep_view() =~= old(plan).deep_view().3 + category_condition(*filters));
}

fn push_optional_asset(plan: &mut QueryPlan, filters: &AssetDepreciationsAndBalancesFilters)
    ensures
        final(plan).deep_view() == (old(plan).deep_view().0, old(plan).deep_view().1, old(plan).deep_view().2,
            old(plan).deep_view().3 + asset_condition(*filters), old(plan).deep_view().4),
{
    if let Some(asset) = &filters.asset {
        plan.conditions.push(concat("asset.name = ", asset.as_str()));
    }
    assert(plan.conditions.deep_view() =~= old(plan).deep_view().3 + asset_condition(*filters));
}

fn push_optional_finance_book_asset_filter(plan: &mut QueryPlan, filters: &AssetDepreciationsAndBalancesFilters)
    ensures
        final(plan).deep_view() == (old(plan).deep_view().0, old(plan).deep_view().1, old(plan).deep_view().2,
            old(plan).deep_view().3 + book_asset_condition(*filters), old(plan).deep_view().4),
{
    if let Some(finance_book) = &filters.finance_book {
        plan.conditions.push(concat("asset.name IN assets with finance_book ", finance_book.as_str()));
    }
    assert(plan.conditions.deep_view() =~= old(plan).deep_view().3 + book_asset_condition(*filters));
}

fn push_optional_finance_book_gl_filter(plan: &mut QueryPlan, filters: &AssetDepreciationsAndBalancesFilters)
    ensures
        final(plan).deep_view() == (old(plan).deep_view().0, old(plan).deep_view().1, old(plan).deep_view().2,
            old(plan).deep_view().3 + book_gl_condition(*filters), old(plan).deep_view().4),
{
    if let Some(finance_book) = &filters.finance_book {
        plan.conditions.push(concat("ifnull(gl_entry.finance_book, '') = ", finance_book.as_str()));
        push_optional_finance_book_asset_filter(plan, filters);
    }
    assert(plan.conditions.deep_view() =~= old(plan).deep_view().3 + book_gl_condition(*filters));
}

pub open spec fn value_selects() -> Seq<Seq<char>> {
    seq!["value_as_on_from_date"@, "value_of_new_purchase"@, "value_of_sold_asset"@, "value_of_scrapped_asset"@, "value_of_capitalized_asset"@]
}

pub fn get_category_values_query_plan(filters: &AssetDepreciationsAndBalancesFilters) -> (r: QueryPlan)
    ensures
        r.deep_view() == ("Asset"@, seq!["asset.asset_category"@] + value_selects(), Seq::<Seq<char>>::empty(),
            spec_base_asset_conditions(*filters) + category_condition(*filters) + book_asset_condition(*filters),
            Some("asset.asset_category"@)),
{
    let mut plan = QueryPlan {
        source: "Asset",
        selects: vec![
            "asset.asset_category", "value_as_on_from_date", "value_of_new_purchase", "value_of_sold_asset",
            "value_of_scrapped_asset", "value_of_capitalized_asset",
        ],
        joins: Vec::new(),
        conditions: base_asset_conditions(filters),
        group_by: Some("asset.asset_category"),
    };
    assert(plan.selects.deep_view() =~= seq!["asset.asset_category"@] + value_selects());
    assert(plan.joins.deep_view() =~= Seq::<Seq<char>>::empty());
    push_optional_asset_category(&mut plan, filters);
    push_optional_finance_book_asset_filter(&mut plan, filters);
    assert(plan.conditions.deep_view() =~= spec_base_asset_conditions(*filters) + category_condition(*filters) + book_asset_condition(*filters));
    plan
}

pub fn get_asset_details_query_plan(filters: &AssetDepreciationsAndBalancesFilters) -> (r: QueryPlan)
    ensures
        r.deep_view() == ("Asset"@, seq!["asset.name"@, "asset.asset_name"@] + value_selects(), Seq::<Seq<char>>::empty(),
            spec_base_asset_conditions(*filters) + asset_condition(*filters) + book_asset_condition(*filters),
            Some("asset.name"@)),
{
    let mut plan = QueryPlan {
        source: "Asset",
        selects: vec![
            "asset.name", "asset.asset_name", "value_as_on_from_date", "value_of_new_purchase", "value_of_sold_asset",
            "value_of_scrapped_asset", "value_of_capitalized_asset",
        ],
        joins: Vec::new(),
        conditions: base_asset_conditions(filters),
        group_by: Some("asset.name"),
    };
    assert(plan.selects.deep_view() =~= seq!["asset.name"@, "asset.asset_name"@] + value_selects());
    assert(plan.joins.deep_view() =~= Seq::<Seq<char>>::empty());
    push_optional_asset(&mut plan, filters);
    push_optional_finance_book_asset_filter(&mut plan, filters);
    assert(plan.conditions.deep_view() =~= spec_base_asset_conditions(*filters) + asset_condition(*filters) + book_asset_condition(*filters));
    plan
}

/// The ledger query for depreciation, grouped by `group_by`.
pub open spec fn spec_gl_plan(filters: AssetDepreciationsAndBalancesFilters, group_by: Seq<char>) -> PlanView {
    ("GL Entry"@,
        seq![group_by, "accumulated_depreciation_as_on_from_date"@, "depreciation_eliminated_via_reversal"@,
            "depreciation_eliminated_during_the_period"@, "depreciation_amount_during_the_period"@],
        seq!["Asset"@, "Asset Category Account"@, "Company"@],
        seq![
            "asset.docstatus = 1"@,
            "asset.company = "@ + filters.company@,
            "asset.purchase_date <= "@ + filters.to_date@,
            "gl_entry.is_cancelled = 0"@,
            "gl_entry.account = ifnull(asset_category_account.depreciation_expense_account, company.depreciation_expense_account)"@,
        ],
        Some(group_by))
}

/// The asset query for opening depreciation, grouped by `group_by`.
pub open spec fn spec_opening_plan(filters: AssetDepreciationsAndBalancesFilters, group_by: Seq<char>) -> PlanView {
    ("Asset"@,
        seq![group_by, "accumulated_depreciation_as_on_from_date"@, "depreciation_eliminated_during_the_period"@],
        Seq::empty(),
        seq!["asset.docstatus = 1"@, "asset.company = "@ + filters.company@, "asset.purchase_date <= "@ + filters.to_date@],
        Some(group_by))
}

fn depreciation_gl_query_plan(filters: &AssetDepreciationsAndBalancesFilters, group_by: &'static str) -> (r: QueryPlan)
    ensures
        r.deep_view() == spec_gl_plan(*filters, group_by@),
{
    let r = QueryPlan {
        source: "GL Entry",
        selects: vec![
            group_by, "accumulated_depreciation_as_on_from_date", "depreciation_eliminated_via_reversal",
            "depreciation_eliminated_during_the_period", "depreciation_amount_during_the_period",
        ],
        joins: vec!["Asset", "Asset Category Account", "Company"],
        conditions: vec![
            owned("asset.docstatus = 1"),
            concat("asset.company = ", filters.company.as_str()),
            concat("asset.purchase_date <= ", filters.to_date.as_str()),
            owned("gl_entry.is_cancelled = 0"),
            owned("gl_entry.account = ifnull(asset_category_account.depreciation_expense_account, company.depreciation_expense_account)"),
        ],
        group_by: Some(group_by),
    };
    assert(r.deep_view() =~= spec_gl_plan(*filters, group_by@));
    r
}

fn opening_depreciation_query_plan(filters: &AssetDepreciationsAndBalancesFilters, group_by: &'static str) -> (r: QueryPlan)
    ensures
        r.deep_view() == spec_opening_plan(*filters, group_by@),
{
    let r = QueryPlan {
        source: "Asset",
        selects: vec![group_by, "accumulated_depreciation_as_on_from_date", "depreciation_eliminated_during_the_period"],
        joins: Vec::new(),
        conditions: vec![
            owned("asset.docstatus = 1"),
            concat("asset.company = ", filters.company.as_str()),
            concat("asset.purchase_date <= ", filters.to_date.as_str()),
        ],
        group_by: Some(group_by),
    };
    assert(r.deep_view() =~= spec_opening_plan(*filters, group_by@));
    r
}

pub open spec fn with_conditions(plan: PlanView, extra: Seq<Seq<char>>) -> PlanView {
    (plan.0, plan.1, plan.2, plan.3 + extra, plan.4)
}

pub fn get_category_depreciation_query_plans(filters: &AssetDepreciationsAndBalancesFilters) -> (r: DepreciationQueryPlans)
    ensures
        r.gl.deep_view() == with_conditions(spec_gl_plan(*filters, "asset.asset_category"@),
            category_condition(*filters) + book_gl_condition(*filters)),
        r.opening.deep_view() == with_conditions(spec_opening_plan(*filters, "asset.asset_category"@),
            category_condition(*filters) + book_asset_condition(*filters)),
{
    let mut gl = depreciation_gl_query_plan(filters, "asset.asset_category");
    let mut opening = opening_depreciation_query_plan(filters, "asset.asset_category");
    push_optional_asset_category(&mut gl, filters);
    push_optional_asset_category(&mut opening, filters);
    push_optional_finance_book_gl_filter(&mut gl, filters);
    push_optional_finance_book_asset_filter(&mut opening, filters);
    assert(gl.deep_view() =~= with_conditions(spec_gl_plan(*filters, "asset.asset_category"@), category_condition(*filters) + book_gl_condition(*filters)));
    assert(opening.deep_view() =~= with_conditions(spec_opening_plan(*filters, "asset.asset_category"@), category_condition(*filters) + book_asset_condition(*filters)));
    DepreciationQueryPlans { gl, opening }
}

pub fn get_asset_depreciation_query_plans(filters: &AssetDepreciationsAndBalancesFilters) -> (r: DepreciationQueryPlans)
    ensures
        r.gl.deep_view() == with_conditions(spec_gl_plan(*filters, "asset.name"@),
            asset_condition(*filters) + book_gl_condition(*filters)),
        r.opening.deep_view() == with_conditions(spec_opening_plan(*filters, "asset.name"@),
            asset_condition(*filters) + book_asset_condition(*filters)),
{
    let mut gl = depreciation_gl_query_plan(filters, "asset.name");
    let mut opening = opening_depreciation_query_plan(filters, "asset.name");
    push_optional_asset(&mut gl, filters);
    push_optional_asset(&mut opening, filters);
    push_optional_finance_book_gl_filter(&mut gl, filters);
    push_optional_finance_book_asset_filter(&mut opening, filters);
    assert(gl.deep_view() =~= with_conditions(spec_gl_plan(*filters, "asset.name"@), asset_condition(*filters) + book_gl_condition(*filters)));
    assert(opening.deep_view() =~= with_conditions(spec_opening_plan(*filters, "asset.name"@), asset_condition(*filters) + book_asset_condition(*filters)));
    DepreciationQueryPlans { gl, opening }
}

/// The ledger query for value adjustments, keyed by asset when `group_by` is
/// "Asset" and by asset category otherwise.
pub open spec fn spec_adjustment_plan(group_by: Seq<char>, filters: AssetDepreciationsAndBalancesFilters) -> PlanView {
    let by_asset = group_by == "Asset"@;
    ("GL Entry"@,
        seq![if by_asset { "asset.name as key"@ } else { "asset.asset_category as key"@ },
            "value_adjustment_before_from_date"@, "value_adjustment_till_to_date"@],
        seq!["Asset"@, "Asset Category Account"@],
        seq![
            "gl_entry.is_cancelled = 0"@,
            "asset.docstatus = 1"@,
            "asset.company = "@ + filters.company@,
            "asset.purchase_date <= "@ + filters.to_date@,
            "gl_entry.account = asset_category_account.fixed_asset_account"@,
            "gl_entry.is_opening = No"@,
        ],
        Some(if by_asset { "asset.name"@ } else { "asset.asset_category"@ }))
}

pub fn get_asset_value_adjustment_query_plan(group_by: &str, filters: &AssetDepreciationsAndBalancesFilters) -> (r: QueryPlan)
    ensures
        r.deep_view() == spec_adjustment_plan(group_by@, *filters),
{
    let by_asset = str_eq(group_by, "Asset");
    let (select_key, group_by_field) = if by_asset {
        ("asset.name as key", "asset.name")
    } else {
        ("asset.asset_category as key", "asset.asset_category")
    };
    let r = QueryPlan {
        source: "GL Entry",
        selects: vec![select_key, "value_adjustment_before_from_date", "value_adjustment_till_to_date"],
        joins: vec!["Asset", "Asset Category Account"],
        conditions: vec![
            owned("gl_entry.is_cancelled = 0"),
            owned("asset.docstatus = 1"),
            concat("asset.company = ", filters.company.as_str()),
            concat("asset.purchase_date <= ", filters.to_date.as_str()),
            owned("gl_entry.account = asset_category_account.fixed_asset_account"),
            owned("gl_entry.is_opening = No"),
        ],
        group_by: Some(group_by_field),
    };
    assert(r.deep_view() =~= spec_adjustment_plan(group_by@, *filters));
    r
}


/// A `year-month-day` text with exactly three parts that read as an `i32`
/// year, a `u32` month and a `u32` day.
pub open spec fn spec_parse_date(date: Seq<char>) -> Option<(i32, u32, u32)> {
    let parts = split_on(date, '-');
    if parts.len() == 3 && parse_i32_spec(parts[0]) is Some && parse_u32_spec(parts[1]) is Some
        && parse_u32_spec(parts[2]) is Some {
        Some((parse_i32_spec(parts[0])->0, parse_u32_spec(parts[1])->0, parse_u32_spec(parts[2])->0))
    } else {
        None
    }
}

fn parse_date(date: &str) -> (r: Option<(i32, u32, u32)>)
    ensures
        r == spec_parse_date(date@),
{
    let parts = split_char(date, '-');
    if parts.len() != 3 {
        return None;
    }
    assert(parts.deep_view()[0] == parts@[0]@);
    assert(parts.deep_view()[1] == parts@[1]@);
    assert(parts.deep_view()[2] == parts@[2]@);
    let year = match parse_i32(parts[0].as_str()) {
        Some(y) => y,
        None => return None,
    };
    let month = match parse_u32(parts[1].as_str()) {
        Some(m) => m,
        None => return None,
    };
    let day = match parse_u32(parts[2].as_str()) {
        Some(d) => d,
        None => return None,
    };
    Some((year, month, day))
}

fn days_from_civil(year: i32, month: u32, day: u32) -> (r: i64)
    requires
        civil_in_range(year as int, month as int, day as int),
    ensures
        r == hinnant_days(year as int, month as int, day as int),
        1 <= month <= 12 ==> r == epoch_day(year as int, month as int, day as int),
{
    crate::calendar::days_from_civil(year, month, day)
}

fn civil_from_days(days: i64) -> (r: (i32, u32, u32))
    requires
        days <= i64::MAX - 719_468,
    ensures
        r.0 == civil_of(days as int).0 as i32,
        r.1 == civil_of(days as int).1,
        r.2 == civil_of(days as int).2,
        day_number_in_range(days as int) ==> {
            &&& r.0 == civil_of(days as int).0
            &&& is_valid_date(r.0 as int, r.1 as int, r.2 as int)
            &&& epoch_day(r.0 as int, r.1 as int, r.2 as int) == days
        },
{
    crate::calendar::civil_from_days(days)
}

/// A date text whose parts, if they read, stay within the day-number formula's range.
pub open spec fn date_in_range(date: Seq<char>) -> bool {
    spec_parse_date(date) matches Some((y, m, d)) ==> civil_in_range(y as int, m as int, d as int)
}

/// The date `days` after the one a date text names, by day numbers.
pub open spec fn shifted_date(y: int, m: int, d: int, days: int) -> (int, int, int) {
    civil_of(hinnant_days(y, m, d) + days)
}

fn add_days(date: &str, days: i32) -> (r: Option<String>)
    requires
        date_in_range(date@),
    ensures
        match spec_parse_date(date@) {
            None => r is None,
            Some((y, m, d)) => r matches Some(text) && {
                let (y2, m2, d2) = shifted_date(y as int, m as int, d as int, days as int);
                &&& text@ == date_text(y2, m2, d2)
                &&& is_valid_date(y2, m2, d2)
                &&& (1 <= m <= 12 ==> epoch_day(y2, m2, d2) == epoch_day(y as int, m as int, d as int) + days)
            },
        },
{
    let (year, month, day) = match parse_date(date) {
        Some(parts) => parts,
        None => return None,
    };
    proof { crate::calendar::lemma_hinnant_bound(year as int, month as int, day as int); }
    let number = days_from_civil(year, month, day) + days as i64;
    let (year, month, day) = civil_from_days(number);
    Some(format_date(year, month, day))
}

fn formatdate(date: &str) -> (r: String)
    ensures
        r@ == date@,
{
    owned(date)
}

/// The day before the report's from date, as a date text; the from date itself
/// when it does not read as a date.
pub open spec fn day_before(from_date: Seq<char>) -> Seq<char> {
    match spec_parse_date(from_date) {
        Some((y, m, d)) => {
            let (y2, m2, d2) = shifted_date(y as int, m as int, d as int, -1);
            date_text(y2, m2, d2)
        },
        None => from_date,
    }
}

/// The grouping columns, then the value and depreciation columns.
pub open spec fn spec_columns(filters: AssetDepreciationsAndBalancesFilters) -> Seq<ColumnView> {
    let before = day_before(filters.from_date@);
    (if filters.group_by@ == "Asset Category"@ {
        seq![column("Asset Category"@, "asset_category"@, "Link"@, "Asset Category"@, 120)]
    } else if filters.group_by@ == "Asset"@ {
        seq![column("Asset"@, "asset"@, "Link"@, "Asset"@, 120), column("Asset Name"@, "asset_name"@, "Data"@, ""@, 140)]
    } else {
        Seq::empty()
    }) + seq![
        column("Value as on "@ + before, "value_as_on_from_date"@, "Currency"@, ""@, 140),
        column("Value of New Purchase"@, "value_of_new_purchase"@, "Currency"@, ""@, 140),
        column("Value of Sold Asset"@, "value_of_sold_asset"@, "Currency"@, ""@, 140),
        column("Value of Scrapped Asset"@, "value_of_scrapped_asset"@, "Currency"@, ""@, 140),
        column("Value of New Capitalized Asset"@, "value_of_capitalized_asset"@, "Currency"@, ""@, 140),
        column("Value as on "@ + filters.to_date@, "value_as_on_to_date"@, "Currency"@, ""@, 140),
        column("Accumulated Depreciation as on "@ + before, "accumulated_depreciation_as_on_from_date"@, "Currency"@, ""@, 270),
        column("Depreciation Amount during the period"@, "depreciation_amount_during_the_period"@, "Currency"@, ""@, 240),
        column("Depreciation Eliminated due to disposal of assets"@, "depreciation_eliminated_during_the_period"@, "Currency"@, ""@, 300),
        column("Accumulated Depreciation as on "@ + filters.to_date@, "accumulated_depreciation_as_on_to_date"@, "Currency"@, ""@, 270),
        column("Depreciation eliminated via reversal"@, "depreciation_eliminated_via_reversal"@, "Currency"@, ""@, 270),
        column("Net Asset value as on "@ + before, "net_asset_value_as_on_from_date"@, "Currency"@, ""@, 200),
        column("Net Asset value as on "@ + filters.to_date@, "net_asset_value_as_on_to_date"@, "Currency"@, ""@, 200),
    ]
}

pub fn get_columns(filters: &AssetDepreciationsAndBalancesFilters) -> (r: Vec<ReportColumn>)
    requires
        date_in_range(filters.from_date@),
    ensures
        r.deep_view() == spec_columns(*filters),
{
    let mut columns: Vec<ReportColumn> = Vec::new();
    if str_eq(filters.group_by.as_str(), "Asset Category") {
        columns.push(ReportColumn::link("Asset Category", "asset_category", "Asset Category", 120));
    } else if str_eq(filters.group_by.as_str(), "Asset") {
        columns.push(ReportColumn::link("Asset", "asset", "Asset", 120));
        columns.push(ReportColumn::data("Asset Name", "asset_name", 140));
    }
    let ghost head = columns.deep_view();
    let day_before_from_date = match add_days(filters.from_date.as_str(), -1) {
        Some(d) => d,
        None => filters.from_date.clone(),
    };
    assert(day_before_from_date@ == day_before(filters.from_date@));
    let before = formatdate(day_before_from_date.as_str());
    let to = formatdate(filters.to_date.as_str());
    columns.push(ReportColumn::currency(concat("Value as on ", before.as_str()).as_str(), "value_as_on_from_date", 140));
    columns.push(ReportColumn::currency("Value of New Purchase", "value_of_new_purchase", 140));
    columns.push(ReportColumn::currency("Value of Sold Asset", "value_of_sold_asset", 140));
    columns.push(ReportColumn::currency("Value of Scrapped Asset", "value_of_scrapped_asset", 140));
    columns.push(ReportColumn::currency("Value of New Capitalized Asset", "value_of_capitalized_asset", 140));
    columns.push(ReportColumn::currency(concat("Value as on ", to.as_str()).as_str(), "value_as_on_to_date", 140));
    columns.push(ReportColumn::currency(concat("Accumulated Depreciation as on ", before.as_str()).as_str(), "accumulated_depreciation_as_on_from_date", 270));
    columns.push(ReportColumn::currency("Depreciation Amount during the period", "depreciation_amount_during_the_period", 240));
    columns.push(ReportColumn::currency("Depreciation Eliminated due to disposal of assets", "depreciation_eliminated_during_the_period", 300));
    columns.push(ReportColumn::currency(concat("Accumulated Depreciation as on ", to.as_str()).as_str(), "accumulated_depreciation_as_on_to_date", 270));
    columns.push(ReportColumn::currency("Depreciation eliminated via reversal", "depreciation_eliminated_via_reversal", 270));
    columns.push(ReportColumn::currency(concat("Net Asset value as on ", before.as_str()).as_str(), "net_asset_value_as_on_from_date", 200));
    columns.push(ReportColumn::currency(concat("Net Asset value as on ", to.as_str()).as_str(), "net_asset_value_as_on_to_date", 200));
    assert(columns.deep_view() =~= spec_columns(*filters));
    columns
}


/// The keys of the combined depreciation rows after the first `n` opening
/// rows: an opening row whose key is already there merges into that row,
/// any other is added at the end.
pub open spec fn combined_keys(gl: Seq<Seq<char>>, opening: Seq<Seq<char>>, n: int) -> Seq<Seq<char>>
    decreases n,
{
    if n <= 0 {
        gl
    } else {
        let prev = combined_keys(gl, opening, n - 1);
        if first_at(prev, opening[n - 1], prev.len() as int) is Some { prev } else { prev.push(opening[n - 1]) }
    }
}

/// For each of the first `n` opening rows, the combined row it goes to: the
/// first with its key, or a new one at the end.
pub open spec fn combine_targets(gl: Seq<Seq<char>>, opening: Seq<Seq<char>>, n: int) -> Seq<usize>
    decreases n,
{
    if n <= 0 {
        Seq::empty()
    } else {
        let prev = combined_keys(gl, opening, n - 1);
        combine_targets(gl, opening, n - 1).push(match first_at(prev, opening[n - 1], prev.len() as int) {
            Some(i) => i as usize,
            None => prev.len() as usize,
        })
    }
}

/// Where the opening depreciation rows go when they are combined with the
/// ledger's rows (keys: the category or the asset): for each, the place of
/// the combined row it adds to, a place past the rows so far meaning a new
/// row at the end.
pub fn combine_depreciation_rows(gl_keys: &[String], opening_keys: &[String]) -> (r: Vec<usize>)
    requires
        gl_keys.len() + opening_keys.len() <= usize::MAX,
    ensures
        r@ == combine_targets(gl_keys.deep_view(), opening_keys.deep_view(), opening_keys.len() as int),
{
    let ghost gl = gl_keys.deep_view();
    let ghost op = opening_keys.deep_view();
    let mut keys: Vec<String> = Vec::new();
    let mut i: usize = 0;
    while i < gl_keys.len()
        invariant
            i <= gl_keys.len(),
            gl == gl_keys.deep_view(),
            keys.deep_view() == gl.subrange(0, i as int),
        decreases gl_keys.len() - i,
    {
        let ghost before = keys.deep_view();
        assert(gl[i as int] == gl_keys@[i as int]@);
        keys.push(owned(gl_keys[i].as_str()));
        assert(keys.deep_view() =~= before.push(gl[i as int]));
        assert(keys.deep_view() =~= gl.subrange(0, i + 1));
        i = i + 1;
    }
    assert(gl.subrange(0, gl_keys.len() as int) =~= gl);
    let mut r: Vec<usize> = Vec::new();
    let mut j: usize = 0;
    while j < opening_keys.len()
        invariant
            j <= opening_keys.len(),
            gl == gl_keys.deep_view(),
            op == opening_keys.deep_view(),
            gl_keys.len() + opening_keys.len() <= usize::MAX,
            keys.deep_view() == combined_keys(gl, op, j as int),
            keys.len() <= gl_keys.len() + j,
            r@ == combine_targets(gl, op, j as int),
        decreases opening_keys.len() - j,
    {
        assert(op[j as int] == opening_keys@[j as int]@);
        match find_first(&keys, opening_keys[j].as_str()) {
            Some(k) => {
                r.push(k);
            },
            None => {
                let n = keys.len();
                r.push(n);
                let ghost before = keys.deep_view();
                keys.push(owned(opening_keys[j].as_str()));
                assert(keys.deep_view() =~= before.push(op[j as int]));
            },
        }
        j = j + 1;
    }
    r
}


/// The place of the last of the first `n` texts equal to `v`: the one a map
/// built from them in order keeps.
pub open spec fn last_at(s: Seq<Seq<char>>, v: Seq<char>, n: int) -> Option<int>
    decreases n,
{
    if n <= 0 {
        None
    } else if s[n - 1] == v {
        Some(n - 1)
    } else {
        last_at(s, v, n - 1)
    }
}

fn find_last(s: &[String], v: &str) -> (r: Option<usize>)
    ensures
        match r {
            Some(i) => last_at(s.deep_view(), v@, s.len() as int) == Some(i as int),
            None => last_at(s.deep_view(), v@, s.len() as int) is None,
        },
{
    let ghost ds = s.deep_view();
    let mut i: usize = s.len();
    while i > 0
        invariant
            i <= s.len(),
            ds == s.deep_view(),
            last_at(ds, v@, s.len() as int) == last_at(ds, v@, i as int),
        decreases i,
    {
        assert(ds[i - 1] == s@[i - 1]@);
        if str_eq(s[i - 1].as_str(), v) {
            return Some(i - 1);
        }
        i = i - 1;
    }
    None
}

/// The rows of the report from the value rows (`value_keys`, by category or
/// asset), the depreciation rows (`depreciation_keys`) and the adjustments
/// (`adjustment_keys`): each value row with a depreciation row of its key
/// gives a row, in order, made of it, the last depreciation row of its key
/// and the last adjustment of its key, if any.
pub open spec fn spec_assemble(value_keys: Seq<Seq<char>>, depreciation_keys: Seq<Seq<char>>,
    adjustment_keys: Seq<Seq<char>>, n: int) -> Seq<(usize, usize, Option<usize>)>
    decreases n,
{
    if n <= 0 {
        Seq::empty()
    } else {
        let k = value_keys[n - 1];
        spec_assemble(value_keys, depreciation_keys, adjustment_keys, n - 1) + match last_at(depreciation_keys, k,
            depreciation_keys.len() as int) {
            Some(d) => seq![((n - 1) as usize, d as usize, match last_at(adjustment_keys, k, adjustment_keys.len() as int) {
                Some(a) => Some(a as usize),
                None => None,
            })],
            None => Seq::empty(),
        }
    }
}

/// Which value, depreciation and adjustment rows make each row of the
/// report (see `spec_assemble`).
pub fn assemble_rows(value_keys: &[String], depreciation_keys: &[String], adjustment_keys: &[String])
    -> (r: Vec<(usize, usize, Option<usize>)>)
    ensures
        r@ == spec_assemble(value_keys.deep_view(), depreciation_keys.deep_view(), adjustment_keys.deep_view(),
            value_keys.len() as int),
{
    let ghost vk = value_keys.deep_view();
    let mut r: Vec<(usize, usize, Option<usize>)> = Vec::new();
    let mut i: usize = 0;
    while i < value_keys.len()
        invariant
            i <= value_keys.len(),
            vk == value_keys.deep_view(),
            r@ == spec_assemble(vk, depreciation_keys.deep_view(), adjustment_keys.deep_view(), i as int),
        decreases value_keys.len() - i,
    {
        assert(vk[i as int] == value_keys@[i as int]@);
        let ghost before = r@;
        match find_last(depreciation_keys, value_keys[i].as_str()) {
            Some(d) => {
                let a = find_last(adjustment_keys, value_keys[i].as_str());
                r.push((i, d, a));
            },
            None => {},
        }
        assert(r@ =~= spec_assemble(vk, depreciation_keys.deep_view(), adjustment_keys.deep_view(), i + 1));
        i = i + 1;
    }
    r
}

} // verus!
