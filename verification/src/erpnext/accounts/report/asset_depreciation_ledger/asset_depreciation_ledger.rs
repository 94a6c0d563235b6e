//! Asset depreciation ledger: the filter plan for the depreciation entries
//! of the general ledger, the choice of finance book, and the columns.
use vstd::prelude::*;
use crate::order::{key_view, keys_view, stable_order, stable_sorted};
use crate::text::{concat, lex_less, owned, str_eq, str_less};

verus! {

#[derive(Debug, PartialEq, Eq)]
pub struct DepreciationColumn {
    pub label: &'static str,
    pub fieldname: &'static str,
    pub fieldtype: &'static str,
    pub options: Option<&'static str>,
    pub width: u16,
}

/// label, field name, field type, options, width
pub type ColumnView = (Seq<char>, Seq<char>, Seq<char>, Option<Seq<char>>, u16);

impl DeepView for DepreciationColumn {
    type V = ColumnView;

    open spec fn deep_view(&self) -> ColumnView {
        (self.label@, self.fieldname@, self.fieldtype@, self.options.deep_view(), self.width)
    }
}

pub open spec fn column(label: Seq<char>, fieldname: Seq<char>, fieldtype: Seq<char>, options: Option<Seq<char>>, width: u16) -> ColumnView {
    (label, fieldname, fieldtype, options, width)
}

#[derive(Debug, PartialEq, Eq)]
pub enum FinanceBookSelection {
    Selected(String),
    EmptyOnly,
}

#[derive(Debug, PartialEq, Eq)]
pub struct AssetDepreciationFilters {
    pub company: String,
    pub from_date: String,
    pub to_date: String,
    pub asset: Option<String>,
    pub asset_category: Option<String>,
    pub include_default_book_assets: bool,
    pub finance_book: Option<String>,
}

impl Default for AssetDepreciationFilters {
    fn default() -> (r: Self)
        ensures
            r.company@.len() == 0,
            r.from_date@.len() == 0,
            r.to_date@.len() == 0,
            r.asset is None,
            r.asset_category is None,
            !r.include_default_book_assets,
            r.finance_book is None,
    {
        AssetDepreciationFilters {
            company: String::new(),
            from_date: String::new(),
            to_date: String::new(),
            asset: None,
            asset_category: None,
            include_default_book_assets: false,
            finance_book: None,
        }
    }
}

#[derive(Debug, PartialEq, Eq)]
pub struct AssetDepreciationFilterPlan {
    pub filters: Vec<String>,
    pub or_filters: Vec<String>,
    pub finance_book: FinanceBookSelection,
    pub asset_category_query: Option<String>,
}

impl DepreciationColumn {
    pub fn new(label: &'static str, fieldname: &'static str, fieldtype: &'static str, options: Option<&'static str>, width: u16) -> (r: Self)
        ensures
            r.deep_view() == column(label@, fieldname@, fieldtype@, options.deep_view(), width),
    {
        DepreciationColumn { label, fieldname, fieldtype, options, width }
    }
}

/// The items of a list, each in single quotes, separated by ", ".
pub open spec fn quoted_items(values: Seq<Seq<char>>) -> Seq<char>
    decreases values.len(),
{
    if values.len() == 0 {
        Seq::empty()
    } else if values.len() == 1 {
        "'"@ + values[0] + "'"@
    } else {
        quoted_items(values.drop_last()) + ", '"@ + values.last() + "'"@
    }
}

/// A list written as `['a', 'b']`.
pub open spec fn list_text(values: Seq<Seq<char>>) -> Seq<char> {
    "["@ + quoted_items(values) + "]"@
}

fn format_list(values: &Vec<String>) -> (r: String)
    ensures
        r@ == list_text(values.deep_view()),
{
    let mut items = String::new();
    let mut i: usize = 0;
    while i < values.len()
        invariant
            i <= values@.len(),
            items@ == quoted_items(values.deep_view().subrange(0, i as int)),
        decreases values@.len() - i,
    {
        let ghost sub = values.deep_view().subrange(0, i + 1);
        assert(sub.drop_last() =~= values.deep_view().subrange(0, i as int));
        if i == 0 {
            items.append("'");
        } else {
            items.append(", '");
        }
        items.append(values[i].as_str());
        items.append("'");
        proof {
            if i == 0 {
                assert(items@ =~= "'"@ + sub[0] + "'"@);
            }
        }
        i = i + 1;
    }
    assert(values.deep_view().subrange(0, i as int) =~= values.deep_view());
    let mut r = owned("[");
    r.append(items.as_str());
    r.append("]");
    r
}

pub open spec fn mismatch_message() -> Seq<char> {
    "To use a different finance book, please uncheck 'Include Default FB Assets'"@
}

/// Which finance book the report reads: with default-book assets included,
/// the company's default book (an error when the filters name another one);
/// else the book the filters name; else only entries without a book.
pub open spec fn finance_book_choice(filters: AssetDepreciationFilters, company_book: Option<Seq<char>>) -> Result<Option<Seq<char>>, Seq<char>> {
    if filters.include_default_book_assets && company_book is Some {
        let book = company_book->0;
        match filters.finance_book {
            Some(f) => if f@ != book { Err(mismatch_message()) } else { Ok(Some(book)) },
            None => Ok(Some(book)),
        }
    } else {
        match filters.finance_book {
            Some(f) => Ok(Some(f@)),
            None => Ok(None),
        }
    }
}

pub open spec fn selection_view(s: FinanceBookSelection) -> Option<Seq<char>> {
    match s {
        FinanceBookSelection::Selected(b) => Some(b@),
        FinanceBookSelection::EmptyOnly => None,
    }
}

fn select_finance_book(filters: &AssetDepreciationFilters, company_default_finance_book: Option<&str>) -> (r: Result<FinanceBookSelection, String>)
    ensures
        match finance_book_choice(*filters, company_default_finance_book.deep_view()) {
            Ok(choice) => r matches Ok(s) && selection_view(s) == choice,
            Err(message) => r matches Err(e) && e@ == message,
        },
{
    if filters.include_default_book_assets {
        if let Some(company_book) = company_default_finance_book {
            if let Some(finance_book) = &filters.finance_book {
                if !str_eq(finance_book.as_str(), company_book) {
                    return Err(owned("To use a different finance book, please uncheck 'Include Default FB Assets'"));
                }
            }
            return Ok(FinanceBookSelection::Selected(owned(company_book)));
        }
    }
    match &filters.finance_book {
        Some(finance_book) => Ok(FinanceBookSelection::Selected(finance_book.clone())),
        None => Ok(FinanceBookSelection::EmptyOnly),
    }
}

/// The conditions on general ledger entries, in order.
pub open spec fn plan_filters(filters: AssetDepreciationFilters, depreciation_accounts: Seq<Seq<char>>, assets_for_category: Seq<Seq<char>>) -> Seq<Seq<char>> {
    seq![
        "company = "@ + filters.company@,
        "posting_date >= "@ + filters.from_date@,
        "posting_date <= "@ + filters.to_date@,
        "against_voucher_type = Asset"@,
        "account in "@ + list_text(depreciation_accounts),
        "is_cancelled = 0"@,
    ] + match filters.asset {
        Some(a) => seq!["against_voucher = "@ + a@],
        None => Seq::empty(),
    } + match filters.asset_category {
        Some(c) => seq!["against_voucher in "@ + list_text(assets_for_category)],
        None => Seq::empty(),
    }
}

/// The alternative conditions on the finance book.
pub open spec fn plan_or_filters(choice: Option<Seq<char>>) -> Seq<Seq<char>> {
    match choice {
        Some(book) => seq!["finance_book in ['', '"@ + book + "']"@, "finance_book is not set"@],
        None => seq!["finance_book in ['']"@, "finance_book is not set"@],
    }
}

pub fn get_filter_plan(
    filters: &AssetDepreciationFilters,
    depreciation_accounts: Vec<String>,
    assets_for_category: Vec<String>,
    company_default_finance_book: Option<String>,
) -> (r: Result<AssetDepreciationFilterPlan, String>)
    ensures
        match finance_book_choice(*filters, company_default_finance_book.deep_view()) {
            Ok(choice) => r matches Ok(plan) && {
                &&& plan.filters.deep_view() == plan_filters(*filters, depreciation_accounts.deep_view(), assets_for_category.deep_view())
                &&& plan.or_filters.deep_view() == plan_or_filters(choice)
                &&& selection_view(plan.finance_book) == choice
                &&& plan.asset_category_query.deep_view() == match filters.asset_category {
                    Some(c) => Some("asset_category = "@ + c@ + " and docstatus = 1"@),
                    None => None,
                }
            },
            Err(message) => r matches Err(e) && e@ == message,
        },
{
    let mut filters_data: Vec<String> = Vec::new();
    filters_data.push(concat("company = ", filters.company.as_str()));
    filters_data.push(concat("posting_date >= ", filters.from_date.as_str()));
    filters_data.push(concat("posting_date <= ", filters.to_date.as_str()));
    filters_data.push(owned("against_voucher_type = Asset"));
    let accounts = format_list(&depreciation_accounts);
    filters_data.push(concat("account in ", accounts.as_str()));
    filters_data.push(owned("is_cancelled = 0"));
    if let Some(asset) = &filters.asset {
        filters_data.push(concat("against_voucher = ", asset.as_str()));
    }
    let asset_category_query = match &filters.asset_category {
        Some(asset_category) => {
            let assets = format_list(&assets_for_category);
            filters_data.push(concat("against_voucher in ", assets.as_str()));
            let mut query = concat("asset_category = ", asset_category.as_str());
            query.append(" and docstatus = 1");
            Some(query)
        },
        None => None,
    };
    assert(filters_data.deep_view() =~= plan_filters(*filters, depreciation_accounts.deep_view(), assets_for_category.deep_view()));
    let company_book: Option<&str> = match &company_default_finance_book {
        Some(b) => Some(b.as_str()),
        None => None,
    };
    assert(company_book.deep_view() == company_default_finance_book.deep_view());
    let finance_book = match select_finance_book(filters, company_book) {
        Ok(f) => f,
        Err(e) => return Err(e),
    };
    let or_filters = match &finance_book {
        FinanceBookSelection::Selected(book) => {
            let mut first = concat("finance_book in ['', '", book.as_str());
            first.append("']");
            vec![first, owned("finance_book is not set")]
        },
        FinanceBookSelection::EmptyOnly => vec![owned("finance_book in ['']"), owned("finance_book is not set")],
    };
    assert(or_filters.deep_view() =~= plan_or_filters(selection_view(finance_book)));
    Ok(AssetDepreciationFilterPlan { filters: filters_data, or_filters, finance_book, asset_category_query })
}

pub open spec fn spec_columns() -> Seq<ColumnView> {
    seq![
        column("Asset"@, "asset"@, "Link"@, Some("Asset"@), 120),
        column("Asset Name"@, "asset_name"@, "Data"@, None, 140),
        column("Depreciation Date"@, "depreciation_date"@, "Date"@, None, 120),
        column("Purchase Amount"@, "net_purchase_amount"@, "Currency"@, None, 120),
        column("Opening Accumulated Depreciation"@, "opening_accumulated_depreciation"@, "Currency"@, None, 140),
        column("Depreciation Amount"@, "depreciation_amount"@, "Currency"@, None, 140),
        column("Accumulated Depreciation Amount"@, "accumulated_depreciation_amount"@, "Currency"@, None, 210),
        column("Value After Depreciation"@, "value_after_depreciation"@, "Currency"@, None, 180),
        column("Depreciation Entry"@, "depreciation_entry"@, "Link"@, Some("Journal Entry"@), 140),
        column("Asset Category"@, "asset_category"@, "Link"@, Some("Asset Category"@), 120),
        column("Cost Center"@, "cost_center"@, "Link"@, Some("Cost Center"@), 100),
        column("Current Status"@, "status"@, "Data"@, None, 120),
        column("Purchase Date"@, "purchase_date"@, "Date"@, None, 120),
    ]
}

pub fn get_columns() -> (r: Vec<DepreciationColumn>)
    ensures
        r.deep_view() == spec_columns(),
{
    let r = vec![
        DepreciationColumn::new("Asset", "asset", "Link", Some("Asset"), 120),
        DepreciationColumn::new("Asset Name", "asset_name", "Data", None, 140),
        DepreciationColumn::new("Depreciation Date", "depreciation_date", "Date", None, 120),
        DepreciationColumn::new("Purchase Amount", "net_purchase_amount", "Currency", None, 120),
        DepreciationColumn::new("Opening Accumulated Depreciation", "opening_accumulated_depreciation", "Currency", None, 140),
        DepreciationColumn::new("Depreciation Amount", "depreciation_amount", "Currency", None, 140),
        DepreciationColumn::new("Accumulated Depreciation Amount", "accumulated_depreciation_amount", "Currency", None, 210),
        DepreciationColumn::new("Value After Depreciation", "value_after_depreciation", "Currency", None, 180),
        DepreciationColumn::new("Depreciation Entry", "depreciation_entry", "Link", Some("Journal Entry"), 140),
        DepreciationColumn::new("Asset Category", "asset_category", "Link", Some("Asset Category"), 120),
        DepreciationColumn::new("Cost Center", "cost_center", "Link", Some("Cost Center"), 100),
        DepreciationColumn::new("Current Status", "status", "Data", None, 120),
        DepreciationColumn::new("Purchase Date", "purchase_date", "Date", None, 120),
    ];
    assert(r.deep_view() =~= spec_columns());
    r
}

/// What the ledger's selection reads of a depreciation entry.
#[derive(Debug, PartialEq, Eq)]
pub struct DepreciationEntryKeys {
    pub against_voucher: String,
    pub posting_date: String,
    pub finance_book: Option<String>,
    pub company: String,
    pub against_voucher_type: String,
    pub account: String,
    pub is_cancelled: bool,
}

/// An entry without a finance book always counts; one with a book only when
/// that book is the one selected.
pub open spec fn book_counts(selection: FinanceBookSelection, book: Option<String>) -> bool {
    (match book { Some(b) => b@.len() == 0, None => true }) || match selection {
        FinanceBookSelection::Selected(s) => book matches Some(b) && b@ == s@,
        FinanceBookSelection::EmptyOnly => false,
    }
}

/// A depreciation entry the ledger shows: of the company, within the dates,
/// against an asset, on a depreciation account, not cancelled, of the asset
/// and category filtered on, and of a finance book that counts.
pub open spec fn entry_shown(f: AssetDepreciationFilters, selection: FinanceBookSelection, accounts: Seq<Seq<char>>,
    category_assets: Seq<Seq<char>>, e: DepreciationEntryKeys) -> bool
{
    &&& e.company@ == f.company@
    &&& !lex_less(e.posting_date@, f.from_date@)
    &&& !lex_less(f.to_date@, e.posting_date@)
    &&& e.against_voucher_type@ == "Asset"@
    &&& accounts.contains(e.account@)
    &&& !e.is_cancelled
    &&& (f.asset matches Some(a) ==> e.against_voucher@ == a@)
    &&& (f.asset_category is Some ==> category_assets.contains(e.against_voucher@))
    &&& book_counts(selection, e.finance_book)
}

pub open spec fn shown_indices(f: AssetDepreciationFilters, selection: FinanceBookSelection, accounts: Seq<Seq<char>>,
    category_assets: Seq<Seq<char>>, entries: Seq<DepreciationEntryKeys>, m: nat) -> Seq<int>
    decreases m,
{
    if m == 0 {
        Seq::empty()
    } else {
        let before = shown_indices(f, selection, accounts, category_assets, entries, (m - 1) as nat);
        if entry_shown(f, selection, accounts, category_assets, entries[m - 1]) { before.push(m - 1) } else { before }
    }
}

/// The entries shown, as indices, ordered by asset then posting date (entries
/// that tie keep their order).
pub open spec fn spec_filtered_entries(f: AssetDepreciationFilters, selection: FinanceBookSelection, accounts: Seq<Seq<char>>,
    category_assets: Seq<Seq<char>>, entries: Seq<DepreciationEntryKeys>) -> Seq<int>
{
    let kept = shown_indices(f, selection, accounts, category_assets, entries, entries.len());
    let keys = Seq::new(kept.len(), |j: int| seq![Some(entries[kept[j]].against_voucher@), Some(entries[kept[j]].posting_date@)]);
    Seq::new(kept.len(), |j: int| kept[stable_sorted(keys, false, kept.len())[j]])
}

fn listed(items: &[String], key: &str) -> (r: bool)
    ensures
        r == items.deep_view().contains(key@),
{
    let mut i: usize = 0;
    while i < items.len()
        invariant
            i <= items@.len(),
            forall|j: int| 0 <= j < i ==> #[trigger] items.deep_view()[j] != key@,
        decreases items@.len() - i,
    {
        if str_eq(items[i].as_str(), key) {
            assert(items.deep_view()[i as int] == key@);
            return true;
        }
        i = i + 1;
    }
    false
}

fn book_ok(selection: &FinanceBookSelection, book: &Option<String>) -> (r: bool)
    ensures
        r == book_counts(*selection, *book),
{
    let empty = match book {
        Some(b) => b.as_str().is_empty(),
        None => true,
    };
    empty || match selection {
        FinanceBookSelection::Selected(s) => match book {
            Some(b) => str_eq(b.as_str(), s.as_str()),
            None => false,
        },
        FinanceBookSelection::EmptyOnly => false,
    }
}

/// The depreciation entries the ledger shows, as indices into `entries`, by
/// asset and then posting date.
pub fn filtered_gl_entries(entries: &[DepreciationEntryKeys], filters: &AssetDepreciationFilters, plan: &AssetDepreciationFilterPlan,
    depreciation_accounts: &[String], assets_for_category: &[String]) -> (r: Vec<usize>)
    ensures
        r@.map_values(|v: usize| v as int) == spec_filtered_entries(*filters, plan.finance_book, depreciation_accounts.deep_view(),
            assets_for_category.deep_view(), entries@),
{
    let ghost acc = depreciation_accounts.deep_view();
    let ghost cat = assets_for_category.deep_view();
    let mut kept: Vec<usize> = Vec::new();
    let mut i: usize = 0;
    while i < entries.len()
        invariant
            i <= entries@.len(),
            acc == depreciation_accounts.deep_view(),
            cat == assets_for_category.deep_view(),
            kept@.map_values(|v: usize| v as int) == shown_indices(*filters, plan.finance_book, acc, cat, entries@, i as nat),
            forall|j: int| 0 <= j < kept@.len() ==> #[trigger] kept@[j] < i,
        decreases entries@.len() - i,
    {
        let e = &entries[i];
        let ok = str_eq(e.company.as_str(), filters.company.as_str())
            && !str_less(e.posting_date.as_str(), filters.from_date.as_str())
            && !str_less(filters.to_date.as_str(), e.posting_date.as_str())
            && str_eq(e.against_voucher_type.as_str(), "Asset")
            && listed(depreciation_accounts, e.account.as_str())
            && !e.is_cancelled
            && match &filters.asset { Some(a) => str_eq(e.against_voucher.as_str(), a.as_str()), None => true }
            && (filters.asset_category.is_none() || listed(assets_for_category, e.against_voucher.as_str()))
            && book_ok(&plan.finance_book, &e.finance_book);
        if ok {
            let ghost before = kept@.map_values(|v: usize| v as int);
            kept.push(i);
            assert(kept@.map_values(|v: usize| v as int) =~= before.push(i as int));
        }
        i = i + 1;
    }
    let ghost kept_view = kept@.map_values(|v: usize| v as int);
    let ghost want = Seq::new(kept_view.len(), |j: int| seq![Some(entries@[kept_view[j]].against_voucher@), Some(entries@[kept_view[j]].posting_date@)]);
    let mut keys: Vec<Vec<Option<String>>> = Vec::new();
    let mut j: usize = 0;
    while j < kept.len()
        invariant
            j <= kept@.len(),
            kept_view == kept@.map_values(|v: usize| v as int),
            want == Seq::new(kept_view.len(), |q: int| seq![Some(entries@[kept_view[q]].against_voucher@), Some(entries@[kept_view[q]].posting_date@)]),
            forall|q: int| 0 <= q < kept@.len() ==> #[trigger] kept@[q] < entries@.len(),
            keys_view(keys@) == want.subrange(0, j as int),
        decreases kept@.len() - j,
    {
        let e = &entries[kept[j]];
        let k = vec![Some(e.against_voucher.clone()), Some(e.posting_date.clone())];
        let ghost before = keys@;
        assert(kept_view[j as int] == kept@[j as int] as int);
        keys.push(k);
        assert(keys@ == before.push(k));
        assert(key_view(k@) =~= want[j as int]);
        assert(keys_view(keys@) =~= keys_view(before).push(key_view(k@)));
        assert(keys_view(keys@) =~= want.subrange(0, j + 1));
        j = j + 1;
    }
    assert(want.subrange(0, j as int) =~= want);
    let order = stable_order(&keys, false);
    let ghost ord = stable_sorted(keys_view(keys@), false, keys@.len());
    let mut out: Vec<usize> = Vec::new();
    let mut q: usize = 0;
    while q < order.len()
        invariant
            q <= order@.len(),
            order@.len() == keys@.len(),
            keys@.len() == kept@.len(),
            ord == order@.map_values(|v: usize| v as int),
            forall|x: int| 0 <= x < order@.len() ==> #[trigger] order@[x] < keys@.len(),
            out@.map_values(|v: usize| v as int) == Seq::new(q as nat, |x: int| kept_view[ord[x]]),
            kept_view == kept@.map_values(|v: usize| v as int),
        decreases order@.len() - q,
    {
        let ghost before = out@.map_values(|v: usize| v as int);
        assert(ord[q as int] == order@[q as int] as int);
        assert(kept_view[ord[q as int]] == kept@[order@[q as int] as int] as int);
        out.push(kept[order[q]]);
        assert(out@.map_values(|v: usize| v as int) =~= before.push(kept_view[ord[q as int]]));
        assert(out@.map_values(|v: usize| v as int) =~= Seq::new((q + 1) as nat, |x: int| kept_view[ord[x]]));
        q = q + 1;
    }
    out
}

} // verus!
