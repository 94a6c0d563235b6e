# tokio_erp

Accounting reports of an ERP system: ledgers, registers, statements and
ageing reports. The library under `src/` holds what the reports decide —
filters, periods, columns, account trees, orderings, groupings, date
arithmetic and text — with contracts proved by Verus. `app/` holds what adds
up money amounts in floating point and builds the rows from those sums; the
choices made on text, dates and keys along the way are calls into the library.

Layout:

- `src/erpnext/accounts/report/<report>/` — one module per report.
- `src/erpnext/accounts/report/financial_statements.rs` — periods, columns,
  the statements' account tree and the rows they show.
- `src/erpnext/accounts/report/group_totals.rs` — the layout of grouped
  registers (subtotals, blank rows, grand total).
- `src/calendar.rs`, `src/text.rs`, `src/order.rs` — dates, text and stable
  ordering shared by the reports.
- `tests/` — tests on concrete values.
- `app/` — the floating-point sums around the library.

`serde_json` is called in `src/` to read version records of documents.
