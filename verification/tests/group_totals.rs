use tokio_erp::erpnext::accounts::report::group_totals::{group_layout, GroupStep};

fn values(items: &[&str]) -> Vec<String> {
    items.iter().map(|s| s.to_string()).collect()
}

#[test]
fn ungrouped_listing_is_rows_only() {
    let steps = group_layout(&values(&["a", "b"]), false);
    assert_eq!(steps, vec![GroupStep::Row(0), GroupStep::Row(1)]);
}

#[test]
fn grouped_listing_closes_each_run() {
    let steps = group_layout(&values(&["a", "a", "b"]), true);
    assert_eq!(
        steps,
        vec![
            GroupStep::Open(0),
            GroupStep::Row(0),
            GroupStep::Row(1),
            GroupStep::Close(1),
            GroupStep::Open(2),
            GroupStep::Row(2),
            GroupStep::Close(2),
            GroupStep::GrandTotal,
        ]
    );
}

#[test]
fn grouped_listing_of_nothing_is_empty() {
    assert_eq!(group_layout(&Vec::new(), true), Vec::<GroupStep>::new());
}

#[test]
fn empty_group_value_is_never_closed_between_runs() {
    // The first run has no group value: it starts no subtotal and none is
    // closed for it; a later run without value is started but not closed
    // when the next run begins.
    let steps = group_layout(&values(&["", "x", "", "y"]), true);
    assert_eq!(
        steps,
        vec![
            GroupStep::Row(0),
            GroupStep::Open(1),
            GroupStep::Row(1),
            GroupStep::Close(1),
            GroupStep::Open(2),
            GroupStep::Row(2),
            GroupStep::Open(3),
            GroupStep::Row(3),
            GroupStep::Close(3),
            GroupStep::GrandTotal,
        ]
    );
}

#[test]
fn all_rows_without_group_value_have_no_totals() {
    let steps = group_layout(&values(&["", ""]), true);
    assert_eq!(steps, vec![GroupStep::Row(0), GroupStep::Row(1)]);
}
