use tokio_erp::erpnext::accounts::report::pos_register::pos_register::{group_entries, group_value, PosGroupKeys, PosStep};

fn keys(profile: &str, mode: Option<&str>) -> PosGroupKeys {
    PosGroupKeys {
        pos_profile: profile.to_string(),
        owner: "admin".to_string(),
        customer: "Walk-in".to_string(),
        mode_of_payment: mode.map(|m| m.to_string()),
    }
}

#[test]
fn group_values_by_field() {
    let k = keys("Main", Some("Cash"));
    assert_eq!(group_value(&k, "pos_profile"), "Main");
    assert_eq!(group_value(&k, "owner"), "admin");
    assert_eq!(group_value(&k, "customer"), "Walk-in");
    assert_eq!(group_value(&k, "mode_of_payment"), "Cash");
    assert_eq!(group_value(&keys("Main", None), "mode_of_payment"), "");
    assert_eq!(group_value(&k, "company"), "");
}

#[test]
fn entries_are_grouped_in_order_of_first_appearance() {
    let values = vec!["B".to_string(), "A".to_string(), "B".to_string(), "".to_string()];
    assert_eq!(
        group_entries(&values),
        vec![
            PosStep::Row(0),
            PosStep::Row(2),
            PosStep::Subtotal(0),
            PosStep::Row(1),
            PosStep::Subtotal(1),
            PosStep::Row(3),
            PosStep::Subtotal(3),
        ]
    );
    assert_eq!(group_entries(&[]), vec![]);
}
