use service_commons::metrics::{outcome_label, time_sync};
use std::cell::RefCell;

#[test]
fn an_outcome_is_counted_as_ok_or_err() {
    let fine: Result<u8, u8> = Ok(1);
    let failed: Result<u8, u8> = Err(2);
    assert_eq!(outcome_label(&fine), "ok");
    assert_eq!(outcome_label(&failed), "err");
}

#[test]
fn a_timed_action_is_observed_once_and_its_result_returned() {
    let seen: RefCell<Vec<(String, String)>> = RefCell::new(Vec::new());
    let observe = |action: &str, label: &str| {
        seen.borrow_mut().push((action.to_string(), label.to_string()))
    };
    let fine: Result<u8, u8> = time_sync("load", || Ok(7), observe);
    assert_eq!(fine, Ok(7));
    let failed: Result<u8, u8> = time_sync("store", || Err(9), observe);
    assert_eq!(failed, Err(9));
    assert_eq!(
        *seen.borrow(),
        vec![
            ("load".to_string(), "ok".to_string()),
            ("store".to_string(), "err".to_string()),
        ]
    );
}
