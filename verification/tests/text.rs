use remote_table::describe;
use remote_table::text::{push_decimal, push_limit};

fn decimal(n: u64) -> String {
    let mut out = String::new();
    push_decimal(&mut out, n);
    out
}

#[test]
fn decimal_digits() {
    assert_eq!(decimal(0), "0");
    assert_eq!(decimal(7), "7");
    assert_eq!(decimal(10), "10");
    assert_eq!(decimal(1234567890), "1234567890");
    assert_eq!(decimal(u64::MAX), "18446744073709551615");
}

#[test]
fn decimal_appends_to_what_is_there() {
    let mut out = String::from("n=");
    push_decimal(&mut out, 405);
    assert_eq!(out, "n=405");
}

#[test]
fn limit_is_shown_as_an_option() {
    let mut out = String::new();
    push_limit(&mut out, None);
    assert_eq!(out, "None");
    let mut out = String::new();
    push_limit(&mut out, Some(5));
    assert_eq!(out, "Some(5)");
    let mut out = String::new();
    push_limit(&mut out, Some(0));
    assert_eq!(out, "Some(0)");
    assert_eq!(out, format!("{:?}", Some(0usize)));
}

#[test]
fn description_without_filters() {
    assert_eq!(describe(None, &vec![]), "RemoteTableExec: limit=None, filters=[]");
}

#[test]
fn description_with_one_filter() {
    assert_eq!(
        describe(Some(12), &vec!["a IS NULL".to_string()]),
        "RemoteTableExec: limit=Some(12), filters=[a IS NULL]"
    );
}

#[test]
fn description_with_limit_and_filters() {
    let texts = vec!["id > Int32(10)".to_string(), "name = Utf8(\"x\")".to_string()];
    assert_eq!(
        describe(Some(5), &texts),
        "RemoteTableExec: limit=Some(5), filters=[id > Int32(10), name = Utf8(\"x\")]"
    );
}
