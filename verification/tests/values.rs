use user_service::decimal::parse;
use user_service::handlers::{add_user, get_user};
use user_service::reply::{Body, Status};
use user_service::startup::create_username_index;
use user_service::store::UserStore;
use user_service::user::{Field, FieldValue, User};

#[test]
fn parse_reads_decimal_notation() {
    assert_eq!(parse("0"), Some(0));
    assert_eq!(parse("7"), Some(7));
    assert_eq!(parse("30"), Some(30));
    assert_eq!(parse("-1"), Some(-1));
    assert_eq!(parse("-120"), Some(-120));
    assert_eq!(parse("1000000"), Some(1_000_000));
}

#[test]
fn parse_reads_the_extremes() {
    assert_eq!(parse("9223372036854775807"), Some(i64::MAX));
    assert_eq!(parse("-9223372036854775808"), Some(i64::MIN));
    assert_eq!(parse("-9223372036854775807"), Some(i64::MIN + 1));
}

#[test]
fn parse_refuses_what_does_not_fit() {
    assert_eq!(parse("9223372036854775808"), None);
    assert_eq!(parse("-9223372036854775809"), None);
    assert_eq!(parse("18446744073709551616"), None);
    assert_eq!(parse("99999999999999999999999999999999999999"), None);
    assert_eq!(parse("-99999999999999999999999999999999999999"), None);
}

#[test]
fn parse_refuses_other_spellings() {
    for text in ["", "-", "--1", "+30", "030", "00", "-0", "-01", " 30", "30 ", "3 0", "3a", "a3",
        "1e3", "1.0", "0x10", "1_000", "３０", "٣", "1-", "true"]
    {
        assert_eq!(parse(text), None, "{text:?}");
    }
}

#[test]
fn parse_reads_back_what_is_written() {
    let mut n: i64 = -2500;
    while n <= 2500 {
        assert_eq!(parse(&n.to_string()), Some(n));
        n += 1;
    }
    for shift in 0..63 {
        let n = 1i64 << shift;
        assert_eq!(parse(&n.to_string()), Some(n));
        assert_eq!(parse(&(-n).to_string()), Some(-n));
        assert_eq!(parse(&(n - 1).to_string()), Some(n - 1));
    }
}

#[test]
fn value_from_text() {
    assert_eq!(FieldValue::from_text("30".to_string()), FieldValue::Integer(30));
    assert_eq!(FieldValue::from_text("-4".to_string()), FieldValue::Integer(-4));
    assert_eq!(FieldValue::from_text("alice".to_string()), FieldValue::Text("alice".to_string()));
    assert_eq!(FieldValue::from_text("030".to_string()), FieldValue::Text("030".to_string()));
    assert_eq!(FieldValue::from_text(String::new()), FieldValue::Text(String::new()));
    assert_eq!(FieldValue::from_text("true".to_string()), FieldValue::Text("true".to_string()));
    assert_eq!(
        FieldValue::from_text("9223372036854775808".to_string()),
        FieldValue::Text("9223372036854775808".to_string())
    );
}

#[test]
fn submitted_form_comes_back_as_submitted() {
    // username=alice&age=30
    let form = User {
        username: "alice".to_string(),
        profile: vec![Field { name: "age".to_string(), value: FieldValue::from_text("30".to_string()) }],
    };
    let mut store = UserStore::new();
    create_username_index(&mut store).unwrap();
    let added = add_user(&mut store, form);
    assert_eq!(added.status.code(), 200);
    assert_eq!(added.body, Body::Text("user added".to_string()));

    let found = get_user(&store, "alice");
    assert_eq!(found.status, Status::Success);
    assert_eq!(
        found.body,
        Body::Record(User {
            username: "alice".to_string(),
            profile: vec![Field { name: "age".to_string(), value: FieldValue::Integer(30) }],
        })
    );
}
