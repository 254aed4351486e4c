use container_client::xpc::{XpcDict, XpcObject, XpcType, XpcValue};

fn entry(key: &str, value: XpcValue) -> (String, XpcValue) {
    (key.to_string(), value)
}

#[test]
fn new_dict_holds_nothing() {
    let d = XpcDict::new();
    assert_eq!(d.get_string("k"), None);
    assert_eq!(d.get_data("k"), None);
    assert!(d.get_raw_value("k").is_none());
    assert!(matches!(d.as_ptr().kind, XpcType::Dictionary));
    assert!(d.as_ptr().entries.is_empty());
}

#[test]
fn string_reads_back() {
    let mut d = XpcDict::new();
    d.set_string("name", "value");
    assert_eq!(d.get_string("name"), Some("value".to_string()));
}

#[test]
fn data_reads_back() {
    let mut d = XpcDict::new();
    d.set_data("blob", &[1, 2, 3]);
    assert_eq!(d.get_data("blob"), Some(vec![1, 2, 3]));
}

#[test]
fn empty_data_reads_as_absent() {
    let mut d = XpcDict::new();
    d.set_data("blob", &[]);
    assert_eq!(d.get_data("blob"), None);
    assert!(matches!(d.get_raw_value("blob"), Some(XpcValue::Data(b)) if b.is_empty()));
}

#[test]
fn last_store_wins() {
    let mut d = XpcDict::new();
    d.set_string("k", "first");
    d.set_data("k", b"second");
    assert_eq!(d.get_string("k"), None);
    assert_eq!(d.get_data("k"), Some(b"second".to_vec()));
    d.set_string("k", "third");
    assert_eq!(d.get_string("k"), Some("third".to_string()));
    assert_eq!(d.as_ptr().entries.len(), 1);
}

#[test]
fn other_keys_unchanged() {
    let mut d = XpcDict::new();
    d.set_string("a", "1");
    d.set_string("b", "2");
    d.set_string("a", "3");
    assert_eq!(d.get_string("a"), Some("3".to_string()));
    assert_eq!(d.get_string("b"), Some("2".to_string()));
}

#[test]
fn typed_getters_ignore_other_types() {
    let mut d = XpcDict::new();
    d.set_string("s", "text");
    d.set_data("d", b"bytes");
    assert_eq!(d.get_data("s"), None);
    assert_eq!(d.get_string("d"), None);
}

#[test]
fn key_with_nul_names_nothing() {
    let mut d = XpcDict::new();
    d.set_string("a", "x");
    assert_eq!(d.get_string("a\0"), None);
    d.set_data("b", b"x");
    assert_eq!(d.get_data("b\0"), None);
    assert_eq!(d.get_data("a\0b"), None);
    assert!(d.get_raw_value("\0").is_none());
}

#[test]
fn from_owned_reads_the_object() {
    let obj = XpcObject {
        kind: XpcType::Error,
        entries: vec![
            entry("XPCErrorDescription", XpcValue::String("Connection invalid".to_string())),
            entry("logs", XpcValue::Array(2)),
            entry("other", XpcValue::Other),
        ],
    };
    let d = XpcDict::from_owned(obj);
    assert_eq!(d.get_string("XPCErrorDescription"), Some("Connection invalid".to_string()));
    assert!(matches!(d.get_raw_value("logs"), Some(XpcValue::Array(2))));
    assert!(matches!(d.get_raw_value("other"), Some(XpcValue::Other)));
    assert!(matches!(d.as_ptr().kind, XpcType::Error));
    assert_eq!(d.as_ptr().entries.len(), 3);
}

#[test]
fn raw_value_is_a_copy() {
    let mut d = XpcDict::new();
    d.set_data("blob", &[9, 8]);
    let v = d.get_raw_value("blob");
    assert!(matches!(v, Some(XpcValue::Data(ref b)) if b == &vec![9, 8]));
    assert_eq!(d.get_data("blob"), Some(vec![9, 8]));
}

#[test]
fn read_back_after_other_stores() {
    let mut d = XpcDict::new();
    d.set_string("k", "v");
    d.set_data("blob", b"abc");
    for i in 0..5 {
        d.set_string(&format!("other{i}"), "x");
        d.set_data(&format!("data{i}"), &[i]);
    }
    d.set_string("other0", "y");
    assert_eq!(d.get_string("k"), Some("v".to_string()));
    assert_eq!(d.get_data("blob"), Some(b"abc".to_vec()));
    let copy = d.get_data("blob").unwrap();
    d.set_data("blob", b"changed");
    assert_eq!(copy, b"abc".to_vec());
}
