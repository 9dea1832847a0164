use polyminis_server::json::{object_get, object_insert, object_insert_all, members_copy};
use polyminis_server::Json;

fn s(x: &str) -> String {
    x.to_string()
}

#[test]
fn object_insert_then_get_gives_value() {
    let mut obj: Vec<(String, Json)> = Vec::new();
    object_insert(&mut obj, s("a"), Json::U64(1));
    object_insert(&mut obj, s("b"), Json::Boolean(true));
    assert_eq!(object_get(&obj, &s("a")), Some(&Json::U64(1)));
    assert_eq!(object_get(&obj, &s("b")), Some(&Json::Boolean(true)));
    assert_eq!(object_get(&obj, &s("c")), None);
}

#[test]
fn object_insert_replaces_existing_member() {
    let mut obj: Vec<(String, Json)> = Vec::new();
    object_insert(&mut obj, s("a"), Json::U64(1));
    object_insert(&mut obj, s("a"), Json::I64(-3));
    assert_eq!(obj.len(), 1);
    assert_eq!(object_get(&obj, &s("a")), Some(&Json::I64(-3)));
}

#[test]
fn object_insert_all_later_entries_win() {
    let mut obj: Vec<(String, Json)> = Vec::new();
    let entries = vec![(s("x"), Json::U64(1)), (s("y"), Json::Null), (s("x"), Json::U64(2))];
    object_insert_all(&mut obj, &entries);
    assert_eq!(object_get(&obj, &s("x")), Some(&Json::U64(2)));
    assert_eq!(object_get(&obj, &s("y")), Some(&Json::Null));
}

#[test]
fn deep_copy_is_equal() {
    let value = Json::Object(vec![
        (s("list"), Json::Array(vec![Json::F64Bits(1.5f64.to_bits()), Json::String(s("z"))])),
        (s("n"), Json::I64(-7)),
    ]);
    assert_eq!(value.deep_copy(), value);
    let members = vec![(s("k"), Json::Array(vec![]))];
    assert_eq!(members_copy(&members), members);
}

#[test]
fn as_u64_accepts_non_negative_integers() {
    assert_eq!(Json::U64(5).as_u64(), Some(5));
    assert_eq!(Json::I64(5).as_u64(), Some(5));
    assert_eq!(Json::I64(-1).as_u64(), None);
    assert_eq!(Json::String(s("5")).as_u64(), None);
    assert_eq!(Json::F64Bits(5.0f64.to_bits()).as_u64(), None);
}

#[test]
fn find_reads_object_members_only() {
    let obj = Json::Object(vec![(s("EpochNum"), Json::U64(4))]);
    assert_eq!(obj.find(&s("EpochNum")), Some(&Json::U64(4)));
    assert_eq!(obj.find(&s("Other")), None);
    assert_eq!(Json::Array(vec![]).find(&s("EpochNum")), None);
    assert_eq!(Json::String(s("t")).as_string(), Some(&s("t")));
    assert_eq!(Json::Null.as_string(), None);
}
