use ariax_engine::json::{owned_bytes_of, owned_value_bytes, Json, JsonField, JsonText};
use ariax_engine::rpc_result::{measure, to_value, Meter, ResultList};

const RESULT_VALUE_BYTES: usize = 8 * 1024 * 1024;

fn text(value: String) -> Json {
    Json::Text(JsonText { text: value, gid: None, challenge: None, fingerprint: None, persistable: false })
}

fn field(name: &str, value: Json) -> JsonField {
    JsonField { name: name.to_owned(), value }
}

fn view() -> Json {
    Json::Object(vec![
        field("uri", text("https://example.test/file".to_owned())),
        field("values", Json::Array(vec![Json::Unsigned(1), Json::Unsigned(2), Json::Unsigned(3)])),
        field("optional", Json::Bool(true)),
    ])
}

#[test]
fn measured_borrowed_results_match_json_and_bound_owned_layout() {
    let bytes = measure(&view(), RESULT_VALUE_BYTES).expect("measure");
    let value = to_value(view(), bytes).expect("exact budget");
    assert_eq!(value, view());
    assert!(owned_value_bytes(&value) <= bytes);
    assert!(to_value(view(), bytes - 1).is_err());
}

#[test]
fn excessive_sequence_rejects_before_materialization_pass() {
    let mut meter = Meter { used: 0, limit: 1024 };
    assert!(meter.container(Some(usize::MAX)).is_err());
    let mut list = ResultList::new(1024);
    assert!(list.push(text("short".to_owned())).is_ok());
    assert!(list.push(text("x".repeat(1024))).is_err());
    assert_eq!(list.finish(), Json::Array(vec![text("short".to_owned())]));
}

fn nested(width: usize, string_bytes: usize, depth: usize) -> Json {
    if depth == 0 {
        return text("x".repeat(string_bytes));
    }
    if depth % 2 == 1 {
        Json::Array((0..width).map(|_| nested(width, string_bytes, depth - 1)).collect())
    } else {
        Json::Object(vec![
            field("nested", nested(width, string_bytes, depth - 1)),
            field("bool", Json::Bool(true)),
            field("number", Json::Unsigned(u64::MAX)),
            field("optional", Json::Null),
        ])
    }
}

#[test]
fn measured_layout_dominates_materialized_json_across_nested_shapes() {
    for width in [0, 1, 2, 7, 16, 64] {
        for string_bytes in [0, 1, 31, 256, 4096] {
            for depth in 1..5 {
                let value = nested(width, string_bytes, depth);
                if let Ok(projected) = measure(&value, RESULT_VALUE_BYTES) {
                    assert!(owned_value_bytes(&value) <= projected);
                    assert!(to_value(nested(width, string_bytes, depth), projected - 1).is_err());
                    let kept = to_value(value, projected).expect("exact measured allowance");
                    assert_eq!(kept, nested(width, string_bytes, depth));
                }
            }
        }
    }
}

#[test]
fn values_that_were_built_already_are_charged_for_what_they_own() {
    let mut list = ResultList::new(1024);
    assert!(list.push_scratch(Json::Array(vec![Json::Null])).is_ok());
    assert_eq!(list.remaining(), 1024 - 256 - 512);
    assert!(list.push_scratch(Json::Array(vec![Json::Null])).is_err());
    assert!(list.push_sized(Json::Null, 256).is_ok());
    assert_eq!(list.remaining(), 0);
    assert!(list.push_sized(Json::Null, 1).is_err());
}

#[test]
fn owned_values_are_counted_by_their_rooms() {
    let value = Json::Array(vec![
        text("ab".to_owned()),
        Json::Null,
        Json::Object(vec![field("name", text("cde".to_owned()))]),
    ]);
    assert_eq!(owned_bytes_of(&value, &vec![2, 4, 3]), 6 * 256 + 9);
    assert_eq!(owned_bytes_of(&value, &vec![20, 40, 30]), 6 * 256 + 90);
    assert_eq!(owned_bytes_of(&value, &vec![usize::MAX, 1, 1]), usize::MAX);
    assert_eq!(owned_bytes_of(&Json::Bool(true), &Vec::new()), 256);
    assert!(owned_value_bytes(&value) >= 6 * 256 + 9);
    let measured = measure(&value, RESULT_VALUE_BYTES).expect("measured");
    assert_eq!(measured, 6 * 256 + 18);
    assert!(owned_bytes_of(&value, &vec![4, 8, 6]) <= measured);
}
