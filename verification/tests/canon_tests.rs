use json_diff_fuzz::canon::{bytes_equal, canonical_equal, json_equal, key_le, sort_json, sort_json_value, JsonMember, JsonNode};

fn member(key: &[u8], value: JsonNode) -> JsonMember {
    JsonMember { key: key.to_vec(), value }
}

#[test]
fn key_order_is_lexicographic() {
    assert!(key_le(&b"a".to_vec(), &b"b".to_vec()));
    assert!(!key_le(&b"b".to_vec(), &b"a".to_vec()));
    assert!(key_le(&b"a".to_vec(), &b"a".to_vec()));
    assert!(key_le(&b"a".to_vec(), &b"ab".to_vec()));
    assert!(!key_le(&b"ab".to_vec(), &b"a".to_vec()));
    assert!(key_le(&b"".to_vec(), &b"a".to_vec()));
}

#[test]
fn bytes_equal_cases() {
    assert!(bytes_equal(&b"abc".to_vec(), &b"abc".to_vec()));
    assert!(!bytes_equal(&b"abc".to_vec(), &b"abd".to_vec()));
    assert!(!bytes_equal(&b"abc".to_vec(), &b"ab".to_vec()));
    assert!(bytes_equal(&Vec::new(), &Vec::new()));
}

#[test]
fn sorting_orders_object_keys() {
    let doc = JsonNode::Obj(vec![
        member(b"z", JsonNode::Str(b"last".to_vec())),
        member(b"a", JsonNode::Str(b"first".to_vec())),
        member(b"m", JsonNode::Str(b"middle".to_vec())),
    ]);
    let sorted = sort_json_value(doc);
    let expected = JsonNode::Obj(vec![
        member(b"a", JsonNode::Str(b"first".to_vec())),
        member(b"m", JsonNode::Str(b"middle".to_vec())),
        member(b"z", JsonNode::Str(b"last".to_vec())),
    ]);
    assert_eq!(sorted, expected);
}

#[test]
fn sorting_recurses_into_nested_values() {
    let doc = JsonNode::Obj(vec![
        member(
            b"nested",
            JsonNode::Obj(vec![
                member(b"y", JsonNode::Num(b"2".to_vec())),
                member(b"x", JsonNode::Num(b"1".to_vec())),
            ]),
        ),
        member(
            b"a",
            JsonNode::Arr(vec![
                JsonNode::Num(b"3".to_vec()),
                JsonNode::Obj(vec![
                    member(b"z", JsonNode::Num(b"0".to_vec())),
                    member(b"a", JsonNode::Num(b"1".to_vec())),
                ]),
            ]),
        ),
    ]);
    let sorted = sort_json(&doc);
    let expected = JsonNode::Obj(vec![
        member(
            b"a",
            JsonNode::Arr(vec![
                JsonNode::Num(b"3".to_vec()),
                JsonNode::Obj(vec![
                    member(b"a", JsonNode::Num(b"1".to_vec())),
                    member(b"z", JsonNode::Num(b"0".to_vec())),
                ]),
            ]),
        ),
        member(
            b"nested",
            JsonNode::Obj(vec![
                member(b"x", JsonNode::Num(b"1".to_vec())),
                member(b"y", JsonNode::Num(b"2".to_vec())),
            ]),
        ),
    ]);
    assert_eq!(sorted, expected);
}

#[test]
fn later_duplicate_key_wins() {
    let doc = JsonNode::Obj(vec![
        member(b"k", JsonNode::Num(b"1".to_vec())),
        member(b"k", JsonNode::Num(b"2".to_vec())),
    ]);
    let sorted = sort_json_value(doc);
    let expected = JsonNode::Obj(vec![member(b"k", JsonNode::Num(b"2".to_vec()))]);
    assert_eq!(sorted, expected);
}

#[test]
fn scalars_are_untouched() {
    assert_eq!(sort_json(&JsonNode::Null), JsonNode::Null);
    assert_eq!(sort_json(&JsonNode::Bool(true)), JsonNode::Bool(true));
    assert_eq!(
        sort_json(&JsonNode::Num(b"1.5e3".to_vec())),
        JsonNode::Num(b"1.5e3".to_vec())
    );
    assert_eq!(
        sort_json(&JsonNode::Arr(vec![JsonNode::Bool(false), JsonNode::Null])),
        JsonNode::Arr(vec![JsonNode::Bool(false), JsonNode::Null])
    );
}

#[test]
fn sorting_is_idempotent_on_an_example() {
    let doc = JsonNode::Obj(vec![
        member(b"b", JsonNode::Num(b"1".to_vec())),
        member(b"a", JsonNode::Num(b"2".to_vec())),
    ]);
    let once = sort_json(&doc);
    let twice = sort_json(&once);
    assert_eq!(once, twice);
}

#[test]
fn deep_equality_is_structural() {
    let a = JsonNode::Obj(vec![member(b"k", JsonNode::Arr(vec![JsonNode::Bool(true)]))]);
    let b = JsonNode::Obj(vec![member(b"k", JsonNode::Arr(vec![JsonNode::Bool(true)]))]);
    let c = JsonNode::Obj(vec![member(b"k", JsonNode::Arr(vec![JsonNode::Bool(false)]))]);
    assert!(json_equal(&a, &b));
    assert!(!json_equal(&a, &c));
    assert!(!json_equal(&JsonNode::Null, &JsonNode::Bool(false)));
    assert!(!json_equal(&a, &JsonNode::Obj(vec![])));
}

#[test]
fn canonical_equality_ignores_key_order() {
    let a = JsonNode::Obj(vec![
        member(b"a", JsonNode::Num(b"1".to_vec())),
        member(b"b", JsonNode::Num(b"2".to_vec())),
    ]);
    let b = JsonNode::Obj(vec![
        member(b"b", JsonNode::Num(b"2".to_vec())),
        member(b"a", JsonNode::Num(b"1".to_vec())),
    ]);
    let c = JsonNode::Obj(vec![
        member(b"a", JsonNode::Num(b"1".to_vec())),
        member(b"b", JsonNode::Num(b"3".to_vec())),
    ]);
    assert!(canonical_equal(&a, &b));
    assert!(!canonical_equal(&a, &c));
    // a duplicated key equals the document that only keeps the later value
    let dup = JsonNode::Obj(vec![
        member(b"a", JsonNode::Num(b"0".to_vec())),
        member(b"a", JsonNode::Num(b"1".to_vec())),
        member(b"b", JsonNode::Num(b"2".to_vec())),
    ]);
    assert!(canonical_equal(&dup, &a));
}
