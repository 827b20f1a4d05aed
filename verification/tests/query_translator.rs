//! Parsing of WQL queries in the MySQL storage's dialect.
use aurorastorage::mysql_storage::query_translator::{parse_from_json, Operator};

use std::collections::hash_map::RandomState;
use std::hash::{BuildHasher, Hasher};

/// A string of `len` random letters and digits.
fn random_string(len: usize) -> String {
    let alphabet: Vec<char> = "ABCDEFGHIJKLMNOPQRSTUVWXYZabcdefghijklmnopqrstuvwxyz0123456789".chars().collect();
    let mut result = String::new();
    while result.len() < len {
        let mut hasher = RandomState::new().build_hasher();
        hasher.write_usize(result.len());
        let mut bits = hasher.finish();
        for _ in 0..8 {
            if result.len() == len {
                break;
            }
            result.push(alphabet[(bits % 62) as usize]);
            bits /= 62;
        }
    }
    result
}

/// Whether each item of `a` is matched by one of `b` and the other way round.
fn same_items<T, F: Fn(&T, &T) -> bool>(a: &[T], b: &[T], eq: F) -> bool {
    a.iter().all(|x| b.iter().any(|y| eq(x, y))) && b.iter().all(|y| a.iter().any(|x| eq(x, y)))
}

/// Equality of queries in which the order of the members of `$and`, `$or`
/// and `$in` does not count.
fn same_query(a: &Operator, b: &Operator) -> bool {
    match (a, b) {
        (Operator::Eq(n, v), Operator::Eq(m, w))
        | (Operator::Neq(n, v), Operator::Neq(m, w))
        | (Operator::Gt(n, v), Operator::Gt(m, w))
        | (Operator::Gte(n, v), Operator::Gte(m, w))
        | (Operator::Lt(n, v), Operator::Lt(m, w))
        | (Operator::Lte(n, v), Operator::Lte(m, w))
        | (Operator::Like(n, v), Operator::Like(m, w)) => n == m && v == w,
        (Operator::In(n, vs), Operator::In(m, ws)) => n == m && same_items(vs, ws, |x, y| x == y),
        (Operator::Not(x), Operator::Not(y)) => same_query(x, y),
        (Operator::And(xs), Operator::And(ys)) | (Operator::Or(xs), Operator::Or(ys)) => {
            same_items(xs, ys, |x, y| same_query(x, y))
        },
        (_, _) => false,
    }
}

#[test]
fn test_simple_operator_empty_json_parse() {
    let json = "{}";

    let query = parse_from_json(json).unwrap();

    let expected = Operator::And(vec![]);

    assert!(same_query(&query, &expected), "{:?} != {:?}", query, expected);
}

#[test]
fn test_simple_operator_explicit_empty_and_parse() {
    let json = r#"{"$and":[]}"#;

    let query = parse_from_json(json).unwrap();

    let expected = Operator::And(vec![]);

    assert!(same_query(&query, &expected), "{:?} != {:?}", query, expected);
}

#[test]
fn test_simple_operator_empty_or_parse() {
    let json = r#"{"$or":[]}"#;

    let query = parse_from_json(json).unwrap();

    let expected = Operator::Or(vec![]);

    assert!(same_query(&query, &expected), "{:?} != {:?}", query, expected);
}

#[test]
fn test_simple_operator_empty_not_parse() {
    let json = r#"{"$not":{}}"#;

    let query = parse_from_json(json).unwrap();

    let expected = Operator::Not(Box::new(Operator::And(vec![])));

    assert!(same_query(&query, &expected), "{:?} != {:?}", query, expected);
}

#[test]
fn test_simple_operator_eq_parse() {
    let name1 = random_string(10);
    let value1 = random_string(10);

    let json = format!(r#"{{"{}":"{}"}}"#, name1, value1);

    let query = parse_from_json(&json).unwrap();

    let expected = Operator::Eq(name1, value1);

    assert!(same_query(&query, &expected), "{:?} != {:?}", query, expected);
}

#[test]
fn test_simple_operator_neq_parse() {
    let name1 = random_string(10);
    let value1 = random_string(10);

    let json = format!(r#"{{"{}":{{"$neq":"{}"}}}}"#, name1, value1);

    let query = parse_from_json(&json).unwrap();

    let expected = Operator::Neq(name1, value1);

    assert!(same_query(&query, &expected), "{:?} != {:?}", query, expected);
}

#[test]
fn test_simple_operator_gt_parse() {
    let name1 = random_string(10);
    let value1 = random_string(10);

    let json = format!(r#"{{"{}":{{"$gt":"{}"}}}}"#, name1, value1);

    let query = parse_from_json(&json).unwrap();

    let expected = Operator::Gt(name1, value1);

    assert!(same_query(&query, &expected), "{:?} != {:?}", query, expected);
}

#[test]
fn test_simple_operator_gte_parse() {
    let name1 = random_string(10);
    let value1 = random_string(10);

    let json = format!(r#"{{"{}":{{"$gte":"{}"}}}}"#, name1, value1);

    let query = parse_from_json(&json).unwrap();

    let expected = Operator::Gte(name1, value1);

    assert!(same_query(&query, &expected), "{:?} != {:?}", query, expected);
}

#[test]
fn test_simple_operator_lt_parse() {
    let name1 = random_string(10);
    let value1 = random_string(10);

    let json = format!(r#"{{"{}":{{"$lt":"{}"}}}}"#, name1, value1);

    let query = parse_from_json(&json).unwrap();

    let expected = Operator::Lt(name1, value1);

    assert!(same_query(&query, &expected), "{:?} != {:?}", query, expected);
}

#[test]
fn test_simple_operator_lte_parse() {
    let name1 = random_string(10);
    let value1 = random_string(10);

    let json = format!(r#"{{"{}":{{"$lte":"{}"}}}}"#, name1, value1);

    let query = parse_from_json(&json).unwrap();

    let expected = Operator::Lte(name1, value1);

    assert!(same_query(&query, &expected), "{:?} != {:?}", query, expected);
}

#[test]
fn test_simple_operator_like_parse() {
    let name1 = random_string(10);
    let value1 = random_string(10);

    let json = format!(r#"{{"{}":{{"$like":"{}"}}}}"#, name1, value1);

    let query = parse_from_json(&json).unwrap();

    let expected = Operator::Like(name1, value1);

    assert!(same_query(&query, &expected), "{:?} != {:?}", query, expected);
}

#[test]
fn test_simple_operator_in_parse() {
    let name1 = random_string(10);
    let value1 = random_string(10);

    let json = format!(r#"{{"{}":{{"$in":["{}"]}}}}"#, name1, value1);

    let query = parse_from_json(&json).unwrap();

    let expected = Operator::In(name1, vec![value1]);

    assert!(same_query(&query, &expected), "{:?} != {:?}", query, expected);
}

#[test]
fn test_simple_operator_in_multiple_parse() {
    let name1 = random_string(10);
    let value1 = random_string(10);
    let value2 = random_string(10);
    let value3 = random_string(10);

    let json = format!(r#"{{"{}":{{"$in":["{}","{}","{}"]}}}}"#, name1, value1, value2, value3);

    let query = parse_from_json(&json).unwrap();

    let expected = Operator::In(name1, vec![value1, value2, value3]);

    assert!(same_query(&query, &expected), "{:?} != {:?}", query, expected);
}

#[test]
fn test_and_with_one_eq_parse() {
    let name1 = random_string(10);
    let value1 = random_string(10);

    let json = format!(r#"{{"$and":[{{"{}":"{}"}}]}}"#, name1, value1);

    let query = parse_from_json(&json).unwrap();

    let expected = Operator::And(
        vec![
            Operator::Eq(name1, value1)
        ]
    );

    assert!(same_query(&query, &expected), "{:?} != {:?}", query, expected);
}

#[test]
fn test_and_with_one_neq_parse() {
    let name1 = random_string(10);
    let value1 = random_string(10);

    let json = format!(r#"{{"$and":[{{"{}":{{"$neq":"{}"}}}}]}}"#, name1, value1);

    let query = parse_from_json(&json).unwrap();

    let expected = Operator::And(
        vec![
            Operator::Neq(name1, value1)
        ]
    );

    assert!(same_query(&query, &expected), "{:?} != {:?}", query, expected);
}

#[test]
fn test_and_with_one_gt_parse() {
    let name1 = random_string(10);
    let value1 = random_string(10);

    let json = format!(r#"{{"$and":[{{"{}":{{"$gt":"{}"}}}}]}}"#, name1, value1);

    let query = parse_from_json(&json).unwrap();

    let expected = Operator::And(
        vec![
            Operator::Gt(name1, value1)
        ]
    );

    assert!(same_query(&query, &expected), "{:?} != {:?}", query, expected);
}

#[test]
fn test_and_with_one_gte_parse() {
    let name1 = random_string(10);
    let value1 = random_string(10);

    let json = format!(r#"{{"$and":[{{"{}":{{"$gte":"{}"}}}}]}}"#, name1, value1);

    let query = parse_from_json(&json).unwrap();

    let expected = Operator::And(
        vec![
            Operator::Gte(name1, value1)
        ]
    );

    assert!(same_query(&query, &expected), "{:?} != {:?}", query, expected);
}

#[test]
fn test_and_with_one_lt_parse() {
    let name1 = random_string(10);
    let value1 = random_string(10);

    let json = format!(r#"{{"$and":[{{"{}":{{"$lt":"{}"}}}}]}}"#, name1, value1);

    let query = parse_from_json(&json).unwrap();

    let expected = Operator::And(
        vec![
            Operator::Lt(name1, value1)
        ]
    );

    assert!(same_query(&query, &expected), "{:?} != {:?}", query, expected);
}

#[test]
fn test_and_with_one_lte_parse() {
    let name1 = random_string(10);
    let value1 = random_string(10);

    let json = format!(r#"{{"$and":[{{"{}":{{"$lte":"{}"}}}}]}}"#, name1, value1);

    let query = parse_from_json(&json).unwrap();

    let expected = Operator::And(
        vec![
            Operator::Lte(name1, value1)
        ]
    );

    assert!(same_query(&query, &expected), "{:?} != {:?}", query, expected);
}

#[test]
fn test_and_with_one_like_parse() {
    let name1 = random_string(10);
    let value1 = random_string(10);

    let json = format!(r#"{{"$and":[{{"{}":{{"$like":"{}"}}}}]}}"#, name1, value1);

    let query = parse_from_json(&json).unwrap();

    let expected = Operator::And(
        vec![
            Operator::Like(name1, value1)
        ]
    );

    assert!(same_query(&query, &expected), "{:?} != {:?}", query, expected);
}

#[test]
fn test_and_with_one_in_parse() {
    let name1 = random_string(10);
    let value1 = random_string(10);

    let json = format!(r#"{{"$and":[{{"{}":{{"$in":["{}"]}}}}]}}"#, name1, value1);

    let query = parse_from_json(&json).unwrap();

    let expected = Operator::And(
        vec![
            Operator::In(name1, vec![value1])
        ]
    );

    assert!(same_query(&query, &expected), "{:?} != {:?}", query, expected);
}

#[test]
fn test_and_with_one_not_eq_parse() {
    let name1 = random_string(10);
    let value1 = random_string(10);

    let json = format!(r#"{{"$and":[{{"$not":{{"{}":"{}"}}}}]}}"#, name1, value1);

    let query = parse_from_json(&json).unwrap();

    let expected = Operator::And(
        vec![
            Operator::Not(
                Box::new(
                    Operator::Eq(name1, value1)
                )
            )
        ]
    );

    assert!(same_query(&query, &expected), "{:?} != {:?}", query, expected);
}

#[test]
fn test_short_and_with_multiple_eq_parse() {
    let name1 = random_string(10);
    let value1 = random_string(10);
    let name2 = random_string(10);
    let value2 = random_string(10);
    let name3 = random_string(10);
    let value3 = random_string(10);

    let json = format!(r#"{{"{}":"{}","{}":"{}","{}":"{}"}}"#,
                       name1, value1,
                       name2, value2,
                       name3, value3,
    );

    let query = parse_from_json(&json).unwrap();

    let expected = Operator::And(
        vec![
            Operator::Eq(name1, value1),
            Operator::Eq(name2, value2),
            Operator::Eq(name3, value3)
        ]
    );

    assert!(same_query(&query, &expected), "{:?} != {:?}", query, expected);
}

#[test]
fn test_and_with_multiple_eq_parse() {
    let name1 = random_string(10);
    let value1 = random_string(10);
    let name2 = random_string(10);
    let value2 = random_string(10);
    let name3 = random_string(10);
    let value3 = random_string(10);

    let json = format!(r#"{{"$and":[{{"{}":"{}"}},{{"{}":"{}"}},{{"{}":"{}"}}]}}"#,
                       name1, value1,
                       name2, value2,
                       name3, value3,
    );

    let query = parse_from_json(&json).unwrap();

    let expected = Operator::And(
        vec![
            Operator::Eq(name1, value1),
            Operator::Eq(name2, value2),
            Operator::Eq(name3, value3)
        ]
    );

    assert!(same_query(&query, &expected), "{:?} != {:?}", query, expected);
}

#[test]
fn test_and_with_multiple_neq_parse() {
    let name1 = random_string(10);
    let value1 = random_string(10);
    let name2 = random_string(10);
    let value2 = random_string(10);
    let name3 = random_string(10);
    let value3 = random_string(10);

    let json = format!(r#"{{"$and":[{{"{}":{{"$neq":"{}"}}}},{{"{}":{{"$neq":"{}"}}}},{{"{}":{{"$neq":"{}"}}}}]}}"#,
                       name1, value1,
                       name2, value2,
                       name3, value3,
    );

    let query = parse_from_json(&json).unwrap();

    let expected = Operator::And(
        vec![
            Operator::Neq(name1, value1),
            Operator::Neq(name2, value2),
            Operator::Neq(name3, value3)
        ]
    );

    assert!(same_query(&query, &expected), "{:?} != {:?}", query, expected);
}

#[test]
fn test_and_with_multiple_gt_parse() {
    let name1 = random_string(10);
    let value1 = random_string(10);
    let name2 = random_string(10);
    let value2 = random_string(10);
    let name3 = random_string(10);
    let value3 = random_string(10);

    let json = format!(r#"{{"$and":[{{"{}":{{"$gt":"{}"}}}},{{"{}":{{"$gt":"{}"}}}},{{"{}":{{"$gt":"{}"}}}}]}}"#,
                       name1, value1,
                       name2, value2,
                       name3, value3,
    );

    let query = parse_from_json(&json).unwrap();

    let expected = Operator::And(
        vec![
            Operator::Gt(name1, value1),
            Operator::Gt(name2, value2),
            Operator::Gt(name3, value3)
        ]
    );

    assert!(same_query(&query, &expected), "{:?} != {:?}", query, expected);
}

#[test]
fn test_and_with_multiple_gte_parse() {
    let name1 = random_string(10);
    let value1 = random_string(10);
    let name2 = random_string(10);
    let value2 = random_string(10);
    let name3 = random_string(10);
    let value3 = random_string(10);

    let json = format!(r#"{{"$and":[{{"{}":{{"$gte":"{}"}}}},{{"{}":{{"$gte":"{}"}}}},{{"{}":{{"$gte":"{}"}}}}]}}"#,
                       name1, value1,
                       name2, value2,
                       name3, value3,
    );

    let query = parse_from_json(&json).unwrap();

    let expected = Operator::And(
        vec![
            Operator::Gte(name1, value1),
            Operator::Gte(name2, value2),
            Operator::Gte(name3, value3)
        ]
    );

    assert!(same_query(&query, &expected), "{:?} != {:?}", query, expected);
}

#[test]
fn test_and_with_multiple_lt_parse() {
    let name1 = random_string(10);
    let value1 = random_string(10);
    let name2 = random_string(10);
    let value2 = random_string(10);
    let name3 = random_string(10);
    let value3 = random_string(10);

    let json = format!(r#"{{"$and":[{{"{}":{{"$lt":"{}"}}}},{{"{}":{{"$lt":"{}"}}}},{{"{}":{{"$lt":"{}"}}}}]}}"#,
                       name1, value1,
                       name2, value2,
                       name3, value3,
    );

    let query = parse_from_json(&json).unwrap();

    let expected = Operator::And(
        vec![
            Operator::Lt(name1, value1),
            Operator::Lt(name2, value2),
            Operator::Lt(name3, value3)
        ]
    );

    assert!(same_query(&query, &expected), "{:?} != {:?}", query, expected);
}

#[test]
fn test_and_with_multiple_lte_parse() {
    let name1 = random_string(10);
    let value1 = random_string(10);
    let name2 = random_string(10);
    let value2 = random_string(10);
    let name3 = random_string(10);
    let value3 = random_string(10);

    let json = format!(r#"{{"$and":[{{"{}":{{"$lte":"{}"}}}},{{"{}":{{"$lte":"{}"}}}},{{"{}":{{"$lte":"{}"}}}}]}}"#,
                       name1, value1,
                       name2, value2,
                       name3, value3,
    );

    let query = parse_from_json(&json).unwrap();

    let expected = Operator::And(
        vec![
            Operator::Lte(name1, value1),
            Operator::Lte(name2, value2),
            Operator::Lte(name3, value3)
        ]
    );

    assert!(same_query(&query, &expected), "{:?} != {:?}", query, expected);
}

#[test]
fn test_and_with_multiple_like_parse() {
    let name1 = random_string(10);
    let value1 = random_string(10);
    let name2 = random_string(10);
    let value2 = random_string(10);
    let name3 = random_string(10);
    let value3 = random_string(10);

    let json = format!(r#"{{"$and":[{{"{}":{{"$like":"{}"}}}},{{"{}":{{"$like":"{}"}}}},{{"{}":{{"$like":"{}"}}}}]}}"#,
                       name1, value1,
                       name2, value2,
                       name3, value3,
    );

    let query = parse_from_json(&json).unwrap();

    let expected = Operator::And(
        vec![
            Operator::Like(name1, value1),
            Operator::Like(name2, value2),
            Operator::Like(name3, value3)
        ]
    );

    assert!(same_query(&query, &expected), "{:?} != {:?}", query, expected);
}

#[test]
fn test_and_with_multiple_in_parse() {
    let name1 = random_string(10);
    let value1 = random_string(10);
    let name2 = random_string(10);
    let value2 = random_string(10);
    let name3 = random_string(10);
    let value3 = random_string(10);

    let json = format!(r#"{{"$and":[{{"{}":{{"$in":["{}"]}}}},{{"{}":{{"$in":["{}"]}}}},{{"{}":{{"$in":["{}"]}}}}]}}"#,
                       name1, value1,
                       name2, value2,
                       name3, value3,
    );

    let query = parse_from_json(&json).unwrap();

    let expected = Operator::And(
        vec![
            Operator::In(name1, vec![value1]),
            Operator::In(name2, vec![value2]),
            Operator::In(name3, vec![value3])
        ]
    );

    assert!(same_query(&query, &expected), "{:?} != {:?}", query, expected);
}

#[test]
fn test_and_with_multiple_not_eq_parse() {
    let name1 = random_string(10);
    let value1 = random_string(10);
    let name2 = random_string(10);
    let value2 = random_string(10);
    let name3 = random_string(10);
    let value3 = random_string(10);

    let json = format!(r#"{{"$and":[{{"$not":{{"{}":"{}"}}}},{{"$not":{{"{}":"{}"}}}},{{"$not":{{"{}":"{}"}}}}]}}"#,
                       name1, value1,
                       name2, value2,
                       name3, value3,
    );

    let query = parse_from_json(&json).unwrap();

    let expected = Operator::And(
        vec![
            Operator::Not(
                Box::new(
                    Operator::Eq(name1, value1)
                )
            ),
            Operator::Not(
                Box::new(
                    Operator::Eq(name2, value2)
                )
            ),
            Operator::Not(
                Box::new(
                    Operator::Eq(name3, value3)
                )
            ),
        ]
    );

    assert!(same_query(&query, &expected), "{:?} != {:?}", query, expected);
}

#[test]
fn test_and_with_multiple_mixed_parse() {
    let name1 = random_string(10);
    let value1 = random_string(10);
    let name2 = random_string(10);
    let value2 = random_string(10);
    let name3 = random_string(10);
    let value3 = random_string(10);
    let name4 = random_string(10);
    let value4 = random_string(10);
    let name5 = random_string(10);
    let value5 = random_string(10);
    let name6 = random_string(10);
    let value6 = random_string(10);
    let name7 = random_string(10);
    let value7 = random_string(10);
    let name8 = random_string(10);
    let value8a = random_string(10);
    let value8b = random_string(10);
    let name9 = random_string(10);
    let value9 = random_string(10);

    let json = format!(r#"{{"$and":[{{"{}":"{}"}},{{"{}":{{"$neq":"{}"}}}},{{"{}":{{"$gt":"{}"}}}},{{"{}":{{"$gte":"{}"}}}},{{"{}":{{"$lt":"{}"}}}},{{"{}":{{"$lte":"{}"}}}},{{"{}":{{"$like":"{}"}}}},{{"{}":{{"$in":["{}","{}"]}}}},{{"$not":{{"{}":"{}"}}}}]}}"#,
                       name1, value1,
                       name2, value2,
                       name3, value3,
                       name4, value4,
                       name5, value5,
                       name6, value6,
                       name7, value7,
                       name8, value8a, value8b,
                       name9, value9,
    );

    let query = parse_from_json(&json).unwrap();

    let expected = Operator::And(
        vec![
            Operator::Eq(name1, value1),
            Operator::Neq(name2, value2),
            Operator::Gt(name3, value3),
            Operator::Gte(name4, value4),
            Operator::Lt(name5, value5),
            Operator::Lte(name6, value6),
            Operator::Like(name7, value7),
            Operator::In(name8, vec![value8a, value8b]),
            Operator::Not(
                Box::new(
                    Operator::Eq(name9, value9)
                )
            ),
        ]
    );

    assert!(same_query(&query, &expected), "{:?} != {:?}", query, expected);
}

#[test]
fn test_or_with_one_eq_parse() {
    let name1 = random_string(10);
    let value1 = random_string(10);

    let json = format!(r#"{{"$or":[{{"{}":"{}"}}]}}"#, name1, value1);

    let query = parse_from_json(&json).unwrap();

    let expected = Operator::Or(
        vec![
            Operator::Eq(name1, value1)
        ]
    );

    assert!(same_query(&query, &expected), "{:?} != {:?}", query, expected);
}

#[test]
fn test_or_with_one_neq_parse() {
    let name1 = random_string(10);
    let value1 = random_string(10);

    let json = format!(r#"{{"$or":[{{"{}":{{"$neq":"{}"}}}}]}}"#, name1, value1);

    let query = parse_from_json(&json).unwrap();

    let expected = Operator::Or(
        vec![
            Operator::Neq(name1, value1)
        ]
    );

    assert!(same_query(&query, &expected), "{:?} != {:?}", query, expected);
}

#[test]
fn test_or_with_one_gt_parse() {
    let name1 = random_string(10);
    let value1 = random_string(10);

    let json = format!(r#"{{"$or":[{{"{}":{{"$gt":"{}"}}}}]}}"#, name1, value1);

    let query = parse_from_json(&json).unwrap();

    let expected = Operator::Or(
        vec![
            Operator::Gt(name1, value1)
        ]
    );

    assert!(same_query(&query, &expected), "{:?} != {:?}", query, expected);
}

#[test]
fn test_or_with_one_gte_parse() {
    let name1 = random_string(10);
    let value1 = random_string(10);

    let json = format!(r#"{{"$or":[{{"{}":{{"$gte":"{}"}}}}]}}"#, name1, value1);

    let query = parse_from_json(&json).unwrap();

    let expected = Operator::Or(
        vec![
            Operator::Gte(name1, value1)
        ]
    );

    assert!(same_query(&query, &expected), "{:?} != {:?}", query, expected);
}

#[test]
fn test_or_with_one_lt_parse() {
    let name1 = random_string(10);
    let value1 = random_string(10);

    let json = format!(r#"{{"$or":[{{"{}":{{"$lt":"{}"}}}}]}}"#, name1, value1);

    let query = parse_from_json(&json).unwrap();

    let expected = Operator::Or(
        vec![
            Operator::Lt(name1, value1)
        ]
    );

    assert!(same_query(&query, &expected), "{:?} != {:?}", query, expected);
}

#[test]
fn test_or_with_one_lte_parse() {
    let name1 = random_string(10);
    let value1 = random_string(10);

    let json = format!(r#"{{"$or":[{{"{}":{{"$lte":"{}"}}}}]}}"#, name1, value1);

    let query = parse_from_json(&json).unwrap();

    let expected = Operator::Or(
        vec![
            Operator::Lte(name1, value1)
        ]
    );

    assert!(same_query(&query, &expected), "{:?} != {:?}", query, expected);
}

#[test]
fn test_or_with_one_like_parse() {
    let name1 = random_string(10);
    let value1 = random_string(10);

    let json = format!(r#"{{"$or":[{{"{}":{{"$like":"{}"}}}}]}}"#, name1, value1);

    let query = parse_from_json(&json).unwrap();

    let expected = Operator::Or(
        vec![
            Operator::Like(name1, value1)
        ]
    );

    assert!(same_query(&query, &expected), "{:?} != {:?}", query, expected);
}

#[test]
fn test_or_with_one_in_parse() {
    let name1 = random_string(10);
    let value1 = random_string(10);

    let json = format!(r#"{{"$or":[{{"{}":{{"$in":["{}"]}}}}]}}"#, name1, value1);

    let query = parse_from_json(&json).unwrap();

    let expected = Operator::Or(
        vec![
            Operator::In(name1, vec![value1])
        ]
    );

    assert!(same_query(&query, &expected), "{:?} != {:?}", query, expected);
}

#[test]
fn test_or_with_one_not_eq_parse() {
    let name1 = random_string(10);
    let value1 = random_string(10);

    let json = format!(r#"{{"$or":[{{"$not":{{"{}":"{}"}}}}]}}"#, name1, value1);

    let query = parse_from_json(&json).unwrap();

    let expected = Operator::Or(
        vec![
            Operator::Not(
                Box::new(
                    Operator::Eq(name1, value1)
                )
            )
        ]
    );

    assert!(same_query(&query, &expected), "{:?} != {:?}", query, expected);
}

#[test]
fn test_or_with_multiple_eq_parse() {
    let name1 = random_string(10);
    let value1 = random_string(10);
    let name2 = random_string(10);
    let value2 = random_string(10);
    let name3 = random_string(10);
    let value3 = random_string(10);

    let json = format!(r#"{{"$or":[{{"{}":"{}"}},{{"{}":"{}"}},{{"{}":"{}"}}]}}"#,
                       name1, value1,
                       name2, value2,
                       name3, value3,
    );

    let query = parse_from_json(&json).unwrap();

    let expected = Operator::Or(
        vec![
            Operator::Eq(name1, value1),
            Operator::Eq(name2, value2),
            Operator::Eq(name3, value3)
        ]
    );

    assert!(same_query(&query, &expected), "{:?} != {:?}", query, expected);
}

#[test]
fn test_or_with_multiple_neq_parse() {
    let name1 = random_string(10);
    let value1 = random_string(10);
    let name2 = random_string(10);
    let value2 = random_string(10);
    let name3 = random_string(10);
    let value3 = random_string(10);

    let json = format!(r#"{{"$or":[{{"{}":{{"$neq":"{}"}}}},{{"{}":{{"$neq":"{}"}}}},{{"{}":{{"$neq":"{}"}}}}]}}"#,
                       name1, value1,
                       name2, value2,
                       name3, value3,
    );

    let query = parse_from_json(&json).unwrap();

    let expected = Operator::Or(
        vec![
            Operator::Neq(name1, value1),
            Operator::Neq(name2, value2),
            Operator::Neq(name3, value3)
        ]
    );

    assert!(same_query(&query, &expected), "{:?} != {:?}", query, expected);
}

#[test]
fn test_or_with_multiple_gt_parse() {
    let name1 = random_string(10);
    let value1 = random_string(10);
    let name2 = random_string(10);
    let value2 = random_string(10);
    let name3 = random_string(10);
    let value3 = random_string(10);

    let json = format!(r#"{{"$or":[{{"{}":{{"$gt":"{}"}}}},{{"{}":{{"$gt":"{}"}}}},{{"{}":{{"$gt":"{}"}}}}]}}"#,
                       name1, value1,
                       name2, value2,
                       name3, value3,
    );

    let query = parse_from_json(&json).unwrap();

    let expected = Operator::Or(
        vec![
            Operator::Gt(name1, value1),
            Operator::Gt(name2, value2),
            Operator::Gt(name3, value3)
        ]
    );

    assert!(same_query(&query, &expected), "{:?} != {:?}", query, expected);
}

#[test]
fn test_or_with_multiple_gte_parse() {
    let name1 = random_string(10);
    let value1 = random_string(10);
    let name2 = random_string(10);
    let value2 = random_string(10);
    let name3 = random_string(10);
    let value3 = random_string(10);

    let json = format!(r#"{{"$or":[{{"{}":{{"$gte":"{}"}}}},{{"{}":{{"$gte":"{}"}}}},{{"{}":{{"$gte":"{}"}}}}]}}"#,
                       name1, value1,
                       name2, value2,
                       name3, value3,
    );

    let query = parse_from_json(&json).unwrap();

    let expected = Operator::Or(
        vec![
            Operator::Gte(name1, value1),
            Operator::Gte(name2, value2),
            Operator::Gte(name3, value3)
        ]
    );

    assert!(same_query(&query, &expected), "{:?} != {:?}", query, expected);
}

#[test]
fn test_or_with_multiple_lt_parse() {
    let name1 = random_string(10);
    let value1 = random_string(10);
    let name2 = random_string(10);
    let value2 = random_string(10);
    let name3 = random_string(10);
    let value3 = random_string(10);

    let json = format!(r#"{{"$or":[{{"{}":{{"$lt":"{}"}}}},{{"{}":{{"$lt":"{}"}}}},{{"{}":{{"$lt":"{}"}}}}]}}"#,
                       name1, value1,
                       name2, value2,
                       name3, value3,
    );

    let query = parse_from_json(&json).unwrap();

    let expected = Operator::Or(
        vec![
            Operator::Lt(name1, value1),
            Operator::Lt(name2, value2),
            Operator::Lt(name3, value3)
        ]
    );

    assert!(same_query(&query, &expected), "{:?} != {:?}", query, expected);
}

#[test]
fn test_or_with_multiple_lte_parse() {
    let name1 = random_string(10);
    let value1 = random_string(10);
    let name2 = random_string(10);
    let value2 = random_string(10);
    let name3 = random_string(10);
    let value3 = random_string(10);

    let json = format!(r#"{{"$or":[{{"{}":{{"$lte":"{}"}}}},{{"{}":{{"$lte":"{}"}}}},{{"{}":{{"$lte":"{}"}}}}]}}"#,
                       name1, value1,
                       name2, value2,
                       name3, value3,
    );

    let query = parse_from_json(&json).unwrap();

    let expected = Operator::Or(
        vec![
            Operator::Lte(name1, value1),
            Operator::Lte(name2, value2),
            Operator::Lte(name3, value3)
        ]
    );

    assert!(same_query(&query, &expected), "{:?} != {:?}", query, expected);
}

#[test]
fn test_or_with_multiple_like_parse() {
    let name1 = random_string(10);
    let value1 = random_string(10);
    let name2 = random_string(10);
    let value2 = random_string(10);
    let name3 = random_string(10);
    let value3 = random_string(10);

    let json = format!(r#"{{"$or":[{{"{}":{{"$like":"{}"}}}},{{"{}":{{"$like":"{}"}}}},{{"{}":{{"$like":"{}"}}}}]}}"#,
                       name1, value1,
                       name2, value2,
                       name3, value3,
    );

    let query = parse_from_json(&json).unwrap();

    let expected = Operator::Or(
        vec![
            Operator::Like(name1, value1),
            Operator::Like(name2, value2),
            Operator::Like(name3, value3)
        ]
    );

    assert!(same_query(&query, &expected), "{:?} != {:?}", query, expected);
}

#[test]
fn test_or_with_multiple_in_parse() {
    let name1 = random_string(10);
    let value1 = random_string(10);
    let name2 = random_string(10);
    let value2 = random_string(10);
    let name3 = random_string(10);
    let value3 = random_string(10);

    let json = format!(r#"{{"$or":[{{"{}":{{"$in":["{}"]}}}},{{"{}":{{"$in":["{}"]}}}},{{"{}":{{"$in":["{}"]}}}}]}}"#,
                       name1, value1,
                       name2, value2,
                       name3, value3,
    );

    let query = parse_from_json(&json).unwrap();

    let expected = Operator::Or(
        vec![
            Operator::In(name1, vec![value1]),
            Operator::In(name2, vec![value2]),
            Operator::In(name3, vec![value3]),
        ]
    );

    assert!(same_query(&query, &expected), "{:?} != {:?}", query, expected);
}

#[test]
fn test_or_with_multiple_not_eq_parse() {
    let name1 = random_string(10);
    let value1 = random_string(10);
    let name2 = random_string(10);
    let value2 = random_string(10);
    let name3 = random_string(10);
    let value3 = random_string(10);

    let json = format!(r#"{{"$or":[{{"$not":{{"{}":"{}"}}}},{{"$not":{{"{}":"{}"}}}},{{"$not":{{"{}":"{}"}}}}]}}"#,
                       name1, value1,
                       name2, value2,
                       name3, value3,
    );

    let query = parse_from_json(&json).unwrap();

    let expected = Operator::Or(
        vec![
            Operator::Not(
                Box::new(
                    Operator::Eq(name1, value1)
                )
            ),
            Operator::Not(
                Box::new(
                    Operator::Eq(name2, value2)
                )
            ),
            Operator::Not(
                Box::new(
                    Operator::Eq(name3, value3)
                )
            ),
        ]
    );

    assert!(same_query(&query, &expected), "{:?} != {:?}", query, expected);
}

#[test]
fn test_or_with_multiple_mixed_parse() {
    let name1 = random_string(10);
    let value1 = random_string(10);
    let name2 = random_string(10);
    let value2 = random_string(10);
    let name3 = random_string(10);
    let value3 = random_string(10);
    let name4 = random_string(10);
    let value4 = random_string(10);
    let name5 = random_string(10);
    let value5 = random_string(10);
    let name6 = random_string(10);
    let value6 = random_string(10);
    let name7 = random_string(10);
    let value7 = random_string(10);
    let name8 = random_string(10);
    let value8a = random_string(10);
    let value8b = random_string(10);
    let name9 = random_string(10);
    let value9 = random_string(10);

    let json = format!(r#"{{"$or":[{{"{}":"{}"}},{{"{}":{{"$neq":"{}"}}}},{{"{}":{{"$gt":"{}"}}}},{{"{}":{{"$gte":"{}"}}}},{{"{}":{{"$lt":"{}"}}}},{{"{}":{{"$lte":"{}"}}}},{{"{}":{{"$like":"{}"}}}},{{"{}":{{"$in":["{}","{}"]}}}},{{"$not":{{"{}":"{}"}}}}]}}"#,
                       name1, value1,
                       name2, value2,
                       name3, value3,
                       name4, value4,
                       name5, value5,
                       name6, value6,
                       name7, value7,
                       name8, value8a, value8b,
                       name9, value9,
    );

    let query = parse_from_json(&json).unwrap();

    let expected = Operator::Or(
        vec![
            Operator::Eq(name1, value1),
            Operator::Neq(name2, value2),
            Operator::Gt(name3, value3),
            Operator::Gte(name4, value4),
            Operator::Lt(name5, value5),
            Operator::Lte(name6, value6),
            Operator::Like(name7, value7),
            Operator::In(name8, vec![value8a, value8b]),
            Operator::Not(
                Box::new(
                    Operator::Eq(name9, value9)
                )
            ),
        ]
    );

    assert!(same_query(&query, &expected), "{:?} != {:?}", query, expected);
}

#[test]
fn test_not_with_one_eq_parse() {
    let name1 = random_string(10);
    let value1 = random_string(10);

    let json = format!(r#"{{"$not":{{"{}":"{}"}}}}"#, name1, value1);

    let query = parse_from_json(&json).unwrap();

    let expected = Operator::Not(
        Box::new(
            Operator::Eq(name1, value1)
        )
    );

    assert!(same_query(&query, &expected), "{:?} != {:?}", query, expected);
}

#[test]
fn test_not_with_one_neq_parse() {
    let name1 = random_string(10);
    let value1 = random_string(10);

    let json = format!(r#"{{"$not":{{"{}":{{"$neq":"{}"}}}}}}"#, name1, value1);

    let query = parse_from_json(&json).unwrap();

    let expected = Operator::Not(
        Box::new(
            Operator::Neq(name1, value1)
        )
    );

    assert!(same_query(&query, &expected), "{:?} != {:?}", query, expected);
}

#[test]
fn test_not_with_one_gt_parse() {
    let name1 = random_string(10);
    let value1 = random_string(10);

    let json = format!(r#"{{"$not":{{"{}":{{"$gt":"{}"}}}}}}"#, name1, value1);

    let query = parse_from_json(&json).unwrap();

    let expected = Operator::Not(
        Box::new(
            Operator::Gt(name1, value1)
        )
    );

    assert!(same_query(&query, &expected), "{:?} != {:?}", query, expected);
}

#[test]
fn test_not_with_one_gte_parse() {
    let name1 = random_string(10);
    let value1 = random_string(10);

    let json = format!(r#"{{"$not":{{"{}":{{"$gte":"{}"}}}}}}"#, name1, value1);

    let query = parse_from_json(&json).unwrap();

    let expected = Operator::Not(
        Box::new(
            Operator::Gte(name1, value1)
        )
    );

    assert!(same_query(&query, &expected), "{:?} != {:?}", query, expected);
}

#[test]
fn test_not_with_one_lt_parse() {
    let name1 = random_string(10);
    let value1 = random_string(10);

    let json = format!(r#"{{"$not":{{"{}":{{"$lt":"{}"}}}}}}"#, name1, value1);

    let query = parse_from_json(&json).unwrap();

    let expected = Operator::Not(
        Box::new(
            Operator::Lt(name1, value1)
        )
    );

    assert!(same_query(&query, &expected), "{:?} != {:?}", query, expected);
}

#[test]
fn test_not_with_one_lte_parse() {
    let name1 = random_string(10);
    let value1 = random_string(10);

    let json = format!(r#"{{"$not":{{"{}":{{"$lte":"{}"}}}}}}"#, name1, value1);

    let query = parse_from_json(&json).unwrap();

    let expected = Operator::Not(
        Box::new(
            Operator::Lte(name1, value1)
        )
    );

    assert!(same_query(&query, &expected), "{:?} != {:?}", query, expected);
}

#[test]
fn test_not_with_one_like_parse() {
    let name1 = random_string(10);
    let value1 = random_string(10);

    let json = format!(r#"{{"$not":{{"{}":{{"$like":"{}"}}}}}}"#, name1, value1);

    let query = parse_from_json(&json).unwrap();

    let expected = Operator::Not(
        Box::new(
            Operator::Like(name1, value1)
        )
    );

    assert!(same_query(&query, &expected), "{:?} != {:?}", query, expected);
}

#[test]
fn test_not_with_one_in_parse() {
    let name1 = random_string(10);
    let value1 = random_string(10);

    let json = format!(r#"{{"$not":{{"{}":{{"$in":["{}"]}}}}}}"#, name1, value1);

    let query = parse_from_json(&json).unwrap();

    let expected = Operator::Not(
        Box::new(
            Operator::In(name1, vec![value1])
        )
    );

    assert!(same_query(&query, &expected), "{:?} != {:?}", query, expected);
}

#[test]
fn test_and_or_not_complex_case_parse() {
    let name1 = random_string(10);
    let value1 = random_string(10);
    let name2 = random_string(10);
    let value2 = random_string(10);
    let name3 = random_string(10);
    let value3 = random_string(10);
    let name4 = random_string(10);
    let value4 = random_string(10);
    let name5 = random_string(10);
    let value5 = random_string(10);
    let name6 = random_string(10);
    let value6 = random_string(10);
    let name7 = random_string(10);
    let value7 = random_string(10);
    let name8 = random_string(10);
    let value8 = random_string(10);

    let json = format!(r#"{{"$not":{{"$and":[{{"{}":"{}"}},{{"$or":[{{"{}":{{"$gt":"{}"}}}},{{"$not":{{"{}":{{"$lte":"{}"}}}}}},{{"$and":[{{"{}":{{"$lt":"{}"}}}},{{"$not":{{"{}":{{"$gte":"{}"}}}}}}]}}]}},{{"$not":{{"{}":{{"$like":"{}"}}}}}},{{"$and":[{{"{}":"{}"}},{{"$not":{{"{}":{{"$neq":"{}"}}}}}}]}}]}}}}"#,
                       name1, value1,
                       name2, value2,
                       name3, value3,
                       name4, value4,
                       name5, value5,
                       name6, value6,
                       name7, value7,
                       name8, value8,
    );

    let query = parse_from_json(&json).unwrap();

    let expected = Operator::Not(
        Box::new(
            Operator::And(
                vec![
                    Operator::Eq(name1, value1),
                    Operator::Or(
                        vec![
                            Operator::Gt(name2, value2),
                            Operator::Not(
                                Box::new(
                                    Operator::Lte(name3, value3)
                                )
                            ),
                            Operator::And(
                                vec![
                                    Operator::Lt(name4, value4),
                                    Operator::Not(
                                        Box::new(
                                            Operator::Gte(name5, value5)
                                        )
                                    ),
                                ]
                            )
                        ]
                    ),
                    Operator::Not(
                        Box::new(
                            Operator::Like(name6, value6)
                        )
                    ),
                    Operator::And(
                        vec![
                            Operator::Eq(name7, value7),
                            Operator::Not(
                                Box::new(
                                    Operator::Neq(name8, value8)
                                )
                            ),
                        ]
                    )
                ]
            )
        )
    );

    assert!(same_query(&query, &expected), "{:?} != {:?}", query, expected);
}
