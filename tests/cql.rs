use cql_parser::ast::{Fields, Value};
use cql_parser::cql;

#[test]
fn cql_test_where() {
    assert!(cql::where_clauses("where term > ?").is_ok());
}

#[test]
fn cql_test_counters() {
    assert!(cql::counter_op("blah = blah + 1").is_ok());
    assert!(cql::counter_op("blah = blah - 1").is_ok());
    assert!(cql::counter_op("blah = blah - ?").is_ok());
}

#[test]
fn cql_test_timestamp() {
    assert!(cql::using_clause("using timestamp 60").is_ok());
}

#[test]
fn cql_test_ttl() {
    assert!(cql::using_clause("using ttl 60").is_ok());
}

#[test]
fn cql_test_multiple_where_clauses() {
    let p = cql::where_clauses("where k = ? and v = ?").unwrap();
    assert_eq!(p.len(), 2);
}

#[test]
fn cql_test_fields() {
    let parsed = cql::fields("name, age");
    assert!(parsed.is_ok());

    match parsed.unwrap() {
        Fields::Named(v) => {
            assert!(v[0] == "name");
            println!("second field {}", v[1]);
            assert!(v[1] == "age");
        }
        _ => {
            panic!("Wrong type")
        }
    };

    let _parsed = cql::fields_or_star("name, age").unwrap();
    let parsed = cql::fields_or_star("*").unwrap();

    match parsed {
        Fields::All => (),
        _ => {
            panic!("Wrong type returned")
        }
    };
}

#[test]
#[should_panic]
fn test_invalid_select() {
    cql::cql_statement("select from").unwrap();
}

#[test]
fn cql_test_where_clause() {
    let p = cql::predicate("term > ?").unwrap();
    assert_eq!(p.field, "term");
    assert!(p.op == ">");

    if let Value::Placeholder = p.val {
    } else {
        panic!("Wrong type, expected placeholder")
    }
}

#[test]
fn test_comma_separated_values() {
    let vals = cql::comma_separated_values("?, ?, ?").unwrap();
    assert_eq!(vals, vec![Value::Placeholder, Value::Placeholder, Value::Placeholder]);
    let vals = cql::comma_separated_values("1, 1, 1").unwrap();
    assert_eq!(vals, vec![Value::Int(1), Value::Int(1), Value::Int(1)]);
}

#[test]
fn test_value_parsing() {
    assert_eq!(cql::value("1").unwrap(), Value::Int(1));
}

#[test]
fn test_uuid() {
    let u = cql::uuid("de305d54-75b4-431b-adb2-eb6b9e546014").unwrap();
    assert_eq!(u, "de305d54-75b4-431b-adb2-eb6b9e546014");
}

#[test]
fn test_quoted_string() {
    assert_eq!(cql::quoted_string("'some text'").unwrap(), "some text");
}

#[test]
fn test_quoted_string_with_escaped_quote() {
    assert_eq!(cql::quoted_string("'some text ''bacon'' '").unwrap(), "some text 'bacon' ");
}

#[test]
fn test_predicate_string() {
    let p = cql::predicate("k = 'test'").unwrap();
    assert_eq!(p.val, Value::String("test".to_string()));
}

#[test]
fn test_where_string() {
    cql::where_clause("WHERE k = 'test'").unwrap();
}

#[test]
fn test_where_int() {
    let p = cql::where_clause("where k = 1").unwrap();
    assert_eq!(p.val, Value::Int(1));
}

#[test]
fn test_complex_where_clauses() {
    let w = cql::where_clauses(
        "WHERE event_type = 'myEvent' AND time > '2011-02-03' AND time <= '2012-01-01'",
    )
    .unwrap();
    assert_eq!(w.len(), 3);
    assert_eq!(w[2].op, "<=");
}

#[test]
fn test_less_than_eq() {
    let p = cql::predicate("time <= '2012-01-01'").unwrap();
    assert_eq!(p.op, "<=");
}

#[test]
fn test_op() {
    assert_eq!(cql::op("<=").unwrap(), "<=");
}

#[test]
fn test_map() {
    let p = cql::map_literal("{ 'fruit' : 'apple', 'band' : 'Beatles' }").unwrap();
    match p {
        Value::MapLiteral(m) => assert_eq!(m.len(), 2),
        _ => {
            panic!("Wrong type, expected Map")
        }
    };
}

#[test]
fn test_set() {
    let p = cql::set_literal("{ 'fruit', 'apple', 'band', 'Beatles' }").unwrap();
    match p {
        Value::SetLiteral(m) => assert_eq!(m.len(), 4),
        _ => {
            panic!("Wrong type, expected Map")
        }
    };
}

#[test]
fn test_collection_mutation() {
    let _p = cql::collection_mutation("favs = favs +  { 'movie' : 'Cassablanca' }").unwrap();
    let _p = cql::collection_mutation("scores = [ 12 ] + scores").unwrap();
}

#[test]
fn test_collection_update() {
    let _p = cql::collection_update("favs[0] = 'bacon'").unwrap();
}

#[test]
fn test_count() {
    assert_eq!(cql::count("count(*)").unwrap(), Fields::Count);
    assert_eq!(cql::count("count(1)").unwrap(), Fields::Count);
}

#[test]
fn test_delete_from_clause() {
    match cql::delete_from("from").unwrap() {
        Fields::Omitted => {}
        _ => {
            panic!("wrong type");
        }
    };
    match cql::delete_from("field from").unwrap() {
        Fields::Named(_x) => {}
        _ => {
            panic!("wrong type");
        }
    };
    match cql::delete_from("field, field2 from").unwrap() {
        Fields::Named(x) => {
            assert_eq!(2, x.len());
        }
        _ => {
            panic!("wrong type");
        }
    };
}
