use cql_parser::ast::{
    Assignment, Direction, ErrorKind, Expected, Fields, InsertStatement, OrderBy,
    ParseError, ParsedCqlStatement, Predicate, SelectStatement, Term, UsingOption, Value,
};
use cql_parser::cql;
use cql_parser::lexer::quote;

fn placeholder_pred(field: &str, op: &str) -> Predicate {
    Predicate::new(field.to_string(), op.to_string())
}

#[test]
fn select_star_scenario() {
    let r = cql::parse("select * from test").unwrap();
    let expected = ParsedCqlStatement::Select(
        SelectStatement::new(Fields::All, "test".to_string(), None, None, None).unwrap(),
    );
    assert_eq!(r, expected);
}

#[test]
fn select_named_where_limit_scenario() {
    let r = cql::parse("select a, b from t where x = ? limit 10").unwrap();
    match r {
        ParsedCqlStatement::Select(s) => {
            assert_eq!(s.fields, Fields::Named(vec!["a".to_string(), "b".to_string()]));
            assert_eq!(s.table, "t");
            assert_eq!(s.where_clauses, Some(vec![placeholder_pred("x", "=")]));
            assert_eq!(s.order_by, None);
            assert_eq!(s.limit, Some(10));
        }
        _ => panic!("expected a select"),
    }
}

#[test]
fn insert_if_not_exists_scenario() {
    let r = cql::parse("insert into users (name, age) values (?, ?) if not exists").unwrap();
    match r {
        ParsedCqlStatement::Insert(i) => {
            assert_eq!(i.table, "users");
            assert_eq!(i.fields, Fields::Named(vec!["name".to_string(), "age".to_string()]));
            assert_eq!(i.values, vec![Value::Placeholder, Value::Placeholder]);
            assert!(i.lwt);
            assert_eq!(i.using, None);
        }
        _ => panic!("expected an insert"),
    }
}

#[test]
fn update_counter_scenario() {
    let r = cql::parse("update men set bal = bal + 1 where k = ?").unwrap();
    match r {
        ParsedCqlStatement::Update(u) => {
            assert_eq!(u.table, "men");
            assert_eq!(
                u.assignments,
                vec![Assignment::CounterIncr { field: "bal".to_string(), delta: Value::Int(1) }]
            );
            assert_eq!(u.where_clauses, vec![placeholder_pred("k", "=")]);
            assert!(!u.if_exists);
            assert_eq!(u.if_condition, None);
        }
        _ => panic!("expected an update"),
    }
}

#[test]
fn delete_whole_rows_scenario() {
    let r = cql::parse("delete from blah where x = ?").unwrap();
    match r {
        ParsedCqlStatement::Delete(d) => {
            assert_eq!(d.table, "blah");
            assert_eq!(d.fields, Fields::Omitted);
            assert_eq!(d.where_clauses, vec![placeholder_pred("x", "=")]);
            assert_eq!(d.using, None);
        }
        _ => panic!("expected a delete"),
    }
}

#[test]
fn select_without_table_is_syntax_error() {
    let e = cql::parse("select from").unwrap_err();
    assert_eq!(e.kind, ErrorKind::SyntaxError);
    assert_eq!(e.pos, 11);
    assert_eq!(e.expected, Expected::Keyword(cql_parser::ast::Keyword::From));
}

#[test]
fn select_table_is_identifier_after_from() {
    let r = cql::parse("SELECT x FROM My_Table2 WHERE x = 1").unwrap();
    match r {
        ParsedCqlStatement::Select(s) => assert_eq!(s.table, "My_Table2"),
        _ => panic!("expected a select"),
    }
}

#[test]
fn quoted_string_decodes_doubled_quote() {
    assert_eq!(cql::quoted_string("'a''b'").unwrap(), "a'b");
}

#[test]
fn quote_then_read_back_round_trip() {
    assert_eq!(quote("a'b"), "'a''b'");
    for t in ["a'b", "", "''", "plain", "it's 'quoted'"] {
        let q = quote(t);
        assert_eq!(cql::quoted_string(&q).unwrap(), t);
    }
}

#[test]
fn insert_arity_mismatch_rejected() {
    let e = cql::parse("insert into t (a, b) values (?)").unwrap_err();
    assert_eq!(e.kind, ErrorKind::FieldValueArityMismatch { expected: 2, actual: 1 });
    assert_eq!(e.expected, Expected::MatchingValueCount);
    assert_eq!(e.pos, 28);
}

#[test]
fn insert_new_checks_arity() {
    let r = InsertStatement::new(
        "t".to_string(),
        Fields::Named(vec!["a".to_string()]),
        vec![Value::Int(1), Value::Int(2)],
        false,
        None,
    );
    assert_eq!(r.unwrap_err(), ErrorKind::FieldValueArityMismatch { expected: 1, actual: 2 });
    let r = InsertStatement::new("t".to_string(), Fields::All, vec![], false, None);
    assert_eq!(r.unwrap_err(), ErrorKind::SyntaxError);
}

#[test]
fn parse_twice_gives_equal_results() {
    let q = "update t using ttl 5 set a = a - ?, b = [1, 2] where k = 'x' if exists";
    assert_eq!(cql::parse(q), cql::parse(q));
    assert_eq!(cql::parse("bogus"), cql::parse("bogus"));
}

#[test]
fn empty_input_is_an_error() {
    assert_eq!(
        cql::parse(""),
        Err(ParseError { kind: ErrorKind::SyntaxError, pos: 0, expected: Expected::Statement })
    );
}

#[test]
fn short_input_is_an_error() {
    assert!(cql::parse("sel").is_err());
    assert!(cql::parse("   x").is_err());
}

#[test]
fn unterminated_string_is_an_error() {
    let e = cql::parse("select * from t where k = 'abc").unwrap_err();
    assert_eq!(e.kind, ErrorKind::UnterminatedString);
    assert_eq!(e.pos, 26);
}

#[test]
fn non_positive_limit_rejected() {
    let e = cql::parse("select * from t limit 0").unwrap_err();
    assert_eq!(e.kind, ErrorKind::NonPositiveLimit);
    let e = cql::parse("select * from t limit -3").unwrap_err();
    assert_eq!(e.kind, ErrorKind::NonPositiveLimit);
    assert_eq!(e.pos, 16);
}

#[test]
fn update_without_where_rejected() {
    let e = cql::parse("update t set a = 1").unwrap_err();
    assert_eq!(e.kind, ErrorKind::MissingWhereClause);
    assert_eq!(e.expected, Expected::WhereClause);
}

#[test]
fn delete_without_where_rejected() {
    let e = cql::parse("delete from t").unwrap_err();
    assert_eq!(e.kind, ErrorKind::MissingWhereClause);
}

#[test]
fn counter_field_mismatch_rejected() {
    let e = cql::parse("update t set a = b + 1 where k = ?").unwrap_err();
    assert_eq!(e.kind, ErrorKind::MismatchedAssignmentField);
    assert_eq!(e.pos, 17);
}

#[test]
fn number_too_large_rejected() {
    let e = cql::value("99999999999999999999999").unwrap_err();
    assert_eq!(e.kind, ErrorKind::InvalidNumericLiteral);
    assert_eq!(cql::value("-9223372036854775808").unwrap(), Value::Int(isize::MIN));
    assert_eq!(cql::value("9223372036854775807").unwrap(), Value::Int(isize::MAX));
    assert!(cql::value("9223372036854775808").is_err());
}

#[test]
fn values_of_each_kind() {
    assert_eq!(cql::value("-42").unwrap(), Value::Int(-42));
    assert_eq!(cql::value("3.25").unwrap(), Value::Float);
    assert_eq!(cql::value(":name").unwrap(), Value::NamedPlaceHolder("name".to_string()));
    assert_eq!(
        cql::value("de305d54-75b4-431b-adb2-eb6b9e546014").unwrap(),
        Value::UUID("de305d54-75b4-431b-adb2-eb6b9e546014".to_string())
    );
    assert_eq!(cql::value("{}").unwrap(), Value::SetLiteral(vec![]));
    assert_eq!(cql::value("[]").unwrap(), Value::List(vec![]));
    assert_eq!(
        cql::value("{1 : 'a'}").unwrap(),
        Value::MapLiteral(vec![(Term::Int(1), Term::String("a".to_string()))])
    );
    assert_eq!(cql::value("[1, ?]").unwrap(), Value::List(vec![Term::Int(1), Term::Placeholder]));
}

#[test]
fn keywords_ignore_case_and_comments_are_skipped() {
    let a = cql::parse("SeLeCt * FrOm t -- trailing comment").unwrap();
    let b = cql::parse("select *\n// note\nfrom t;").unwrap();
    assert_eq!(a, b);
}

#[test]
fn order_by_directions() {
    let r = cql::order_by("order by a").unwrap();
    assert_eq!(r, OrderBy { field: "a".to_string(), direction: Direction::Asc });
    let r = cql::order_by("ORDER BY b DESC").unwrap();
    assert_eq!(r.direction, Direction::Desc);
}

#[test]
fn using_options_once_each() {
    assert_eq!(
        cql::using_clause("using ttl 1 and timestamp 2").unwrap(),
        vec![UsingOption::TTL(1), UsingOption::Timestamp(2)]
    );
    assert!(cql::using_clause("using ttl 1 and ttl 2").is_err());
}

#[test]
fn operators_longest_first() {
    assert_eq!(cql::op(">=").unwrap(), ">=");
    assert_eq!(cql::op("<").unwrap(), "<");
    assert_eq!(cql::op("in").unwrap(), "IN");
    assert!(cql::op("!").is_err());
}

#[test]
fn assignments_of_each_form() {
    assert_eq!(
        cql::counter_op("c = c - ?").unwrap(),
        Assignment::CounterDecr { field: "c".to_string(), delta: Value::Placeholder }
    );
    assert_eq!(
        cql::collection_mutation("s = [1] + s").unwrap(),
        Assignment::CollectionPrepend {
            field: "s".to_string(),
            literal: Value::List(vec![Term::Int(1)]),
        }
    );
    assert_eq!(
        cql::collection_update("m[2] = 'x'").unwrap(),
        Assignment::ElementUpdate {
            field: "m".to_string(),
            index: Term::Int(2),
            value: Value::String("x".to_string()),
        }
    );
    assert!(cql::counter_op("c = 1").is_err());
    assert_eq!(
        cql::assignment("c = 1").unwrap(),
        Assignment::Simple { field: "c".to_string(), value: Value::Int(1) }
    );
}

#[test]
fn trailing_text_rejected() {
    let e = cql::parse("select * from t garbage").unwrap_err();
    assert_eq!(e.expected, Expected::EndOfInput);
    assert_eq!(e.pos, 16);
}

#[test]
fn list_and_limit_rules() {
    assert_eq!(
        cql::list_literal("[ 'a', 'b' ]").unwrap(),
        Value::List(vec![Term::String("a".to_string()), Term::String("b".to_string())])
    );
    assert!(cql::list_literal("{ 'a' }").is_err());
    assert!(cql::map_literal("{ 'a' }").is_err());
    assert_eq!(cql::limit("LIMIT 25").unwrap(), 25);
}

#[test]
fn update_sets_uuid_starting_with_letter() {
    let r = cql::parse("update t set id = de305d54-75b4-431b-adb2-eb6b9e546014 where k = ?").unwrap();
    match r {
        ParsedCqlStatement::Update(u) => {
            assert_eq!(
                u.assignments,
                vec![Assignment::Simple {
                    field: "id".to_string(),
                    value: Value::UUID("de305d54-75b4-431b-adb2-eb6b9e546014".to_string()),
                }]
            );
        }
        _ => panic!("expected an update"),
    }
    assert_eq!(
        cql::assignment("id = abcdef01-0000-0000-0000-000000000000").unwrap(),
        Assignment::Simple {
            field: "id".to_string(),
            value: Value::UUID("abcdef01-0000-0000-0000-000000000000".to_string()),
        }
    );
}

#[test]
fn quoted_value_reads_back_through_parse() {
    for v in ["a'b", "", "'", "x''y"] {
        let text = format!("select * from t where k = {}", quote(v));
        match cql::parse(&text).unwrap() {
            ParsedCqlStatement::Select(s) => {
                assert_eq!(
                    s.where_clauses,
                    Some(vec![Predicate {
                        field: "k".to_string(),
                        op: "=".to_string(),
                        val: Value::String(v.to_string()),
                    }])
                );
            }
            _ => panic!("expected a select"),
        }
    }
}

#[test]
fn error_positions_stay_within_text() {
    for t in ["", "se", "select * from t where k = 'abc", "select * from", "update t set a = 1"] {
        let e = cql::parse(t).unwrap_err();
        assert!(e.pos <= t.chars().count());
    }
}
