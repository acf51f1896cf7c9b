//! Clause rules: literal values, collection literals, predicates, WHERE,
//! USING, ORDER BY, LIMIT, field lists and assignments. Each rule reads from a
//! position and gives the value read and the position after it, or an error.
use vstd::prelude::*;
use vstd::string::StringExecFns;
use crate::ast::{
    Assignment, AssignmentModel, Direction, ErrorKind, Expected, Fields, FieldsModel, Keyword,
    OrderBy, OrderByModel, ParseError, Predicate, PredicateModel, Term, TermModel, Text,
    UsingOption, Value, ValueModel,
};
use crate::lexer::{
    err_within,
    at_keyword, at_symbol, digits_end, digits_start, fail, fraction_at, fraction_end, ident_at,
    ident_ahead, identifier, identifier_spec, integer, integer_spec, keyword, keyword_ahead,
    keyword_spec, number_ahead, number_at, ok_within, pos_view, quoted_string,
    quoted_string_spec, res_view, skip_ws, skip_ws_spec, symbol, symbol_ahead, symbol_spec,
    uuid_ahead, uuid_at, word_at, Parsed,
};

verus! {

// ---------------------------------------------------------------------------
// Terms and values

/// One literal: `?`, `:name`, a quoted string, a UUID, an integer or a float.
pub open spec fn term_spec(s: Seq<char>, p: int) -> Parsed<TermModel> {
    let q = skip_ws_spec(s, p);
    if !(0 <= q < s.len()) {
        fail(ErrorKind::SyntaxError, q, Expected::Value)
    } else if s[q] == '?' {
        Ok((TermModel::Placeholder, q + 1))
    } else if s[q] == ':' {
        match identifier_spec(s, q + 1) {
            Ok((n, e)) => Ok((TermModel::Named(n), e)),
            Err(x) => Err(x),
        }
    } else if s[q] == '\'' {
        match quoted_string_spec(s, q) {
            Ok((t, e)) => Ok((TermModel::Str(t), e)),
            Err(x) => Err(x),
        }
    } else if uuid_at(s, q) {
        Ok((TermModel::UUID(s.subrange(q, q + 36)), q + 36))
    } else if number_at(s, q) {
        let e = digits_end(s, digits_start(s, q));
        if fraction_at(s, e) {
            Ok((TermModel::Float, digits_end(s, e + 1)))
        } else {
            match integer_spec(s, q) {
                Ok((v, e)) => Ok((TermModel::Int(v), e)),
                Err(x) => Err(x),
            }
        }
    } else {
        fail(ErrorKind::SyntaxError, q, Expected::Value)
    }
}

pub fn term(s: &Vec<char>, p: usize) -> (r: Result<(Term, usize), ParseError>)
    requires
        p <= s@.len(),
    ensures
        err_within(r, s@.len()),
        res_view(r) == term_spec(s@, p as int),
        ok_within(r, p, s@.len()),
{
    let q = skip_ws(s, p);
    if q >= s.len() {
        return Err(ParseError { kind: ErrorKind::SyntaxError, pos: q, expected: Expected::Value });
    }
    let c = s[q];
    if c == '?' {
        Ok((Term::Placeholder, q + 1))
    } else if c == ':' {
        match identifier(s, q + 1) {
            Ok((n, e)) => Ok((Term::NamedPlaceHolder(n), e)),
            Err(x) => Err(x),
        }
    } else if c == '\'' {
        match quoted_string(s, q) {
            Ok((t, e)) => Ok((Term::String(t), e)),
            Err(x) => Err(x),
        }
    } else if uuid_ahead(s, q) {
        match crate::lexer::uuid(s, q) {
            Ok((u, e)) => Ok((Term::UUID(u), e)),
            Err(x) => Err(x),
        }
    } else if number_ahead(s, q) {
        let d = if s[q] == '-' {
            q + 1
        } else {
            q
        };
        let e = crate::lexer::digits_end_exec(s, d);
        match fraction_end(s, e) {
            Some(f) => Ok((Term::Float, f)),
            None => match integer(s, q) {
                Ok((v, e)) => Ok((Term::Int(v), e)),
                Err(x) => Err(x),
            },
        }
    } else {
        Err(ParseError { kind: ErrorKind::SyntaxError, pos: q, expected: Expected::Value })
    }
}

pub open spec fn term_value(t: TermModel) -> ValueModel {
    match t {
        TermModel::Int(i) => ValueModel::Int(i),
        TermModel::Float => ValueModel::Float,
        TermModel::UUID(u) => ValueModel::UUID(u),
        TermModel::Str(x) => ValueModel::Str(x),
        TermModel::Placeholder => ValueModel::Placeholder,
        TermModel::Named(n) => ValueModel::Named(n),
    }
}

fn value_of(t: Term) -> (v: Value)
    ensures
        v.deep_view() == term_value(t.deep_view()),
{
    match t {
        Term::Int(i) => Value::Int(i),
        Term::Float => Value::Float,
        Term::UUID(u) => Value::UUID(u),
        Term::String(x) => Value::String(x),
        Term::Placeholder => Value::Placeholder,
        Term::NamedPlaceHolder(n) => Value::NamedPlaceHolder(n),
    }
}

/// After an element of a set or list: `, term` and on, or the closing `close`.
pub open spec fn terms_rest(s: Seq<char>, p: int, acc: Seq<TermModel>, close: char) -> Parsed<
    Seq<TermModel>,
>
    decreases s.len() - p,
{
    match symbol_spec(s, p, ',') {
        Ok(p1) => match term_spec(s, p1) {
            Ok((t, p2)) => if p < p2 <= s.len() {
                terms_rest(s, p2, acc.push(t), close)
            } else {
                fail(ErrorKind::SyntaxError, p2, Expected::Value)
            },
            Err(x) => Err(x),
        },
        Err(_) => match symbol_spec(s, p, close) {
            Ok(p1) => Ok((acc, p1)),
            Err(x) => Err(x),
        },
    }
}

/// After an entry of a map: `, term : term` and on, or the closing `}`.
pub open spec fn entries_rest(s: Seq<char>, p: int, acc: Seq<(TermModel, TermModel)>) -> Parsed<
    Seq<(TermModel, TermModel)>,
>
    decreases s.len() - p,
{
    match symbol_spec(s, p, ',') {
        Ok(p1) => match entry_spec(s, p1) {
            Ok((t, p2)) => if p < p2 <= s.len() {
                entries_rest(s, p2, acc.push(t))
            } else {
                fail(ErrorKind::SyntaxError, p2, Expected::Value)
            },
            Err(x) => Err(x),
        },
        Err(_) => match symbol_spec(s, p, '}') {
            Ok(p1) => Ok((acc, p1)),
            Err(x) => Err(x),
        },
    }
}

/// `key : value` inside a map literal.
pub open spec fn entry_spec(s: Seq<char>, p: int) -> Parsed<(TermModel, TermModel)> {
    match term_spec(s, p) {
        Ok((k, p1)) => match symbol_spec(s, p1, ':') {
            Ok(p2) => match term_spec(s, p2) {
                Ok((v, p3)) => Ok(((k, v), p3)),
                Err(x) => Err(x),
            },
            Err(x) => Err(x),
        },
        Err(x) => Err(x),
    }
}

/// `[ t, .. ]` is a list; `{ k : v, .. }` a map; `{ t, .. }` a set; `{}` the empty set.
pub open spec fn collection_spec(s: Seq<char>, p: int) -> Parsed<ValueModel> {
    let q = skip_ws_spec(s, p);
    if 0 <= q < s.len() && s[q] == '[' {
        match symbol_spec(s, q + 1, ']') {
            Ok(e) => Ok((ValueModel::List(Seq::empty()), e)),
            Err(_) => match term_spec(s, q + 1) {
                Ok((t, p1)) => match terms_rest(s, p1, seq![t], ']') {
                    Ok((ts, e)) => Ok((ValueModel::List(ts), e)),
                    Err(x) => Err(x),
                },
                Err(x) => Err(x),
            },
        }
    } else if 0 <= q < s.len() && s[q] == '{' {
        match symbol_spec(s, q + 1, '}') {
            Ok(e) => Ok((ValueModel::SetLiteral(Seq::empty()), e)),
            Err(_) => match term_spec(s, q + 1) {
                Ok((k, p1)) => if at_symbol(s, p1, ':') {
                    match entry_spec(s, q + 1) {
                        Ok((kv, p2)) => match entries_rest(s, p2, seq![kv]) {
                            Ok((es, e)) => Ok((ValueModel::MapLiteral(es), e)),
                            Err(x) => Err(x),
                        },
                        Err(x) => Err(x),
                    }
                } else {
                    match terms_rest(s, p1, seq![k], '}') {
                        Ok((ts, e)) => Ok((ValueModel::SetLiteral(ts), e)),
                        Err(x) => Err(x),
                    }
                },
                Err(x) => Err(x),
            },
        }
    } else {
        fail(ErrorKind::SyntaxError, q, Expected::Value)
    }
}

/// A collection literal opens at the next token.
pub open spec fn collection_at(s: Seq<char>, p: int) -> bool {
    at_symbol(s, p, '[') || at_symbol(s, p, '{')
}

pub open spec fn value_spec(s: Seq<char>, p: int) -> Parsed<ValueModel> {
    if collection_at(s, p) {
        collection_spec(s, p)
    } else {
        match term_spec(s, p) {
            Ok((t, e)) => Ok((term_value(t), e)),
            Err(x) => Err(x),
        }
    }
}

#[verifier::loop_isolation(false)]
fn terms_rest_exec(s: &Vec<char>, p: usize, acc: Vec<Term>, close: char) -> (r: Result<
    (Vec<Term>, usize),
    ParseError,
>)
    requires
        p <= s@.len(),
    ensures
        err_within(r, s@.len()),
        res_view(r) == terms_rest(s@, p as int, acc.deep_view(), close),
        r is Ok ==> p < r->Ok_0.1 <= s@.len(),
{
    let ghost a0 = acc.deep_view();
    let mut acc = acc;
    let mut i = p;
    loop
        invariant
            p <= i <= s@.len(),
            terms_rest(s@, p as int, a0, close) == terms_rest(s@, i as int, acc.deep_view(), close),
        decreases s@.len() - i,
    {
        match symbol(s, i, ',') {
            Ok(p1) => match term(s, p1) {
                Ok((t, p2)) => {
                    let ghost before = acc.deep_view();
                    let ghost tv = t.deep_view();
                    acc.push(t);
                    assert(acc.deep_view() =~= before.push(tv));
                    i = p2;
                },
                Err(x) => {
                    return Err(x);
                },
            },
            Err(_) => {
                return match symbol(s, i, close) {
                    Ok(p1) => Ok((acc, p1)),
                    Err(x) => Err(x),
                };
            },
        }
    }
}

fn entry(s: &Vec<char>, p: usize) -> (r: Result<((Term, Term), usize), ParseError>)
    requires
        p <= s@.len(),
    ensures
        err_within(r, s@.len()),
        res_view(r) == entry_spec(s@, p as int),
        ok_within(r, p, s@.len()),
{
    match term(s, p) {
        Ok((k, p1)) => match symbol(s, p1, ':') {
            Ok(p2) => match term(s, p2) {
                Ok((v, p3)) => Ok(((k, v), p3)),
                Err(x) => Err(x),
            },
            Err(x) => Err(x),
        },
        Err(x) => Err(x),
    }
}

#[verifier::loop_isolation(false)]
fn entries_rest_exec(s: &Vec<char>, p: usize, acc: Vec<(Term, Term)>) -> (r: Result<
    (Vec<(Term, Term)>, usize),
    ParseError,
>)
    requires
        p <= s@.len(),
    ensures
        err_within(r, s@.len()),
        res_view(r) == entries_rest(s@, p as int, acc.deep_view()),
        r is Ok ==> p < r->Ok_0.1 <= s@.len(),
{
    let ghost a0 = acc.deep_view();
    let mut acc = acc;
    let mut i = p;
    loop
        invariant
            p <= i <= s@.len(),
            entries_rest(s@, p as int, a0) == entries_rest(s@, i as int, acc.deep_view()),
        decreases s@.len() - i,
    {
        match symbol(s, i, ',') {
            Ok(p1) => match entry(s, p1) {
                Ok((t, p2)) => {
                    let ghost before = acc.deep_view();
                    let ghost tv = t.deep_view();
                    acc.push(t);
                    assert(acc.deep_view() =~= before.push(tv));
                    i = p2;
                },
                Err(x) => {
                    return Err(x);
                },
            },
            Err(_) => {
                return match symbol(s, i, '}') {
                    Ok(p1) => Ok((acc, p1)),
                    Err(x) => Err(x),
                };
            },
        }
    }
}

fn one_term(t: Term) -> (v: Vec<Term>)
    ensures
        v.deep_view() == seq![t.deep_view()],
{
    let ghost tv = t.deep_view();
    let mut v: Vec<Term> = Vec::new();
    v.push(t);
    assert(v.deep_view() =~= seq![tv]);
    v
}

pub fn collection(s: &Vec<char>, p: usize) -> (r: Result<(Value, usize), ParseError>)
    requires
        p <= s@.len(),
    ensures
        err_within(r, s@.len()),
        res_view(r) == collection_spec(s@, p as int),
        ok_within(r, p, s@.len()),
{
    let q = skip_ws(s, p);
    if q < s.len() && s[q] == '[' {
        match symbol(s, q + 1, ']') {
            Ok(e) => {
                let v: Vec<Term> = Vec::new();
                assert(v.deep_view() =~= Seq::<TermModel>::empty());
                Ok((Value::List(v), e))
            },
            Err(_) => match term(s, q + 1) {
                Ok((t, p1)) => match terms_rest_exec(s, p1, one_term(t), ']') {
                    Ok((ts, e)) => Ok((Value::List(ts), e)),
                    Err(x) => Err(x),
                },
                Err(x) => Err(x),
            },
        }
    } else if q < s.len() && s[q] == '{' {
        match symbol(s, q + 1, '}') {
            Ok(e) => {
                let v: Vec<Term> = Vec::new();
                assert(v.deep_view() =~= Seq::<TermModel>::empty());
                Ok((Value::SetLiteral(v), e))
            },
            Err(_) => match term(s, q + 1) {
                Ok((k, p1)) => if symbol_ahead(s, p1, ':') {
                    match entry(s, q + 1) {
                        Ok((kv, p2)) => {
                            let ghost kvv = kv.deep_view();
                            let mut es: Vec<(Term, Term)> = Vec::new();
                            es.push(kv);
                            assert(es.deep_view() =~= seq![kvv]);
                            match entries_rest_exec(s, p2, es) {
                                Ok((es, e)) => Ok((Value::MapLiteral(es), e)),
                                Err(x) => Err(x),
                            }
                        },
                        Err(x) => Err(x),
                    }
                } else {
                    match terms_rest_exec(s, p1, one_term(k), '}') {
                        Ok((ts, e)) => Ok((Value::SetLiteral(ts), e)),
                        Err(x) => Err(x),
                    }
                },
                Err(x) => Err(x),
            },
        }
    } else {
        Err(ParseError { kind: ErrorKind::SyntaxError, pos: q, expected: Expected::Value })
    }
}

pub fn collection_ahead(s: &Vec<char>, p: usize) -> (b: bool)
    requires
        p <= s@.len(),
    ensures
        b == collection_at(s@, p as int),
{
    symbol_ahead(s, p, '[') || symbol_ahead(s, p, '{')
}

pub fn value(s: &Vec<char>, p: usize) -> (r: Result<(Value, usize), ParseError>)
    requires
        p <= s@.len(),
    ensures
        err_within(r, s@.len()),
        res_view(r) == value_spec(s@, p as int),
        ok_within(r, p, s@.len()),
{
    if collection_ahead(s, p) {
        collection(s, p)
    } else {
        match term(s, p) {
            Ok((t, e)) => Ok((value_of(t), e)),
            Err(x) => Err(x),
        }
    }
}

// ---------------------------------------------------------------------------
// Predicates and WHERE

/// `=`, `>`, `<`, `>=`, `<=` or `IN`; the two-character operators are tried first.
pub open spec fn op_spec(s: Seq<char>, p: int) -> Parsed<Text> {
    let q = skip_ws_spec(s, p);
    if 0 <= q && q + 1 < s.len() && s[q] == '>' && s[q + 1] == '=' {
        Ok((">="@, q + 2))
    } else if 0 <= q && q + 1 < s.len() && s[q] == '<' && s[q + 1] == '=' {
        Ok(("<="@, q + 2))
    } else if 0 <= q < s.len() && s[q] == '=' {
        Ok(("="@, q + 1))
    } else if 0 <= q < s.len() && s[q] == '>' {
        Ok((">"@, q + 1))
    } else if 0 <= q < s.len() && s[q] == '<' {
        Ok(("<"@, q + 1))
    } else {
        match keyword_spec(s, q, Keyword::In) {
            Ok(e) => Ok(("IN"@, e)),
            Err(_) => fail(ErrorKind::SyntaxError, q, Expected::Operator),
        }
    }
}

pub fn op(s: &Vec<char>, p: usize) -> (r: Result<(String, usize), ParseError>)
    requires
        p <= s@.len(),
    ensures
        err_within(r, s@.len()),
        res_view(r) == op_spec(s@, p as int),
        ok_within(r, p, s@.len()),
{
    let q = skip_ws(s, p);
    let len = s.len();
    if q < len && q + 1 < len && s[q] == '>' && s[q + 1] == '=' {
        Ok((String::from_str(">="), q + 2))
    } else if q < len && q + 1 < len && s[q] == '<' && s[q + 1] == '=' {
        Ok((String::from_str("<="), q + 2))
    } else if q < len && s[q] == '=' {
        Ok((String::from_str("="), q + 1))
    } else if q < len && s[q] == '>' {
        Ok((String::from_str(">"), q + 1))
    } else if q < len && s[q] == '<' {
        Ok((String::from_str("<"), q + 1))
    } else {
        proof {
            reveal_strlit("in");
        }
        match keyword(s, q, Keyword::In) {
            Ok(e) => Ok((String::from_str("IN"), e)),
            Err(_) => Err(
                ParseError { kind: ErrorKind::SyntaxError, pos: q, expected: Expected::Operator },
            ),
        }
    }
}

/// `field op value`.
pub open spec fn predicate_spec(s: Seq<char>, p: int) -> Parsed<PredicateModel> {
    match identifier_spec(s, p) {
        Ok((f, p1)) => match op_spec(s, p1) {
            Ok((o, p2)) => match value_spec(s, p2) {
                Ok((v, p3)) => Ok((PredicateModel { field: f, op: o, val: v }, p3)),
                Err(x) => Err(x),
            },
            Err(x) => Err(x),
        },
        Err(x) => Err(x),
    }
}

pub fn predicate(s: &Vec<char>, p: usize) -> (r: Result<(Predicate, usize), ParseError>)
    requires
        p <= s@.len(),
    ensures
        err_within(r, s@.len()),
        res_view(r) == predicate_spec(s@, p as int),
        ok_within(r, p, s@.len()),
{
    match identifier(s, p) {
        Ok((f, p1)) => match op(s, p1) {
            Ok((o, p2)) => match value(s, p2) {
                Ok((v, p3)) => Ok((Predicate { field: f, op: o, val: v }, p3)),
                Err(x) => Err(x),
            },
            Err(x) => Err(x),
        },
        Err(x) => Err(x),
    }
}

/// After a predicate: `AND predicate` and on, as long as `AND` follows.
pub open spec fn predicates_rest(s: Seq<char>, p: int, acc: Seq<PredicateModel>) -> Parsed<
    Seq<PredicateModel>,
>
    decreases s.len() - p,
{
    match keyword_spec(s, p, Keyword::And) {
        Ok(p1) => match predicate_spec(s, p1) {
            Ok((x, p2)) => if p < p2 <= s.len() {
                predicates_rest(s, p2, acc.push(x))
            } else {
                fail(ErrorKind::SyntaxError, p2, Expected::Identifier)
            },
            Err(x) => Err(x),
        },
        Err(_) => Ok((acc, p)),
    }
}

/// `predicate (AND predicate)*`
pub open spec fn predicates_spec(s: Seq<char>, p: int) -> Parsed<Seq<PredicateModel>> {
    match predicate_spec(s, p) {
        Ok((x, p1)) => predicates_rest(s, p1, seq![x]),
        Err(x) => Err(x),
    }
}

#[verifier::loop_isolation(false)]
pub fn predicates(s: &Vec<char>, p: usize) -> (r: Result<(Vec<Predicate>, usize), ParseError>)
    requires
        p <= s@.len(),
    ensures
        err_within(r, s@.len()),
        res_view(r) == predicates_spec(s@, p as int),
        ok_within(r, p, s@.len()),
{
    let (x, p1) = match predicate(s, p) {
        Ok(ok) => ok,
        Err(e) => {
            return Err(e);
        },
    };
    let ghost xv = x.deep_view();
    let mut acc: Vec<Predicate> = Vec::new();
    acc.push(x);
    assert(acc.deep_view() =~= seq![xv]);
    let mut i = p1;
    loop
        invariant
            p < p1 <= i <= s@.len(),
            predicates_spec(s@, p as int) == predicates_rest(s@, i as int, acc.deep_view()),
        decreases s@.len() - i,
    {
        match keyword(s, i, Keyword::And) {
            Ok(j) => match predicate(s, j) {
                Ok((y, k)) => {
                    let ghost before = acc.deep_view();
                    let ghost yv = y.deep_view();
                    acc.push(y);
                    assert(acc.deep_view() =~= before.push(yv));
                    i = k;
                },
                Err(e) => {
                    return Err(e);
                },
            },
            Err(_) => {
                return Ok((acc, i));
            },
        }
    }
}

/// `WHERE predicate (AND predicate)*`
pub open spec fn where_clauses_spec(s: Seq<char>, p: int) -> Parsed<Seq<PredicateModel>> {
    match keyword_spec(s, p, Keyword::Where) {
        Ok(p1) => predicates_spec(s, p1),
        Err(x) => Err(x),
    }
}

pub fn where_clauses(s: &Vec<char>, p: usize) -> (r: Result<(Vec<Predicate>, usize), ParseError>)
    requires
        p <= s@.len(),
    ensures
        err_within(r, s@.len()),
        res_view(r) == where_clauses_spec(s@, p as int),
        ok_within(r, p, s@.len()),
{
    match keyword(s, p, Keyword::Where) {
        Ok(p1) => predicates(s, p1),
        Err(x) => Err(x),
    }
}

/// `WHERE predicate`: a single predicate.
pub open spec fn where_clause_spec(s: Seq<char>, p: int) -> Parsed<PredicateModel> {
    match keyword_spec(s, p, Keyword::Where) {
        Ok(p1) => predicate_spec(s, p1),
        Err(x) => Err(x),
    }
}

pub fn where_clause(s: &Vec<char>, p: usize) -> (r: Result<(Predicate, usize), ParseError>)
    requires
        p <= s@.len(),
    ensures
        err_within(r, s@.len()),
        res_view(r) == where_clause_spec(s@, p as int),
        ok_within(r, p, s@.len()),
{
    match keyword(s, p, Keyword::Where) {
        Ok(p1) => predicate(s, p1),
        Err(x) => Err(x),
    }
}

// ---------------------------------------------------------------------------
// USING, ORDER BY, LIMIT

/// `TTL n` or `TIMESTAMP n`.
pub open spec fn using_option_spec(s: Seq<char>, p: int) -> Parsed<UsingOption> {
    match keyword_spec(s, p, Keyword::Ttl) {
        Ok(p1) => match integer_spec(s, p1) {
            Ok((v, e)) => Ok((UsingOption::TTL(v), e)),
            Err(x) => Err(x),
        },
        Err(_) => match keyword_spec(s, p, Keyword::Timestamp) {
            Ok(p1) => match integer_spec(s, p1) {
                Ok((v, e)) => Ok((UsingOption::Timestamp(v), e)),
                Err(x) => Err(x),
            },
            Err(_) => fail(ErrorKind::SyntaxError, skip_ws_spec(s, p), Expected::UsingOption),
        },
    }
}

fn using_option(s: &Vec<char>, p: usize) -> (r: Result<(UsingOption, usize), ParseError>)
    requires
        p <= s@.len(),
    ensures
        err_within(r, s@.len()),
        res_view(r) == using_option_spec(s@, p as int),
        ok_within(r, p, s@.len()),
{
    match keyword(s, p, Keyword::Ttl) {
        Ok(p1) => match integer(s, p1) {
            Ok((v, e)) => Ok((UsingOption::TTL(v), e)),
            Err(x) => Err(x),
        },
        Err(_) => match keyword(s, p, Keyword::Timestamp) {
            Ok(p1) => match integer(s, p1) {
                Ok((v, e)) => Ok((UsingOption::Timestamp(v), e)),
                Err(x) => Err(x),
            },
            Err(_) => Err(
                ParseError {
                    kind: ErrorKind::SyntaxError,
                    pos: skip_ws(s, p),
                    expected: Expected::UsingOption,
                },
            ),
        },
    }
}

pub open spec fn same_option_kind(a: UsingOption, b: UsingOption) -> bool {
    (a is TTL) == (b is TTL)
}

/// `USING option (AND option)?`, the two options of different kinds.
pub open spec fn using_clause_spec(s: Seq<char>, p: int) -> Parsed<Seq<UsingOption>> {
    match keyword_spec(s, p, Keyword::Using) {
        Ok(p1) => match using_option_spec(s, p1) {
            Ok((a, p2)) => match keyword_spec(s, p2, Keyword::And) {
                Ok(p3) => match using_option_spec(s, p3) {
                    Ok((b, p4)) => if same_option_kind(a, b) {
                        fail(ErrorKind::SyntaxError, skip_ws_spec(s, p3), Expected::UsingOption)
                    } else {
                        Ok((seq![a, b], p4))
                    },
                    Err(x) => Err(x),
                },
                Err(_) => Ok((seq![a], p2)),
            },
            Err(x) => Err(x),
        },
        Err(x) => Err(x),
    }
}

pub fn using_clause(s: &Vec<char>, p: usize) -> (r: Result<(Vec<UsingOption>, usize), ParseError>)
    requires
        p <= s@.len(),
    ensures
        err_within(r, s@.len()),
        res_view(r) == using_clause_spec(s@, p as int),
        ok_within(r, p, s@.len()),
{
    match keyword(s, p, Keyword::Using) {
        Ok(p1) => match using_option(s, p1) {
            Ok((a, p2)) => match keyword(s, p2, Keyword::And) {
                Ok(p3) => match using_option(s, p3) {
                    Ok((b, p4)) => {
                        let same = match (a, b) {
                            (UsingOption::TTL(_), UsingOption::TTL(_)) => true,
                            (UsingOption::Timestamp(_), UsingOption::Timestamp(_)) => true,
                            _ => false,
                        };
                        if same {
                            Err(
                                ParseError {
                                    kind: ErrorKind::SyntaxError,
                                    pos: skip_ws(s, p3),
                                    expected: Expected::UsingOption,
                                },
                            )
                        } else {
                            let v = vec![a, b];
                            assert(v.deep_view() =~= seq![a, b]);
                            Ok((v, p4))
                        }
                    },
                    Err(x) => Err(x),
                },
                Err(_) => {
                    let v = vec![a];
                    assert(v.deep_view() =~= seq![a]);
                    Ok((v, p2))
                },
            },
            Err(x) => Err(x),
        },
        Err(x) => Err(x),
    }
}

/// `ORDER BY field (ASC | DESC)?`, ascending when no direction is given.
pub open spec fn order_by_spec(s: Seq<char>, p: int) -> Parsed<OrderByModel> {
    match keyword_spec(s, p, Keyword::Order) {
        Ok(p1) => match keyword_spec(s, p1, Keyword::By) {
            Ok(p2) => match identifier_spec(s, p2) {
                Ok((f, p3)) => match keyword_spec(s, p3, Keyword::Desc) {
                    Ok(e) => Ok((OrderByModel { field: f, direction: Direction::Desc }, e)),
                    Err(_) => match keyword_spec(s, p3, Keyword::Asc) {
                        Ok(e) => Ok((OrderByModel { field: f, direction: Direction::Asc }, e)),
                        Err(_) => Ok((OrderByModel { field: f, direction: Direction::Asc }, p3)),
                    },
                },
                Err(x) => Err(x),
            },
            Err(x) => Err(x),
        },
        Err(x) => Err(x),
    }
}

pub fn order_by(s: &Vec<char>, p: usize) -> (r: Result<(OrderBy, usize), ParseError>)
    requires
        p <= s@.len(),
    ensures
        err_within(r, s@.len()),
        res_view(r) == order_by_spec(s@, p as int),
        ok_within(r, p, s@.len()),
{
    match keyword(s, p, Keyword::Order) {
        Ok(p1) => match keyword(s, p1, Keyword::By) {
            Ok(p2) => match identifier(s, p2) {
                Ok((f, p3)) => match keyword(s, p3, Keyword::Desc) {
                    Ok(e) => Ok((OrderBy { field: f, direction: Direction::Desc }, e)),
                    Err(_) => match keyword(s, p3, Keyword::Asc) {
                        Ok(e) => Ok((OrderBy { field: f, direction: Direction::Asc }, e)),
                        Err(_) => Ok((OrderBy { field: f, direction: Direction::Asc }, p3)),
                    },
                },
                Err(x) => Err(x),
            },
            Err(x) => Err(x),
        },
        Err(x) => Err(x),
    }
}

/// `LIMIT n`; whether `n` is positive is checked when the statement is built.
pub open spec fn limit_spec(s: Seq<char>, p: int) -> Parsed<isize> {
    match keyword_spec(s, p, Keyword::Limit) {
        Ok(p1) => integer_spec(s, p1),
        Err(x) => Err(x),
    }
}

pub fn limit(s: &Vec<char>, p: usize) -> (r: Result<(isize, usize), ParseError>)
    requires
        p <= s@.len(),
    ensures
        err_within(r, s@.len()),
        res_view(r) == limit_spec(s@, p as int),
        ok_within(r, p, s@.len()),
{
    match keyword(s, p, Keyword::Limit) {
        Ok(p1) => integer(s, p1),
        Err(x) => Err(x),
    }
}

// ---------------------------------------------------------------------------
// Field lists

/// After a field name: `, ` and another, as long as a comma follows.
pub open spec fn field_names_rest(s: Seq<char>, p: int, acc: Seq<Text>) -> Parsed<Seq<Text>>
    decreases s.len() - p,
{
    match symbol_spec(s, p, ',') {
        Ok(p1) => match identifier_spec(s, p1) {
            Ok((x, p2)) => if p < p2 <= s.len() {
                field_names_rest(s, p2, acc.push(x))
            } else {
                fail(ErrorKind::SyntaxError, p2, Expected::Value)
            },
            Err(x) => Err(x),
        },
        Err(_) => Ok((acc, p)),
    }
}

/// One or more of a field name, separated by commas.
pub open spec fn field_names_spec(s: Seq<char>, p: int) -> Parsed<Seq<Text>> {
    match identifier_spec(s, p) {
        Ok((x, p1)) => field_names_rest(s, p1, seq![x]),
        Err(x) => Err(x),
    }
}

#[verifier::loop_isolation(false)]
pub fn field_names(s: &Vec<char>, p: usize) -> (r: Result<(Vec<String>, usize), ParseError>)
    requires
        p <= s@.len(),
    ensures
        err_within(r, s@.len()),
        res_view(r) == field_names_spec(s@, p as int),
        ok_within(r, p, s@.len()),
{
    let (x, p1) = match identifier(s, p) {
        Ok(ok) => ok,
        Err(e) => {
            return Err(e);
        },
    };
    let ghost xv = x.deep_view();
    let mut acc: Vec<String> = Vec::new();
    acc.push(x);
    assert(acc.deep_view() =~= seq![xv]);
    let mut i = p1;
    loop
        invariant
            p < p1 <= i <= s@.len(),
            field_names_spec(s@, p as int) == field_names_rest(s@, i as int, acc.deep_view()),
        decreases s@.len() - i,
    {
        match symbol(s, i, ',') {
            Ok(j) => match identifier(s, j) {
                Ok((y, k)) => {
                    let ghost before = acc.deep_view();
                    let ghost yv = y.deep_view();
                    acc.push(y);
                    assert(acc.deep_view() =~= before.push(yv));
                    i = k;
                },
                Err(e) => {
                    return Err(e);
                },
            },
            Err(_) => {
                return Ok((acc, i));
            },
        }
    }
}

/// `field (, field)*`
pub open spec fn fields_spec(s: Seq<char>, p: int) -> Parsed<FieldsModel> {
    match field_names_spec(s, p) {
        Ok((v, e)) => Ok((FieldsModel::Named(v), e)),
        Err(x) => Err(x),
    }
}

pub fn fields(s: &Vec<char>, p: usize) -> (r: Result<(Fields, usize), ParseError>)
    requires
        p <= s@.len(),
    ensures
        err_within(r, s@.len()),
        res_view(r) == fields_spec(s@, p as int),
        ok_within(r, p, s@.len()),
{
    match field_names(s, p) {
        Ok((v, e)) => Ok((Fields::Named(v), e)),
        Err(x) => Err(x),
    }
}

/// `COUNT(*)` or `COUNT(1)`.
pub open spec fn count_spec(s: Seq<char>, p: int) -> Parsed<FieldsModel> {
    match keyword_spec(s, p, Keyword::Count) {
        Ok(p1) => match symbol_spec(s, p1, '(') {
            Ok(p2) => match (if at_symbol(s, p2, '*') {
                symbol_spec(s, p2, '*')
            } else {
                symbol_spec(s, p2, '1')
            }) {
                Ok(p3) => match symbol_spec(s, p3, ')') {
                    Ok(e) => Ok((FieldsModel::Count, e)),
                    Err(x) => Err(x),
                },
                Err(x) => Err(x),
            },
            Err(x) => Err(x),
        },
        Err(x) => Err(x),
    }
}

pub fn count(s: &Vec<char>, p: usize) -> (r: Result<(Fields, usize), ParseError>)
    requires
        p <= s@.len(),
    ensures
        err_within(r, s@.len()),
        res_view(r) == count_spec(s@, p as int),
        ok_within(r, p, s@.len()),
{
    match keyword(s, p, Keyword::Count) {
        Ok(p1) => match symbol(s, p1, '(') {
            Ok(p2) => match (if symbol_ahead(s, p2, '*') {
                symbol(s, p2, '*')
            } else {
                symbol(s, p2, '1')
            }) {
                Ok(p3) => match symbol(s, p3, ')') {
                    Ok(e) => Ok((Fields::Count, e)),
                    Err(x) => Err(x),
                },
                Err(x) => Err(x),
            },
            Err(x) => Err(x),
        },
        Err(x) => Err(x),
    }
}

/// `COUNT` followed by `(`: the field list is a count.
pub open spec fn count_at(s: Seq<char>, p: int) -> bool {
    match keyword_spec(s, p, Keyword::Count) {
        Ok(p1) => at_symbol(s, p1, '('),
        Err(_) => false,
    }
}

/// `*`, `COUNT(..)`, or a list of field names.
pub open spec fn fields_or_star_spec(s: Seq<char>, p: int) -> Parsed<FieldsModel> {
    if at_symbol(s, p, '*') {
        match symbol_spec(s, p, '*') {
            Ok(e) => Ok((FieldsModel::All, e)),
            Err(x) => Err(x),
        }
    } else if count_at(s, p) {
        count_spec(s, p)
    } else {
        fields_spec(s, p)
    }
}

pub fn fields_or_star(s: &Vec<char>, p: usize) -> (r: Result<(Fields, usize), ParseError>)
    requires
        p <= s@.len(),
    ensures
        err_within(r, s@.len()),
        res_view(r) == fields_or_star_spec(s@, p as int),
        ok_within(r, p, s@.len()),
{
    if symbol_ahead(s, p, '*') {
        match symbol(s, p, '*') {
            Ok(e) => Ok((Fields::All, e)),
            Err(x) => Err(x),
        }
    } else {
        let counting = match keyword(s, p, Keyword::Count) {
            Ok(p1) => symbol_ahead(s, p1, '('),
            Err(_) => false,
        };
        if counting {
            count(s, p)
        } else {
            fields(s, p)
        }
    }
}

/// What stands between DELETE and the table: `FROM` alone (no fields), or
/// `field (, field)* FROM`.
pub open spec fn delete_from_spec(s: Seq<char>, p: int) -> Parsed<FieldsModel> {
    match keyword_spec(s, p, Keyword::From) {
        Ok(e) => Ok((FieldsModel::Omitted, e)),
        Err(_) => match fields_spec(s, p) {
            Ok((f, p1)) => match keyword_spec(s, p1, Keyword::From) {
                Ok(e) => Ok((f, e)),
                Err(x) => Err(x),
            },
            Err(x) => Err(x),
        },
    }
}

pub fn delete_from(s: &Vec<char>, p: usize) -> (r: Result<(Fields, usize), ParseError>)
    requires
        p <= s@.len(),
    ensures
        err_within(r, s@.len()),
        res_view(r) == delete_from_spec(s@, p as int),
        r is Ok ==> p <= r->Ok_0.1 <= s@.len(),
{
    match keyword(s, p, Keyword::From) {
        Ok(e) => Ok((Fields::Omitted, e)),
        Err(_) => match fields(s, p) {
            Ok((f, p1)) => match keyword(s, p1, Keyword::From) {
                Ok(e) => Ok((f, e)),
                Err(x) => Err(x),
            },
            Err(x) => Err(x),
        },
    }
}

// ---------------------------------------------------------------------------
// Lists of values (INSERT)

/// After a value: `, ` and another, as long as a comma follows.
pub open spec fn values_rest(s: Seq<char>, p: int, acc: Seq<ValueModel>) -> Parsed<Seq<ValueModel>>
    decreases s.len() - p,
{
    match symbol_spec(s, p, ',') {
        Ok(p1) => match value_spec(s, p1) {
            Ok((x, p2)) => if p < p2 <= s.len() {
                values_rest(s, p2, acc.push(x))
            } else {
                fail(ErrorKind::SyntaxError, p2, Expected::Value)
            },
            Err(x) => Err(x),
        },
        Err(_) => Ok((acc, p)),
    }
}

/// One or more of a value, separated by commas.
pub open spec fn values_spec(s: Seq<char>, p: int) -> Parsed<Seq<ValueModel>> {
    match value_spec(s, p) {
        Ok((x, p1)) => values_rest(s, p1, seq![x]),
        Err(x) => Err(x),
    }
}

#[verifier::loop_isolation(false)]
pub fn values(s: &Vec<char>, p: usize) -> (r: Result<(Vec<Value>, usize), ParseError>)
    requires
        p <= s@.len(),
    ensures
        err_within(r, s@.len()),
        res_view(r) == values_spec(s@, p as int),
        ok_within(r, p, s@.len()),
{
    let (x, p1) = match value(s, p) {
        Ok(ok) => ok,
        Err(e) => {
            return Err(e);
        },
    };
    let ghost xv = x.deep_view();
    let mut acc: Vec<Value> = Vec::new();
    acc.push(x);
    assert(acc.deep_view() =~= seq![xv]);
    let mut i = p1;
    loop
        invariant
            p < p1 <= i <= s@.len(),
            values_spec(s@, p as int) == values_rest(s@, i as int, acc.deep_view()),
        decreases s@.len() - i,
    {
        match symbol(s, i, ',') {
            Ok(j) => match value(s, j) {
                Ok((y, k)) => {
                    let ghost before = acc.deep_view();
                    let ghost yv = y.deep_view();
                    acc.push(y);
                    assert(acc.deep_view() =~= before.push(yv));
                    i = k;
                },
                Err(e) => {
                    return Err(e);
                },
            },
            Err(_) => {
                return Ok((acc, i));
            },
        }
    }
}

// ---------------------------------------------------------------------------
// Assignments (UPDATE ... SET)

/// The amount of a counter change: an integer or `?`.
pub open spec fn delta_spec(s: Seq<char>, p: int) -> Parsed<ValueModel> {
    if at_symbol(s, p, '?') {
        Ok((ValueModel::Placeholder, skip_ws_spec(s, p) + 1))
    } else {
        match integer_spec(s, p) {
            Ok((v, e)) => Ok((ValueModel::Int(v), e)),
            Err(x) => Err(x),
        }
    }
}

fn delta(s: &Vec<char>, p: usize) -> (r: Result<(Value, usize), ParseError>)
    requires
        p <= s@.len(),
    ensures
        err_within(r, s@.len()),
        res_view(r) == delta_spec(s@, p as int),
        ok_within(r, p, s@.len()),
{
    if symbol_ahead(s, p, '?') {
        match symbol(s, p, '?') {
            Ok(e) => Ok((Value::Placeholder, e)),
            Err(x) => Err(x),
        }
    } else {
        match integer(s, p) {
            Ok((v, e)) => Ok((Value::Int(v), e)),
            Err(x) => Err(x),
        }
    }
}

pub open spec fn is_collection(v: ValueModel) -> bool {
    v is MapLiteral || v is SetLiteral || v is List
}

/// `field[index] = value`, from the `[` on.
pub open spec fn element_update_spec(s: Seq<char>, f: Text, p: int) -> Parsed<AssignmentModel> {
    match symbol_spec(s, p, '[') {
        Ok(p1) => match term_spec(s, p1) {
            Ok((ix, p2)) => match symbol_spec(s, p2, ']') {
                Ok(p3) => match symbol_spec(s, p3, '=') {
                    Ok(p4) => match value_spec(s, p4) {
                        Ok((v, e)) => Ok(
                            (AssignmentModel::ElementUpdate { field: f, index: ix, value: v }, e),
                        ),
                        Err(x) => Err(x),
                    },
                    Err(x) => Err(x),
                },
                Err(x) => Err(x),
            },
            Err(x) => Err(x),
        },
        Err(x) => Err(x),
    }
}

/// `field = field (+|-) ..`, from the field on the right on: a counter change,
/// or a collection appended; the field on the right must be the field assigned.
pub open spec fn self_reference_spec(s: Seq<char>, f: Text, p: int) -> Parsed<AssignmentModel> {
    match identifier_spec(s, p) {
        Ok((g, p1)) => {
            let q = skip_ws_spec(s, p1);
            if g != f {
                fail(ErrorKind::MismatchedAssignmentField, skip_ws_spec(s, p), Expected::SameField)
            } else if 0 <= q < s.len() && s[q] == '+' {
                if collection_at(s, q + 1) {
                    match collection_spec(s, q + 1) {
                        Ok((v, e)) => Ok(
                            (AssignmentModel::CollectionAppend { field: f, literal: v }, e),
                        ),
                        Err(x) => Err(x),
                    }
                } else {
                    match delta_spec(s, q + 1) {
                        Ok((d, e)) => Ok((AssignmentModel::CounterIncr { field: f, delta: d }, e)),
                        Err(x) => Err(x),
                    }
                }
            } else if 0 <= q < s.len() && s[q] == '-' {
                match delta_spec(s, q + 1) {
                    Ok((d, e)) => Ok((AssignmentModel::CounterDecr { field: f, delta: d }, e)),
                    Err(x) => Err(x),
                }
            } else {
                fail(ErrorKind::SyntaxError, q, Expected::Symbol('+'))
            }
        },
        Err(x) => Err(x),
    }
}

/// `field = value`, or `field = literal + field` when a collection literal is
/// followed by `+`.
pub open spec fn value_assignment_spec(s: Seq<char>, f: Text, p: int) -> Parsed<AssignmentModel> {
    match value_spec(s, p) {
        Ok((v, p1)) => if is_collection(v) && at_symbol(s, p1, '+') {
            let p2 = skip_ws_spec(s, p1) + 1;
            match identifier_spec(s, p2) {
                Ok((g, e)) => if g == f {
                    Ok((AssignmentModel::CollectionPrepend { field: f, literal: v }, e))
                } else {
                    fail(
                        ErrorKind::MismatchedAssignmentField,
                        skip_ws_spec(s, p2),
                        Expected::SameField,
                    )
                },
                Err(x) => Err(x),
            }
        } else {
            Ok((AssignmentModel::Simple { field: f, value: v }, p1))
        },
        Err(x) => Err(x),
    }
}

/// One item of SET: the field, then `[`..`] = value`, or `=` and either a field
/// (a counter change or an append) or a value (possibly prepended to the field).
/// A UUID after `=` is a value, even where it starts with a letter.
pub open spec fn assignment_spec(s: Seq<char>, p: int) -> Parsed<AssignmentModel> {
    match identifier_spec(s, p) {
        Ok((f, p1)) => if at_symbol(s, p1, '[') {
            element_update_spec(s, f, p1)
        } else {
            match symbol_spec(s, p1, '=') {
                Ok(p2) => if ident_at(s, skip_ws_spec(s, p2)) && !uuid_at(s, skip_ws_spec(s, p2)) {
                    self_reference_spec(s, f, p2)
                } else {
                    value_assignment_spec(s, f, p2)
                },
                Err(x) => Err(x),
            }
        },
        Err(x) => Err(x),
    }
}

fn element_update(s: &Vec<char>, f: String, p: usize) -> (r: Result<(Assignment, usize), ParseError>)
    requires
        p <= s@.len(),
    ensures
        err_within(r, s@.len()),
        res_view(r) == element_update_spec(s@, f@, p as int),
        ok_within(r, p, s@.len()),
{
    match symbol(s, p, '[') {
        Ok(p1) => match term(s, p1) {
            Ok((ix, p2)) => match symbol(s, p2, ']') {
                Ok(p3) => match symbol(s, p3, '=') {
                    Ok(p4) => match value(s, p4) {
                        Ok((v, e)) => Ok((Assignment::ElementUpdate { field: f, index: ix, value: v }, e)),
                        Err(x) => Err(x),
                    },
                    Err(x) => Err(x),
                },
                Err(x) => Err(x),
            },
            Err(x) => Err(x),
        },
        Err(x) => Err(x),
    }
}

fn self_reference(s: &Vec<char>, f: String, p: usize) -> (r: Result<(Assignment, usize), ParseError>)
    requires
        p <= s@.len(),
    ensures
        err_within(r, s@.len()),
        res_view(r) == self_reference_spec(s@, f@, p as int),
        ok_within(r, p, s@.len()),
{
    match identifier(s, p) {
        Ok((g, p1)) => {
            let q = skip_ws(s, p1);
            if g != f {
                Err(
                    ParseError {
                        kind: ErrorKind::MismatchedAssignmentField,
                        pos: skip_ws(s, p),
                        expected: Expected::SameField,
                    },
                )
            } else if q < s.len() && s[q] == '+' {
                if collection_ahead(s, q + 1) {
                    match collection(s, q + 1) {
                        Ok((v, e)) => Ok((Assignment::CollectionAppend { field: f, literal: v }, e)),
                        Err(x) => Err(x),
                    }
                } else {
                    match delta(s, q + 1) {
                        Ok((d, e)) => Ok((Assignment::CounterIncr { field: f, delta: d }, e)),
                        Err(x) => Err(x),
                    }
                }
            } else if q < s.len() && s[q] == '-' {
                match delta(s, q + 1) {
                    Ok((d, e)) => Ok((Assignment::CounterDecr { field: f, delta: d }, e)),
                    Err(x) => Err(x),
                }
            } else {
                Err(ParseError { kind: ErrorKind::SyntaxError, pos: q, expected: Expected::Symbol('+') })
            }
        },
        Err(x) => Err(x),
    }
}

fn collection_value(v: &Value) -> (b: bool)
    ensures
        b == is_collection(v.deep_view()),
{
    match v {
        Value::MapLiteral(_) => true,
        Value::SetLiteral(_) => true,
        Value::List(_) => true,
        _ => false,
    }
}

fn value_assignment(s: &Vec<char>, f: String, p: usize) -> (r: Result<(Assignment, usize), ParseError>)
    requires
        p <= s@.len(),
    ensures
        err_within(r, s@.len()),
        res_view(r) == value_assignment_spec(s@, f@, p as int),
        ok_within(r, p, s@.len()),
{
    match value(s, p) {
        Ok((v, p1)) => if collection_value(&v) && symbol_ahead(s, p1, '+') {
            let p2 = match symbol(s, p1, '+') {
                Ok(p2) => p2,
                Err(x) => {
                    return Err(x);
                },
            };
            match identifier(s, p2) {
                Ok((g, e)) => if g == f {
                    Ok((Assignment::CollectionPrepend { field: f, literal: v }, e))
                } else {
                    Err(
                        ParseError {
                            kind: ErrorKind::MismatchedAssignmentField,
                            pos: skip_ws(s, p2),
                            expected: Expected::SameField,
                        },
                    )
                },
                Err(x) => Err(x),
            }
        } else {
            Ok((Assignment::Simple { field: f, value: v }, p1))
        },
        Err(x) => Err(x),
    }
}

pub fn assignment(s: &Vec<char>, p: usize) -> (r: Result<(Assignment, usize), ParseError>)
    requires
        p <= s@.len(),
    ensures
        err_within(r, s@.len()),
        res_view(r) == assignment_spec(s@, p as int),
        ok_within(r, p, s@.len()),
{
    match identifier(s, p) {
        Ok((f, p1)) => if symbol_ahead(s, p1, '[') {
            element_update(s, f, p1)
        } else {
            match symbol(s, p1, '=') {
                Ok(p2) => if ident_ahead(s, p2) && !uuid_ahead(s, skip_ws(s, p2)) {
                    self_reference(s, f, p2)
                } else {
                    value_assignment(s, f, p2)
                },
                Err(x) => Err(x),
            }
        },
        Err(x) => Err(x),
    }
}

/// After an assignment: `, ` and another, as long as a comma follows.
pub open spec fn assignments_rest(s: Seq<char>, p: int, acc: Seq<AssignmentModel>) -> Parsed<Seq<AssignmentModel>>
    decreases s.len() - p,
{
    match symbol_spec(s, p, ',') {
        Ok(p1) => match assignment_spec(s, p1) {
            Ok((x, p2)) => if p < p2 <= s.len() {
                assignments_rest(s, p2, acc.push(x))
            } else {
                fail(ErrorKind::SyntaxError, p2, Expected::Value)
            },
            Err(x) => Err(x),
        },
        Err(_) => Ok((acc, p)),
    }
}

/// One or more of an assignment, separated by commas.
pub open spec fn assignments_spec(s: Seq<char>, p: int) -> Parsed<Seq<AssignmentModel>> {
    match assignment_spec(s, p) {
        Ok((x, p1)) => assignments_rest(s, p1, seq![x]),
        Err(x) => Err(x),
    }
}

#[verifier::loop_isolation(false)]
pub fn assignments(s: &Vec<char>, p: usize) -> (r: Result<(Vec<Assignment>, usize), ParseError>)
    requires
        p <= s@.len(),
    ensures
        err_within(r, s@.len()),
        res_view(r) == assignments_spec(s@, p as int),
        ok_within(r, p, s@.len()),
{
    let (x, p1) = match assignment(s, p) {
        Ok(ok) => ok,
        Err(e) => {
            return Err(e);
        },
    };
    let ghost xv = x.deep_view();
    let mut acc: Vec<Assignment> = Vec::new();
    acc.push(x);
    assert(acc.deep_view() =~= seq![xv]);
    let mut i = p1;
    loop
        invariant
            p < p1 <= i <= s@.len(),
            assignments_spec(s@, p as int) == assignments_rest(s@, i as int, acc.deep_view()),
        decreases s@.len() - i,
    {
        match symbol(s, i, ',') {
            Ok(j) => match assignment(s, j) {
                Ok((y, k)) => {
                    let ghost before = acc.deep_view();
                    let ghost yv = y.deep_view();
                    acc.push(y);
                    assert(acc.deep_view() =~= before.push(yv));
                    i = k;
                },
                Err(e) => {
                    return Err(e);
                },
            },
            Err(_) => {
                return Ok((acc, i));
            },
        }
    }
}

} // verus!
