//! Statements and the entry point: `parse` reads one SELECT, INSERT, UPDATE or
//! DELETE statement, chosen by its first keyword, and builds it.
use vstd::prelude::*;
use crate::ast::{
    Assignment, AssignmentModel, Value, ValueModel,
    built, delete_build, insert_build, select_build, update_build, DeleteModel,
    DeleteStatement, ErrorKind, Expected, Fields, FieldsModel, InsertModel, InsertStatement,
    Keyword, OrderBy, OrderByModel, ParseError, ParsedCqlStatement, Predicate, PredicateModel,
    SelectModel, SelectStatement, StatementModel, UpdateModel, UpdateStatement, UsingOption,
};
use crate::grammar;
use crate::grammar::{
    assignment_spec, assignments_spec, collection_spec, delete_from_spec, field_names_spec, fields_or_star_spec,
    fields_spec, limit_spec, op_spec, order_by_spec, predicate_spec, predicates_spec,
    using_clause_spec, value_spec, values_spec, where_clause_spec, where_clauses_spec,
};
use crate::lexer::{
    err_within,
    at_end, at_end_spec, at_keyword, at_symbol, identifier, identifier_spec, keyword,
    keyword_ahead, keyword_spec, res_view, skip_ws, skip_ws_spec, symbol, symbol_ahead,
    symbol_spec, to_chars, fail, quoted_string_spec, uuid_spec, Parsed,
};

verus! {

/// The model of a finished rule's outcome.
pub open spec fn out_view<T: DeepView>(r: Result<T, ParseError>) -> Result<T::V, ParseError> {
    match r {
        Ok(x) => Ok(x.deep_view()),
        Err(e) => Err(e),
    }
}

/// The statement ends at `p`: an optional `;`, then only blanks and comments.
pub open spec fn end_spec(s: Seq<char>, p: int) -> Result<int, ParseError> {
    if at_symbol(s, p, ';') {
        at_end_spec(s, skip_ws_spec(s, p) + 1)
    } else {
        at_end_spec(s, p)
    }
}

fn end_of_statement(s: &Vec<char>, p: usize) -> (r: Result<usize, ParseError>)
    requires
        p <= s@.len(),
    ensures
        err_within(r, s@.len()),
        crate::lexer::pos_view(r) == end_spec(s@, p as int),
{
    if symbol_ahead(s, p, ';') {
        match symbol(s, p, ';') {
            Ok(e) => at_end(s, e),
            Err(x) => Err(x),
        }
    } else {
        at_end(s, p)
    }
}

/// The error for a statement whose parts were read but cannot be built.
pub open spec fn build_error(k: ErrorKind, pos: int) -> ParseError {
    ParseError {
        kind: k,
        pos: pos as usize,
        expected: match k {
            ErrorKind::NonPositiveLimit => Expected::PositiveLimit,
            ErrorKind::FieldValueArityMismatch { .. } => Expected::MatchingValueCount,
            ErrorKind::MissingWhereClause => Expected::WhereClause,
            _ => Expected::Statement,
        },
    }
}

fn build_error_exec(k: ErrorKind, pos: usize) -> (e: ParseError)
    ensures
        e == build_error(k, pos as int),
{
    let expected = match k {
        ErrorKind::NonPositiveLimit => Expected::PositiveLimit,
        ErrorKind::FieldValueArityMismatch { .. } => Expected::MatchingValueCount,
        ErrorKind::MissingWhereClause => Expected::WhereClause,
        _ => Expected::Statement,
    };
    ParseError { kind: k, pos, expected }
}

// ---------------------------------------------------------------------------
// Optional clauses: absent unless their first keyword comes next.

pub open spec fn opt_where_spec(s: Seq<char>, p: int) -> Parsed<Option<Seq<PredicateModel>>> {
    if at_keyword(s, p, Keyword::Where) {
        match where_clauses_spec(s, p) {
            Ok((w, e)) => Ok((Some(w), e)),
            Err(x) => Err(x),
        }
    } else {
        Ok((None, p))
    }
}

fn opt_where(s: &Vec<char>, p: usize) -> (r: Result<(Option<Vec<Predicate>>, usize), ParseError>)
    requires
        p <= s@.len(),
    ensures
        err_within(r, s@.len()),
        res_view(r) == opt_where_spec(s@, p as int),
        r is Ok ==> p <= r->Ok_0.1 <= s@.len(),
{
    if keyword_ahead(s, p, Keyword::Where) {
        match grammar::where_clauses(s, p) {
            Ok((w, e)) => Ok((Some(w), e)),
            Err(x) => Err(x),
        }
    } else {
        Ok((None, p))
    }
}

pub open spec fn opt_order_spec(s: Seq<char>, p: int) -> Parsed<Option<OrderByModel>> {
    if at_keyword(s, p, Keyword::Order) {
        match order_by_spec(s, p) {
            Ok((o, e)) => Ok((Some(o), e)),
            Err(x) => Err(x),
        }
    } else {
        Ok((None, p))
    }
}

fn opt_order(s: &Vec<char>, p: usize) -> (r: Result<(Option<OrderBy>, usize), ParseError>)
    requires
        p <= s@.len(),
    ensures
        err_within(r, s@.len()),
        res_view(r) == opt_order_spec(s@, p as int),
        r is Ok ==> p <= r->Ok_0.1 <= s@.len(),
{
    if keyword_ahead(s, p, Keyword::Order) {
        match grammar::order_by(s, p) {
            Ok((o, e)) => Ok((Some(o), e)),
            Err(x) => Err(x),
        }
    } else {
        Ok((None, p))
    }
}

pub open spec fn opt_limit_spec(s: Seq<char>, p: int) -> Parsed<Option<isize>> {
    if at_keyword(s, p, Keyword::Limit) {
        match limit_spec(s, p) {
            Ok((n, e)) => Ok((Some(n), e)),
            Err(x) => Err(x),
        }
    } else {
        Ok((None, p))
    }
}

fn opt_limit(s: &Vec<char>, p: usize) -> (r: Result<(Option<isize>, usize), ParseError>)
    requires
        p <= s@.len(),
    ensures
        err_within(r, s@.len()),
        res_view(r) == opt_limit_spec(s@, p as int),
        r is Ok ==> p <= r->Ok_0.1 <= s@.len(),
{
    if keyword_ahead(s, p, Keyword::Limit) {
        match grammar::limit(s, p) {
            Ok((n, e)) => Ok((Some(n), e)),
            Err(x) => Err(x),
        }
    } else {
        Ok((None, p))
    }
}

pub open spec fn opt_using_spec(s: Seq<char>, p: int) -> Parsed<Option<Seq<UsingOption>>> {
    if at_keyword(s, p, Keyword::Using) {
        match using_clause_spec(s, p) {
            Ok((u, e)) => Ok((Some(u), e)),
            Err(x) => Err(x),
        }
    } else {
        Ok((None, p))
    }
}

fn opt_using(s: &Vec<char>, p: usize) -> (r: Result<(Option<Vec<UsingOption>>, usize), ParseError>)
    requires
        p <= s@.len(),
    ensures
        err_within(r, s@.len()),
        res_view(r) == opt_using_spec(s@, p as int),
        r is Ok ==> p <= r->Ok_0.1 <= s@.len(),
{
    if keyword_ahead(s, p, Keyword::Using) {
        match grammar::using_clause(s, p) {
            Ok((u, e)) => Ok((Some(u), e)),
            Err(x) => Err(x),
        }
    } else {
        Ok((None, p))
    }
}

/// `IF NOT EXISTS`, if it comes next.
pub open spec fn opt_lwt_spec(s: Seq<char>, p: int) -> Parsed<bool> {
    if at_keyword(s, p, Keyword::If) {
        match keyword_spec(s, p, Keyword::If) {
            Ok(p1) => match keyword_spec(s, p1, Keyword::Not) {
                Ok(p2) => match keyword_spec(s, p2, Keyword::Exists) {
                    Ok(e) => Ok((true, e)),
                    Err(x) => Err(x),
                },
                Err(x) => Err(x),
            },
            Err(x) => Err(x),
        }
    } else {
        Ok((false, p))
    }
}

fn opt_lwt(s: &Vec<char>, p: usize) -> (r: Result<(bool, usize), ParseError>)
    requires
        p <= s@.len(),
    ensures
        err_within(r, s@.len()),
        res_view(r) == opt_lwt_spec(s@, p as int),
        r is Ok ==> p <= r->Ok_0.1 <= s@.len(),
{
    if keyword_ahead(s, p, Keyword::If) {
        match keyword(s, p, Keyword::If) {
            Ok(p1) => match keyword(s, p1, Keyword::Not) {
                Ok(p2) => match keyword(s, p2, Keyword::Exists) {
                    Ok(e) => Ok((true, e)),
                    Err(x) => Err(x),
                },
                Err(x) => Err(x),
            },
            Err(x) => Err(x),
        }
    } else {
        Ok((false, p))
    }
}

/// `IF EXISTS`, or `IF predicate (AND predicate)*`, if `IF` comes next.
pub open spec fn opt_if_spec(s: Seq<char>, p: int) -> Parsed<(bool, Option<Seq<PredicateModel>>)> {
    if at_keyword(s, p, Keyword::If) {
        match keyword_spec(s, p, Keyword::If) {
            Ok(p1) => if at_keyword(s, p1, Keyword::Exists) {
                match keyword_spec(s, p1, Keyword::Exists) {
                    Ok(e) => Ok(((true, None), e)),
                    Err(x) => Err(x),
                }
            } else {
                match predicates_spec(s, p1) {
                    Ok((c, e)) => Ok(((false, Some(c)), e)),
                    Err(x) => Err(x),
                }
            },
            Err(x) => Err(x),
        }
    } else {
        Ok(((false, None), p))
    }
}

fn opt_if(s: &Vec<char>, p: usize) -> (r: Result<((bool, Option<Vec<Predicate>>), usize), ParseError>)
    requires
        p <= s@.len(),
    ensures
        err_within(r, s@.len()),
        res_view(r) == opt_if_spec(s@, p as int),
        r is Ok ==> p <= r->Ok_0.1 <= s@.len(),
{
    if keyword_ahead(s, p, Keyword::If) {
        match keyword(s, p, Keyword::If) {
            Ok(p1) => if keyword_ahead(s, p1, Keyword::Exists) {
                match keyword(s, p1, Keyword::Exists) {
                    Ok(e) => Ok(((true, None), e)),
                    Err(x) => Err(x),
                }
            } else {
                match grammar::predicates(s, p1) {
                    Ok((c, e)) => Ok(((false, Some(c)), e)),
                    Err(x) => Err(x),
                }
            },
            Err(x) => Err(x),
        }
    } else {
        Ok(((false, None), p))
    }
}

pub open spec fn or_empty(w: Option<Seq<PredicateModel>>) -> Seq<PredicateModel> {
    match w {
        Some(v) => v,
        None => Seq::empty(),
    }
}

fn or_empty_exec(w: Option<Vec<Predicate>>) -> (r: Vec<Predicate>)
    ensures
        r.deep_view() == or_empty(w.deep_view()),
{
    match w {
        Some(v) => v,
        None => {
            let v: Vec<Predicate> = Vec::new();
            assert(v.deep_view() =~= Seq::<PredicateModel>::empty());
            v
        },
    }
}

// ---------------------------------------------------------------------------
// SELECT

/// `SELECT fields FROM table [WHERE ..] [ORDER BY ..] [LIMIT n]`, to the end of
/// the input; with it, where a failed build is reported (the LIMIT keyword).
pub open spec fn select_syntax(s: Seq<char>, p: int) -> Result<(SelectModel, int), ParseError> {
    match keyword_spec(s, p, Keyword::Select) {
        Ok(p1) => match fields_or_star_spec(s, p1) {
            Ok((f, p2)) => match keyword_spec(s, p2, Keyword::From) {
                Ok(p3) => match identifier_spec(s, p3) {
                    Ok((t, p4)) => match opt_where_spec(s, p4) {
                        Ok((w, p5)) => match opt_order_spec(s, p5) {
                            Ok((o, p6)) => match opt_limit_spec(s, p6) {
                                Ok((l, p7)) => match end_spec(s, p7) {
                                    Ok(_) => Ok(
                                        (
                                            SelectModel {
                                                fields: f,
                                                table: t,
                                                where_clauses: w,
                                                order_by: o,
                                                limit: l,
                                            },
                                            skip_ws_spec(s, p6),
                                        ),
                                    ),
                                    Err(x) => Err(x),
                                },
                                Err(x) => Err(x),
                            },
                            Err(x) => Err(x),
                        },
                        Err(x) => Err(x),
                    },
                    Err(x) => Err(x),
                },
                Err(x) => Err(x),
            },
            Err(x) => Err(x),
        },
        Err(x) => Err(x),
    }
}

pub open spec fn select_spec(s: Seq<char>, p: int) -> Result<SelectModel, ParseError> {
    match select_syntax(s, p) {
        Ok((m, at)) => match select_build(m) {
            Ok(b) => Ok(b),
            Err(k) => Err(build_error(k, at)),
        },
        Err(x) => Err(x),
    }
}

fn select_statement(s: &Vec<char>, p: usize) -> (r: Result<SelectStatement, ParseError>)
    requires
        p <= s@.len(),
    ensures
        err_within(r, s@.len()),
        out_view(r) == select_spec(s@, p as int),
{
    let p1 = match keyword(s, p, Keyword::Select) {
        Ok(x) => x,
        Err(x) => {
            return Err(x);
        },
    };
    let (f, p2) = match grammar::fields_or_star(s, p1) {
        Ok(x) => x,
        Err(x) => {
            return Err(x);
        },
    };
    let p3 = match keyword(s, p2, Keyword::From) {
        Ok(x) => x,
        Err(x) => {
            return Err(x);
        },
    };
    let (t, p4) = match identifier(s, p3) {
        Ok(x) => x,
        Err(x) => {
            return Err(x);
        },
    };
    let (w, p5) = match opt_where(s, p4) {
        Ok(x) => x,
        Err(x) => {
            return Err(x);
        },
    };
    let (o, p6) = match opt_order(s, p5) {
        Ok(x) => x,
        Err(x) => {
            return Err(x);
        },
    };
    let (l, p7) = match opt_limit(s, p6) {
        Ok(x) => x,
        Err(x) => {
            return Err(x);
        },
    };
    match end_of_statement(s, p7) {
        Ok(_) => {},
        Err(x) => {
            return Err(x);
        },
    }
    let at = skip_ws(s, p6);
    match SelectStatement::new(f, t, w, o, l) {
        Ok(b) => Ok(b),
        Err(k) => Err(build_error_exec(k, at)),
    }
}

// ---------------------------------------------------------------------------
// INSERT

/// `INSERT INTO table (fields) VALUES (values) [IF NOT EXISTS] [USING ..]`, to
/// the end of the input; with it, where a failed build is reported (the `(` of
/// the values).
pub open spec fn insert_syntax(s: Seq<char>, p: int) -> Result<(InsertModel, int), ParseError> {
    match keyword_spec(s, p, Keyword::Insert) {
        Ok(p1) => match keyword_spec(s, p1, Keyword::Into) {
            Ok(p2) => match identifier_spec(s, p2) {
                Ok((t, p3)) => match symbol_spec(s, p3, '(') {
                    Ok(p4) => match field_names_spec(s, p4) {
                        Ok((f, p5)) => match symbol_spec(s, p5, ')') {
                            Ok(p6) => match keyword_spec(s, p6, Keyword::Values) {
                                Ok(p7) => match symbol_spec(s, p7, '(') {
                                    Ok(p8) => match values_spec(s, p8) {
                                        Ok((v, p9)) => match symbol_spec(s, p9, ')') {
                                            Ok(p10) => match opt_lwt_spec(s, p10) {
                                                Ok((lwt, p11)) => match opt_using_spec(s, p11) {
                                                    Ok((u, p12)) => match end_spec(s, p12) {
                                                        Ok(_) => Ok(
                                                            (
                                                                InsertModel {
                                                                    table: t,
                                                                    fields: FieldsModel::Named(f),
                                                                    values: v,
                                                                    lwt: lwt,
                                                                    using: u,
                                                                },
                                                                skip_ws_spec(s, p7),
                                                            ),
                                                        ),
                                                        Err(x) => Err(x),
                                                    },
                                                    Err(x) => Err(x),
                                                },
                                                Err(x) => Err(x),
                                            },
                                            Err(x) => Err(x),
                                        },
                                        Err(x) => Err(x),
                                    },
                                    Err(x) => Err(x),
                                },
                                Err(x) => Err(x),
                            },
                            Err(x) => Err(x),
                        },
                        Err(x) => Err(x),
                    },
                    Err(x) => Err(x),
                },
                Err(x) => Err(x),
            },
            Err(x) => Err(x),
        },
        Err(x) => Err(x),
    }
}

pub open spec fn insert_spec(s: Seq<char>, p: int) -> Result<InsertModel, ParseError> {
    match insert_syntax(s, p) {
        Ok((m, at)) => match insert_build(m) {
            Ok(b) => Ok(b),
            Err(k) => Err(build_error(k, at)),
        },
        Err(x) => Err(x),
    }
}

fn insert_statement(s: &Vec<char>, p: usize) -> (r: Result<InsertStatement, ParseError>)
    requires
        p <= s@.len(),
    ensures
        err_within(r, s@.len()),
        out_view(r) == insert_spec(s@, p as int),
{
    let p1 = match keyword(s, p, Keyword::Insert) {
        Ok(x) => x,
        Err(x) => {
            return Err(x);
        },
    };
    let p2 = match keyword(s, p1, Keyword::Into) {
        Ok(x) => x,
        Err(x) => {
            return Err(x);
        },
    };
    let (t, p3) = match identifier(s, p2) {
        Ok(x) => x,
        Err(x) => {
            return Err(x);
        },
    };
    let p4 = match symbol(s, p3, '(') {
        Ok(x) => x,
        Err(x) => {
            return Err(x);
        },
    };
    let (f, p5) = match grammar::field_names(s, p4) {
        Ok(x) => x,
        Err(x) => {
            return Err(x);
        },
    };
    let p6 = match symbol(s, p5, ')') {
        Ok(x) => x,
        Err(x) => {
            return Err(x);
        },
    };
    let p7 = match keyword(s, p6, Keyword::Values) {
        Ok(x) => x,
        Err(x) => {
            return Err(x);
        },
    };
    let p8 = match symbol(s, p7, '(') {
        Ok(x) => x,
        Err(x) => {
            return Err(x);
        },
    };
    let (v, p9) = match grammar::values(s, p8) {
        Ok(x) => x,
        Err(x) => {
            return Err(x);
        },
    };
    let p10 = match symbol(s, p9, ')') {
        Ok(x) => x,
        Err(x) => {
            return Err(x);
        },
    };
    let (lwt, p11) = match opt_lwt(s, p10) {
        Ok(x) => x,
        Err(x) => {
            return Err(x);
        },
    };
    let (u, p12) = match opt_using(s, p11) {
        Ok(x) => x,
        Err(x) => {
            return Err(x);
        },
    };
    match end_of_statement(s, p12) {
        Ok(_) => {},
        Err(x) => {
            return Err(x);
        },
    }
    let at = skip_ws(s, p7);
    match InsertStatement::new(t, Fields::Named(f), v, lwt, u) {
        Ok(b) => Ok(b),
        Err(k) => Err(build_error_exec(k, at)),
    }
}

// ---------------------------------------------------------------------------
// UPDATE

/// `UPDATE table [USING ..] SET assignments [WHERE ..] [IF ..]`, to the end of
/// the input; with it, where a failed build is reported (after the assignments).
pub open spec fn update_syntax(s: Seq<char>, p: int) -> Result<(UpdateModel, int), ParseError> {
    match keyword_spec(s, p, Keyword::Update) {
        Ok(p1) => match identifier_spec(s, p1) {
            Ok((t, p2)) => match opt_using_spec(s, p2) {
                Ok((u, p3)) => match keyword_spec(s, p3, Keyword::SetKeyword) {
                    Ok(p4) => match assignments_spec(s, p4) {
                        Ok((a, p5)) => match opt_where_spec(s, p5) {
                            Ok((w, p6)) => match opt_if_spec(s, p6) {
                                Ok((c, p7)) => match end_spec(s, p7) {
                                    Ok(_) => Ok(
                                        (
                                            UpdateModel {
                                                table: t,
                                                assignments: a,
                                                where_clauses: or_empty(w),
                                                using: u,
                                                if_exists: c.0,
                                                if_condition: c.1,
                                            },
                                            skip_ws_spec(s, p5),
                                        ),
                                    ),
                                    Err(x) => Err(x),
                                },
                                Err(x) => Err(x),
                            },
                            Err(x) => Err(x),
                        },
                        Err(x) => Err(x),
                    },
                    Err(x) => Err(x),
                },
                Err(x) => Err(x),
            },
            Err(x) => Err(x),
        },
        Err(x) => Err(x),
    }
}

pub open spec fn update_spec(s: Seq<char>, p: int) -> Result<UpdateModel, ParseError> {
    match update_syntax(s, p) {
        Ok((m, at)) => match update_build(m) {
            Ok(b) => Ok(b),
            Err(k) => Err(build_error(k, at)),
        },
        Err(x) => Err(x),
    }
}

fn update_statement(s: &Vec<char>, p: usize) -> (r: Result<UpdateStatement, ParseError>)
    requires
        p <= s@.len(),
    ensures
        err_within(r, s@.len()),
        out_view(r) == update_spec(s@, p as int),
{
    let p1 = match keyword(s, p, Keyword::Update) {
        Ok(x) => x,
        Err(x) => {
            return Err(x);
        },
    };
    let (t, p2) = match identifier(s, p1) {
        Ok(x) => x,
        Err(x) => {
            return Err(x);
        },
    };
    let (u, p3) = match opt_using(s, p2) {
        Ok(x) => x,
        Err(x) => {
            return Err(x);
        },
    };
    let p4 = match keyword(s, p3, Keyword::SetKeyword) {
        Ok(x) => x,
        Err(x) => {
            return Err(x);
        },
    };
    let (a, p5) = match grammar::assignments(s, p4) {
        Ok(x) => x,
        Err(x) => {
            return Err(x);
        },
    };
    let (w, p6) = match opt_where(s, p5) {
        Ok(x) => x,
        Err(x) => {
            return Err(x);
        },
    };
    let (c, p7) = match opt_if(s, p6) {
        Ok(x) => x,
        Err(x) => {
            return Err(x);
        },
    };
    match end_of_statement(s, p7) {
        Ok(_) => {},
        Err(x) => {
            return Err(x);
        },
    }
    let at = skip_ws(s, p5);
    let (if_exists, if_condition) = c;
    match UpdateStatement::new(t, a, or_empty_exec(w), u, if_exists, if_condition) {
        Ok(b) => Ok(b),
        Err(k) => Err(build_error_exec(k, at)),
    }
}

// ---------------------------------------------------------------------------
// DELETE

/// `DELETE [fields] FROM table [WHERE ..] [USING ..]`, to the end of the input;
/// with it, where a failed build is reported (after the table).
pub open spec fn delete_syntax(s: Seq<char>, p: int) -> Result<(DeleteModel, int), ParseError> {
    match keyword_spec(s, p, Keyword::Delete) {
        Ok(p1) => match delete_from_spec(s, p1) {
            Ok((f, p2)) => match identifier_spec(s, p2) {
                Ok((t, p3)) => match opt_where_spec(s, p3) {
                    Ok((w, p4)) => match opt_using_spec(s, p4) {
                        Ok((u, p5)) => match end_spec(s, p5) {
                            Ok(_) => Ok(
                                (
                                    DeleteModel {
                                        table: t,
                                        fields: f,
                                        where_clauses: or_empty(w),
                                        using: u,
                                    },
                                    skip_ws_spec(s, p3),
                                ),
                            ),
                            Err(x) => Err(x),
                        },
                        Err(x) => Err(x),
                    },
                    Err(x) => Err(x),
                },
                Err(x) => Err(x),
            },
            Err(x) => Err(x),
        },
        Err(x) => Err(x),
    }
}

pub open spec fn delete_spec(s: Seq<char>, p: int) -> Result<DeleteModel, ParseError> {
    match delete_syntax(s, p) {
        Ok((m, at)) => match delete_build(m) {
            Ok(b) => Ok(b),
            Err(k) => Err(build_error(k, at)),
        },
        Err(x) => Err(x),
    }
}

fn delete_statement(s: &Vec<char>, p: usize) -> (r: Result<DeleteStatement, ParseError>)
    requires
        p <= s@.len(),
    ensures
        err_within(r, s@.len()),
        out_view(r) == delete_spec(s@, p as int),
{
    let p1 = match keyword(s, p, Keyword::Delete) {
        Ok(x) => x,
        Err(x) => {
            return Err(x);
        },
    };
    let (f, p2) = match grammar::delete_from(s, p1) {
        Ok(x) => x,
        Err(x) => {
            return Err(x);
        },
    };
    let (t, p3) = match identifier(s, p2) {
        Ok(x) => x,
        Err(x) => {
            return Err(x);
        },
    };
    let (w, p4) = match opt_where(s, p3) {
        Ok(x) => x,
        Err(x) => {
            return Err(x);
        },
    };
    let (u, p5) = match opt_using(s, p4) {
        Ok(x) => x,
        Err(x) => {
            return Err(x);
        },
    };
    match end_of_statement(s, p5) {
        Ok(_) => {},
        Err(x) => {
            return Err(x);
        },
    }
    let at = skip_ws(s, p3);
    match DeleteStatement::new(t, f, or_empty_exec(w), u) {
        Ok(b) => Ok(b),
        Err(k) => Err(build_error_exec(k, at)),
    }
}

// ---------------------------------------------------------------------------
// The whole statement

/// The statement kind is chosen by the first keyword: SELECT, INSERT, UPDATE
/// or DELETE; anything else is a syntax error at the first token.
pub open spec fn parse_spec(s: Seq<char>) -> Result<StatementModel, ParseError> {
    if at_keyword(s, 0, Keyword::Select) {
        match select_spec(s, 0) {
            Ok(m) => Ok(StatementModel::Select(m)),
            Err(x) => Err(x),
        }
    } else if at_keyword(s, 0, Keyword::Insert) {
        match insert_spec(s, 0) {
            Ok(m) => Ok(StatementModel::Insert(m)),
            Err(x) => Err(x),
        }
    } else if at_keyword(s, 0, Keyword::Update) {
        match update_spec(s, 0) {
            Ok(m) => Ok(StatementModel::Update(m)),
            Err(x) => Err(x),
        }
    } else if at_keyword(s, 0, Keyword::Delete) {
        match delete_spec(s, 0) {
            Ok(m) => Ok(StatementModel::Delete(m)),
            Err(x) => Err(x),
        }
    } else {
        Err(
            ParseError {
                kind: ErrorKind::SyntaxError,
                pos: skip_ws_spec(s, 0) as usize,
                expected: Expected::Statement,
            },
        )
    }
}

fn statement(s: &Vec<char>) -> (r: Result<ParsedCqlStatement, ParseError>)
    ensures
        err_within(r, s@.len()),
        out_view(r) == parse_spec(s@),
{
    if keyword_ahead(s, 0, Keyword::Select) {
        match select_statement(s, 0) {
            Ok(m) => Ok(ParsedCqlStatement::Select(m)),
            Err(x) => Err(x),
        }
    } else if keyword_ahead(s, 0, Keyword::Insert) {
        match insert_statement(s, 0) {
            Ok(m) => Ok(ParsedCqlStatement::Insert(m)),
            Err(x) => Err(x),
        }
    } else if keyword_ahead(s, 0, Keyword::Update) {
        match update_statement(s, 0) {
            Ok(m) => Ok(ParsedCqlStatement::Update(m)),
            Err(x) => Err(x),
        }
    } else if keyword_ahead(s, 0, Keyword::Delete) {
        match delete_statement(s, 0) {
            Ok(m) => Ok(ParsedCqlStatement::Delete(m)),
            Err(x) => Err(x),
        }
    } else {
        Err(
            ParseError {
                kind: ErrorKind::SyntaxError,
                pos: skip_ws(s, 0),
                expected: Expected::Statement,
            },
        )
    }
}

/// Reads one statement; the whole text must be that statement (an optional
/// `;`, blanks and comments may follow it). An error names a position within
/// the text.
pub fn parse(text: &str) -> (r: Result<ParsedCqlStatement, ParseError>)
    ensures
        err_within(r, text@.len()),
        out_view(r) == parse_spec(text@),
{
    let s = to_chars(text);
    statement(&s)
}

// ---------------------------------------------------------------------------
// Single rules over a whole text

/// The rule's result, when only blanks and comments follow it.
pub open spec fn whole<T>(s: Seq<char>, r: Parsed<T>) -> Result<T, ParseError> {
    match r {
        Ok((v, e)) => match at_end_spec(s, e) {
            Ok(_) => Ok(v),
            Err(x) => Err(x),
        },
        Err(x) => Err(x),
    }
}

fn finish<T: DeepView>(s: &Vec<char>, r: Result<(T, usize), ParseError>) -> (o: Result<T, ParseError>)
    requires
        r is Ok ==> r->Ok_0.1 <= s@.len(),
        err_within(r, s@.len()),
    ensures
        err_within(o, s@.len()),
        out_view(o) == whole(s@, res_view(r)),
{
    match r {
        Ok((v, e)) => match at_end(s, e) {
            Ok(_) => Ok(v),
            Err(x) => Err(x),
        },
        Err(x) => Err(x),
    }
}

/// The same as `parse`: the grammar's top rule.
pub fn cql_statement(text: &str) -> (r: Result<ParsedCqlStatement, ParseError>)
    ensures
        err_within(r, text@.len()),
        out_view(r) == parse_spec(text@),
{
    parse(text)
}

pub fn where_clauses(text: &str) -> (r: Result<Vec<Predicate>, ParseError>)
    ensures
        err_within(r, text@.len()),
        out_view(r) == whole(text@, where_clauses_spec(text@, 0)),
{
    let s = to_chars(text);
    finish(&s, grammar::where_clauses(&s, 0))
}

pub fn where_clause(text: &str) -> (r: Result<Predicate, ParseError>)
    ensures
        err_within(r, text@.len()),
        out_view(r) == whole(text@, where_clause_spec(text@, 0)),
{
    let s = to_chars(text);
    finish(&s, grammar::where_clause(&s, 0))
}

pub fn predicate(text: &str) -> (r: Result<Predicate, ParseError>)
    ensures
        err_within(r, text@.len()),
        out_view(r) == whole(text@, predicate_spec(text@, 0)),
{
    let s = to_chars(text);
    finish(&s, grammar::predicate(&s, 0))
}

pub fn op(text: &str) -> (r: Result<String, ParseError>)
    ensures
        err_within(r, text@.len()),
        out_view(r) == whole(text@, op_spec(text@, 0)),
{
    let s = to_chars(text);
    finish(&s, grammar::op(&s, 0))
}

pub fn value(text: &str) -> (r: Result<Value, ParseError>)
    ensures
        err_within(r, text@.len()),
        out_view(r) == whole(text@, value_spec(text@, 0)),
{
    let s = to_chars(text);
    finish(&s, grammar::value(&s, 0))
}

pub fn comma_separated_values(text: &str) -> (r: Result<Vec<Value>, ParseError>)
    ensures
        err_within(r, text@.len()),
        out_view(r) == whole(text@, values_spec(text@, 0)),
{
    let s = to_chars(text);
    finish(&s, grammar::values(&s, 0))
}

pub fn uuid(text: &str) -> (r: Result<String, ParseError>)
    ensures
        err_within(r, text@.len()),
        out_view(r) == whole(text@, uuid_spec(text@, 0)),
{
    let s = to_chars(text);
    finish(&s, crate::lexer::uuid(&s, 0))
}

/// The text of a quoted string, each doubled `'` read as one.
pub fn quoted_string(text: &str) -> (r: Result<String, ParseError>)
    ensures
        err_within(r, text@.len()),
        out_view(r) == whole(text@, quoted_string_spec(text@, 0)),
{
    let s = to_chars(text);
    finish(&s, crate::lexer::quoted_string(&s, 0))
}

pub fn fields(text: &str) -> (r: Result<Fields, ParseError>)
    ensures
        err_within(r, text@.len()),
        out_view(r) == whole(text@, fields_spec(text@, 0)),
{
    let s = to_chars(text);
    finish(&s, grammar::fields(&s, 0))
}

pub fn fields_or_star(text: &str) -> (r: Result<Fields, ParseError>)
    ensures
        err_within(r, text@.len()),
        out_view(r) == whole(text@, fields_or_star_spec(text@, 0)),
{
    let s = to_chars(text);
    finish(&s, grammar::fields_or_star(&s, 0))
}

pub fn count(text: &str) -> (r: Result<Fields, ParseError>)
    ensures
        err_within(r, text@.len()),
        out_view(r) == whole(text@, grammar::count_spec(text@, 0)),
{
    let s = to_chars(text);
    finish(&s, grammar::count(&s, 0))
}

pub fn delete_from(text: &str) -> (r: Result<Fields, ParseError>)
    ensures
        err_within(r, text@.len()),
        out_view(r) == whole(text@, delete_from_spec(text@, 0)),
{
    let s = to_chars(text);
    finish(&s, grammar::delete_from(&s, 0))
}

pub fn using_clause(text: &str) -> (r: Result<Vec<UsingOption>, ParseError>)
    ensures
        err_within(r, text@.len()),
        out_view(r) == whole(text@, using_clause_spec(text@, 0)),
{
    let s = to_chars(text);
    finish(&s, grammar::using_clause(&s, 0))
}

pub fn limit(text: &str) -> (r: Result<isize, ParseError>)
    ensures
        err_within(r, text@.len()),
        out_view(r) == whole(text@, limit_spec(text@, 0)),
{
    let s = to_chars(text);
    finish(&s, grammar::limit(&s, 0))
}

pub fn order_by(text: &str) -> (r: Result<OrderBy, ParseError>)
    ensures
        err_within(r, text@.len()),
        out_view(r) == whole(text@, order_by_spec(text@, 0)),
{
    let s = to_chars(text);
    finish(&s, grammar::order_by(&s, 0))
}

/// The three kinds of collection literal.
#[derive(Clone, Copy, Debug, PartialEq, Eq, Structural)]
pub enum CollectionKind {
    MapLiteral,
    SetLiteral,
    List,
}

pub open spec fn of_kind(v: ValueModel, kind: CollectionKind) -> bool {
    match kind {
        CollectionKind::MapLiteral => v is MapLiteral,
        CollectionKind::SetLiteral => v is SetLiteral,
        CollectionKind::List => v is List,
    }
}

/// A collection literal of the given kind.
pub open spec fn collection_of_kind(s: Seq<char>, kind: CollectionKind) -> Parsed<ValueModel> {
    match collection_spec(s, 0) {
        Ok((v, e)) => if of_kind(v, kind) {
            Ok((v, e))
        } else {
            fail(ErrorKind::SyntaxError, skip_ws_spec(s, 0), Expected::Value)
        },
        Err(x) => Err(x),
    }
}

fn collection_of_kind_exec(s: &Vec<char>, kind: CollectionKind) -> (r: Result<Value, ParseError>)
    ensures
        err_within(r, s@.len()),
        out_view(r) == whole(s@, collection_of_kind(s@, kind)),
{
    let r = match grammar::collection(s, 0) {
        Ok((v, e)) => {
            let fits = match (&v, kind) {
                (Value::MapLiteral(_), CollectionKind::MapLiteral) => true,
                (Value::SetLiteral(_), CollectionKind::SetLiteral) => true,
                (Value::List(_), CollectionKind::List) => true,
                _ => false,
            };
            if fits {
                Ok((v, e))
            } else {
                Err(
                    ParseError {
                        kind: ErrorKind::SyntaxError,
                        pos: skip_ws(s, 0),
                        expected: Expected::Value,
                    },
                )
            }
        },
        Err(x) => Err(x),
    };
    finish(s, r)
}

/// `{ k : v, .. }`
pub fn map_literal(text: &str) -> (r: Result<Value, ParseError>)
    ensures
        err_within(r, text@.len()),
        out_view(r) == whole(text@, collection_of_kind(text@, CollectionKind::MapLiteral)),
{
    let s = to_chars(text);
    collection_of_kind_exec(&s, CollectionKind::MapLiteral)
}

/// `{ t, .. }`, and `{}`.
pub fn set_literal(text: &str) -> (r: Result<Value, ParseError>)
    ensures
        err_within(r, text@.len()),
        out_view(r) == whole(text@, collection_of_kind(text@, CollectionKind::SetLiteral)),
{
    let s = to_chars(text);
    collection_of_kind_exec(&s, CollectionKind::SetLiteral)
}

/// `[ t, .. ]`
pub fn list_literal(text: &str) -> (r: Result<Value, ParseError>)
    ensures
        err_within(r, text@.len()),
        out_view(r) == whole(text@, collection_of_kind(text@, CollectionKind::List)),
{
    let s = to_chars(text);
    collection_of_kind_exec(&s, CollectionKind::List)
}

pub fn assignment(text: &str) -> (r: Result<Assignment, ParseError>)
    ensures
        err_within(r, text@.len()),
        out_view(r) == whole(text@, assignment_spec(text@, 0)),
{
    let s = to_chars(text);
    finish(&s, grammar::assignment(&s, 0))
}

/// The forms of assignment that have an entry point of their own.
#[derive(Clone, Copy, Debug, PartialEq, Eq, Structural)]
pub enum AssignmentForm {
    /// `field = field + n`, `field = field - n`
    Counter,
    /// `field = field + literal`, `field = literal + field`
    Collection,
    /// `field[index] = value`
    Element,
}

pub open spec fn has_form(a: AssignmentModel, form: AssignmentForm) -> bool {
    match form {
        AssignmentForm::Counter => a is CounterIncr || a is CounterDecr,
        AssignmentForm::Collection => a is CollectionAppend || a is CollectionPrepend,
        AssignmentForm::Element => a is ElementUpdate,
    }
}

pub open spec fn form_expected(form: AssignmentForm) -> Expected {
    match form {
        AssignmentForm::Counter => Expected::CounterOperation,
        AssignmentForm::Collection => Expected::CollectionMutation,
        AssignmentForm::Element => Expected::ElementUpdate,
    }
}

/// An assignment of the given form.
pub open spec fn assignment_of_form(s: Seq<char>, form: AssignmentForm) -> Parsed<AssignmentModel> {
    match assignment_spec(s, 0) {
        Ok((a, e)) => if has_form(a, form) {
            Ok((a, e))
        } else {
            fail(ErrorKind::SyntaxError, skip_ws_spec(s, 0), form_expected(form))
        },
        Err(x) => Err(x),
    }
}

fn assignment_of_form_exec(s: &Vec<char>, form: AssignmentForm) -> (r: Result<Assignment, ParseError>)
    ensures
        err_within(r, s@.len()),
        out_view(r) == whole(s@, assignment_of_form(s@, form)),
{
    let r = match grammar::assignment(s, 0) {
        Ok((a, e)) => {
            let fits = match (&a, form) {
                (Assignment::CounterIncr { .. }, AssignmentForm::Counter) => true,
                (Assignment::CounterDecr { .. }, AssignmentForm::Counter) => true,
                (Assignment::CollectionAppend { .. }, AssignmentForm::Collection) => true,
                (Assignment::CollectionPrepend { .. }, AssignmentForm::Collection) => true,
                (Assignment::ElementUpdate { .. }, AssignmentForm::Element) => true,
                _ => false,
            };
            if fits {
                Ok((a, e))
            } else {
                let expected = match form {
                    AssignmentForm::Counter => Expected::CounterOperation,
                    AssignmentForm::Collection => Expected::CollectionMutation,
                    AssignmentForm::Element => Expected::ElementUpdate,
                };
                Err(ParseError { kind: ErrorKind::SyntaxError, pos: skip_ws(s, 0), expected })
            }
        },
        Err(x) => Err(x),
    };
    finish(s, r)
}

/// `field = field + n`, `field = field - n` (n an integer or `?`).
pub fn counter_op(text: &str) -> (r: Result<Assignment, ParseError>)
    ensures
        err_within(r, text@.len()),
        out_view(r) == whole(text@, assignment_of_form(text@, AssignmentForm::Counter)),
{
    let s = to_chars(text);
    assignment_of_form_exec(&s, AssignmentForm::Counter)
}

/// `field = field + literal` or `field = literal + field`.
pub fn collection_mutation(text: &str) -> (r: Result<Assignment, ParseError>)
    ensures
        err_within(r, text@.len()),
        out_view(r) == whole(text@, assignment_of_form(text@, AssignmentForm::Collection)),
{
    let s = to_chars(text);
    assignment_of_form_exec(&s, AssignmentForm::Collection)
}

/// `field[index] = value`
pub fn collection_update(text: &str) -> (r: Result<Assignment, ParseError>)
    ensures
        err_within(r, text@.len()),
        out_view(r) == whole(text@, assignment_of_form(text@, AssignmentForm::Element)),
{
    let s = to_chars(text);
    assignment_of_form_exec(&s, AssignmentForm::Element)
}

} // verus!
