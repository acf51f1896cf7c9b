//! Laws of the parser, stated over the grammar's model and proved.
use vstd::prelude::*;
use crate::ast::{
    FieldsModel, PredicateModel, SelectModel, ValueModel,
    ErrorKind, Expected, Keyword, ParseError, ParsedCqlStatement, StatementModel, Text,
};
use crate::cql::{insert_syntax, out_view, parse_spec};
use crate::lexer::{
    fail, ident_at, ident_end, kw_text, lemma_skip_bounds, quoted_body, quoted_string_spec,
    skip_ws_spec, word_at, quoted, skip_from, lemma_body_of_doubled,
};

verus! {

/// `FROM` stands at `p`, and the table named after it is `t`.
pub open spec fn from_names_table(s: Seq<char>, p: int, t: Seq<char>) -> bool {
    word_at(s, p, kw_text(Keyword::From)) && {
        let q = skip_ws_spec(s, p + kw_text(Keyword::From).len());
        ident_at(s, q) && t == s.subrange(q, ident_end(s, q + 1))
    }
}

/// The table of every SELECT that parses is exactly the identifier that
/// follows its FROM keyword.
pub proof fn lemma_select_table_follows_from(s: Seq<char>)
    requires
        parse_spec(s) is Ok,
        parse_spec(s)->Ok_0 is Select,
    ensures
        exists|p: int| #[trigger] from_names_table(s, p, parse_spec(s)->Ok_0->Select_0.table),
{
    let p1 = crate::lexer::keyword_spec(s, 0, Keyword::Select)->Ok_0;
    let p2 = crate::grammar::fields_or_star_spec(s, p1)->Ok_0.1;
    let p = skip_ws_spec(s, p2);
    assert(from_names_table(s, p, parse_spec(s)->Ok_0->Select_0.table));
}

/// Every INSERT that parses names its fields, as many as it gives values.
pub proof fn lemma_insert_counts_match(s: Seq<char>)
    requires
        parse_spec(s) is Ok,
        parse_spec(s)->Ok_0 is Insert,
    ensures
        ({
            let m = parse_spec(s)->Ok_0->Insert_0;
            m.fields is Named && m.fields->Named_0.len() == m.values.len()
        }),
{
}

/// An INSERT whose parts all read, but whose field and value counts differ,
/// is rejected with `FieldValueArityMismatch` and no statement.
pub proof fn lemma_insert_count_mismatch_rejected(s: Seq<char>)
    requires
        insert_syntax(s, 0) is Ok,
        ({
            let m = insert_syntax(s, 0)->Ok_0.0;
            m.fields->Named_0.len() != m.values.len()
        }),
    ensures
        parse_spec(s) is Err,
        parse_spec(s)->Err_0.kind is FieldValueArityMismatch,
{
    let q = skip_ws_spec(s, 0);
    reveal_strlit("select");
    reveal_strlit("insert");
    assert(word_at(s, q, kw_text(Keyword::Insert)));
    assert(s[q + 0] == s[q]);
    assert(!word_at(s, q, kw_text(Keyword::Select))) by {
        if word_at(s, q, kw_text(Keyword::Select)) {
            assert(crate::lexer::same_letter(s[q + 0], 's'));
            assert(crate::lexer::same_letter(s[q + 0], 'i'));
        }
    }
}

/// Parsing is a function of the text alone: two parses of the same text give
/// equal statements, or equal errors.
pub proof fn lemma_parse_deterministic(
    t1: Seq<char>,
    t2: Seq<char>,
    r1: Result<ParsedCqlStatement, ParseError>,
    r2: Result<ParsedCqlStatement, ParseError>,
)
    requires
        t1 == t2,
        out_view(r1) == parse_spec(t1),
        out_view(r2) == parse_spec(t2),
    ensures
        out_view(r1) == out_view(r2),
{
}

/// Empty text is a syntax error at its start, where a statement was expected.
pub proof fn lemma_empty_input_rejected()
    ensures
        parse_spec(Seq::empty()) == Err::<StatementModel, ParseError>(
            ParseError { kind: ErrorKind::SyntaxError, pos: 0, expected: Expected::Statement },
        ),
{
    let s = Seq::<char>::empty();
    reveal_strlit("select");
    reveal_strlit("insert");
    reveal_strlit("update");
    reveal_strlit("delete");
    assert(skip_ws_spec(s, 0) == 0);
    assert(!crate::lexer::at_keyword(s, 0, Keyword::Select));
    assert(!crate::lexer::at_keyword(s, 0, Keyword::Insert));
    assert(!crate::lexer::at_keyword(s, 0, Keyword::Update));
    assert(!crate::lexer::at_keyword(s, 0, Keyword::Delete));
}

/// Text shorter than every statement keyword (six letters each) is rejected
/// with an error.
pub proof fn lemma_short_input_rejected(s: Seq<char>)
    requires
        s.len() < 6,
    ensures
        parse_spec(s) is Err,
{
    reveal_strlit("select");
    reveal_strlit("insert");
    reveal_strlit("update");
    reveal_strlit("delete");
    lemma_skip_bounds(s, 0, false);
}

proof fn lemma_no_closing_quote(s: Seq<char>, p: int, acc: Text)
    requires
        0 <= p <= s.len(),
        forall|k: int| p <= k < s.len() ==> s[k] != '\'',
    ensures
        quoted_body(s, p, acc) is None,
    decreases s.len() - p,
{
    if p < s.len() {
        lemma_no_closing_quote(s, p + 1, acc.push(s[p]));
    }
}

/// A quote with no closing quote after it is reported as an unterminated
/// string, at the opening quote.
pub proof fn lemma_unterminated_string_rejected(t: Text)
    requires
        forall|i: int| 0 <= i < t.len() ==> t[i] != '\'',
    ensures
        quoted_string_spec(seq!['\''] + t, 0) == fail::<Text>(
            ErrorKind::UnterminatedString,
            0,
            Expected::ClosingQuote,
        ),
{
    let s = seq!['\''] + t;
    assert(skip_ws_spec(s, 0) == 0);
    assert forall|k: int| 1 <= k < s.len() implies s[k] != '\'' by {
        assert(s[k] == t[k - 1]);
    }
    lemma_no_closing_quote(s, 1, Seq::empty());
}

/// A text written in quoted form into a query reads back unchanged: in
/// `select * from t where k = ` followed by the quoted form of `v`, the
/// WHERE value is exactly `v`, whatever quotes `v` holds.
#[verifier::rlimit(100)]
pub proof fn lemma_quoted_value_reads_back(v: Text)
    ensures
        parse_spec("select * from t where k = "@ + quoted(v)) == Ok::<StatementModel, ParseError>(
            StatementModel::Select(
                SelectModel {
                    fields: FieldsModel::All,
                    table: seq!['t'],
                    where_clauses: Some(
                        seq![
                            PredicateModel {
                                field: seq!['k'],
                                op: "="@,
                                val: ValueModel::Str(v),
                            },
                        ],
                    ),
                    order_by: None,
                    limit: None,
                },
            ),
        ),
{
    let pre = "select * from t where k = "@;
    reveal_strlit("select * from t where k = ");
    let s = pre + quoted(v);
    let n = s.len() as int;
    let pm = PredicateModel { field: seq!['k'], op: "="@, val: ValueModel::Str(v) };
    assert(pre.len() == 26);
    assert(s[0] == 's' && s[1] == 'e' && s[2] == 'l' && s[3] == 'e' && s[4] == 'c' && s[5] == 't');
    assert(s[6] == ' ' && s[7] == '*' && s[8] == ' ');
    assert(s[9] == 'f' && s[10] == 'r' && s[11] == 'o' && s[12] == 'm' && s[13] == ' ');
    assert(s[14] == 't' && s[15] == ' ');
    assert(s[16] == 'w' && s[17] == 'h' && s[18] == 'e' && s[19] == 'r' && s[20] == 'e');
    assert(s[21] == ' ' && s[22] == 'k' && s[23] == ' ' && s[24] == '=' && s[25] == ' ');
    assert(s[26] == '\'');
    assert(crate::lexer::keyword_spec(s, 0, Keyword::Select) == Ok::<int, ParseError>(6)) by {
        reveal_strlit("select");
        assert(skip_from(s, 0, false) == 0);
        assert forall|i: int| 0 <= i < 6 implies crate::lexer::same_letter(
            #[trigger] s[0 + i],
            kw_text(Keyword::Select)[i],
        ) by {}
    }
    assert(crate::grammar::fields_or_star_spec(s, 6) == Ok::<(FieldsModel, int), ParseError>(
        (FieldsModel::All, 8),
    )) by {
        assert(skip_from(s, 7, false) == 7);
        assert(skip_from(s, 6, false) == 7);
    }
    assert(crate::lexer::keyword_spec(s, 8, Keyword::From) == Ok::<int, ParseError>(13)) by {
        reveal_strlit("from");
        assert(skip_from(s, 9, false) == 9);
        assert(skip_from(s, 8, false) == 9);
        assert forall|i: int| 0 <= i < 4 implies crate::lexer::same_letter(
            #[trigger] s[9 + i],
            kw_text(Keyword::From)[i],
        ) by {}
    }
    assert(crate::lexer::identifier_spec(s, 13) == Ok::<(Text, int), ParseError>(
        (seq!['t'], 15),
    )) by {
        assert(skip_from(s, 14, false) == 14);
        assert(skip_from(s, 13, false) == 14);
        assert(ident_end(s, 15) == 15);
        assert(s.subrange(14, 15) =~= seq!['t']);
    }
    assert(crate::lexer::skip_ws_spec(s, 15) == 16) by {
        assert(skip_from(s, 16, false) == 16);
    }
    assert(crate::lexer::at_keyword(s, 15, Keyword::Where)) by {
        reveal_strlit("where");
        assert forall|i: int| 0 <= i < 5 implies crate::lexer::same_letter(
            #[trigger] s[16 + i],
            kw_text(Keyword::Where)[i],
        ) by {}
    }
    assert(crate::lexer::keyword_spec(s, 15, Keyword::Where) == Ok::<int, ParseError>(21)) by {
        reveal_strlit("where");
    }
    assert(crate::lexer::identifier_spec(s, 21) == Ok::<(Text, int), ParseError>(
        (seq!['k'], 23),
    )) by {
        assert(skip_from(s, 22, false) == 22);
        assert(skip_from(s, 21, false) == 22);
        assert(ident_end(s, 23) == 23);
        assert(s.subrange(22, 23) =~= seq!['k']);
    }
    assert(crate::grammar::op_spec(s, 23) == Ok::<(Text, int), ParseError>(("="@, 25))) by {
        assert(skip_from(s, 24, false) == 24);
        assert(skip_from(s, 23, false) == 24);
    }
    assert(crate::lexer::skip_ws_spec(s, 25) == 26) by {
        assert(skip_from(s, 26, false) == 26);
        assert(skip_from(s, 25, false) == 26);
    }
    assert(quoted_string_spec(s, 26) == Ok::<(Text, int), ParseError>((v, n))) by {
        assert(skip_from(s, 26, false) == 26);
        assert(s =~= (pre + seq!['\'']) + crate::lexer::doubled(v) + seq!['\'']);
        lemma_body_of_doubled(s, pre + seq!['\''], v, Seq::empty());
        assert(Seq::<char>::empty() + v =~= v);
    }
    assert(crate::grammar::value_spec(s, 25) == Ok::<(ValueModel, int), ParseError>(
        (ValueModel::Str(v), n),
    ));
    assert(crate::grammar::predicate_spec(s, 21) == Ok::<(PredicateModel, int), ParseError>(
        (pm, n),
    ));
    assert(crate::lexer::skip_ws_spec(s, n) == n);
    assert(!word_at(s, n, kw_text(Keyword::And))) by {
        reveal_strlit("and");
    }
    assert(!word_at(s, n, kw_text(Keyword::Order))) by {
        reveal_strlit("order");
    }
    assert(!word_at(s, n, kw_text(Keyword::Limit))) by {
        reveal_strlit("limit");
    }
    assert(crate::grammar::predicates_rest(s, n, seq![pm]) == Ok::<
        (Seq<PredicateModel>, int),
        ParseError,
    >((seq![pm], n)));
    assert(crate::cql::opt_where_spec(s, 15) == Ok::<
        (Option<Seq<PredicateModel>>, int),
        ParseError,
    >((Some(seq![pm]), n)));
    assert(crate::cql::end_spec(s, n) == Ok::<int, ParseError>(n));
    assert(crate::lexer::at_keyword(s, 0, Keyword::Select)) by {
        assert(skip_from(s, 0, false) == 0);
    }
}

} // verus!
