//! Lexical rules: character classes, whitespace and comments, identifiers,
//! keywords, numbers, UUIDs and quoted strings. Each rule first skips
//! insignificant text, then reads one token starting at the given position.
use vstd::prelude::*;
use crate::ast::{ErrorKind, Expected, Keyword, ParseError, Text};

verus! {

/// A rule's outcome in the model: the value read and the position after it.
pub type Parsed<T> = Result<(T, int), ParseError>;

pub open spec fn fail<T>(kind: ErrorKind, pos: int, expected: Expected) -> Parsed<T> {
    Err(ParseError { kind, pos: pos as usize, expected })
}

pub open spec fn fail_at(kind: ErrorKind, pos: int, expected: Expected) -> Result<int, ParseError> {
    Err(ParseError { kind, pos: pos as usize, expected })
}

/// The model of an executable rule's outcome.
pub open spec fn res_view<T: DeepView>(r: Result<(T, usize), ParseError>) -> Parsed<T::V> {
    match r {
        Ok((v, p)) => Ok((v.deep_view(), p as int)),
        Err(e) => Err(e),
    }
}

/// A failure is reported at a position within the input.
pub open spec fn err_within<T>(r: Result<T, ParseError>, len: nat) -> bool {
    r is Err ==> r->Err_0.pos <= len
}

pub open spec fn pos_view(r: Result<usize, ParseError>) -> Result<int, ParseError> {
    match r {
        Ok(p) => Ok(p as int),
        Err(e) => Err(e),
    }
}

/// A successful read consumed at least one character and stayed within the input.
pub open spec fn ok_within<T>(r: Result<(T, usize), ParseError>, p: usize, len: nat) -> bool {
    r is Ok ==> p < r->Ok_0.1 <= len
}

pub open spec fn pos_within(r: Result<usize, ParseError>, p: usize, len: nat) -> bool {
    r is Ok ==> p <= r->Ok_0 <= len
}

// ---------------------------------------------------------------------------
// Character classes

pub open spec fn is_space(c: char) -> bool {
    c == ' ' || c == '\t' || c == '\n' || c == '\r'
}

pub open spec fn is_digit(c: char) -> bool {
    48 <= c as u32 <= 57
}

pub open spec fn is_upper(c: char) -> bool {
    65 <= c as u32 <= 90
}

pub open spec fn is_letter(c: char) -> bool {
    is_upper(c) || 97 <= c as u32 <= 122
}

pub open spec fn is_hex(c: char) -> bool {
    is_digit(c) || 65 <= c as u32 <= 70 || 97 <= c as u32 <= 102
}

pub open spec fn is_ident_start(c: char) -> bool {
    is_letter(c) || c == '_'
}

pub open spec fn is_ident_char(c: char) -> bool {
    is_ident_start(c) || is_digit(c)
}

/// `c` is the lower-case letter `k`, in either case.
pub open spec fn same_letter(c: char, k: char) -> bool {
    c == k || (is_upper(c) && c as u32 + 32 == k as u32)
}

fn space_char(c: char) -> (b: bool)
    ensures
        b == is_space(c),
{
    c == ' ' || c == '\t' || c == '\n' || c == '\r'
}

pub fn digit_char(c: char) -> (b: bool)
    ensures
        b == is_digit(c),
{
    let u = c as u32;
    48 <= u && u <= 57
}

fn hex_char(c: char) -> (b: bool)
    ensures
        b == is_hex(c),
{
    let u = c as u32;
    (48 <= u && u <= 57) || (65 <= u && u <= 70) || (97 <= u && u <= 102)
}

pub fn ident_start_char(c: char) -> (b: bool)
    ensures
        b == is_ident_start(c),
{
    let u = c as u32;
    (65 <= u && u <= 90) || (97 <= u && u <= 122) || c == '_'
}

pub fn ident_char(c: char) -> (b: bool)
    ensures
        b == is_ident_char(c),
{
    ident_start_char(c) || digit_char(c)
}

fn same_letter_char(c: char, k: char) -> (b: bool)
    ensures
        b == same_letter(c, k),
{
    let u = c as u32;
    c == k || (65 <= u && u <= 90 && u + 32 == k as u32)
}

// ---------------------------------------------------------------------------
// Whitespace and comments: blanks, and `--` or `//` up to the end of the line.

pub open spec fn line_comment_at(s: Seq<char>, p: int) -> bool {
    0 <= p && p + 1 < s.len() && ((s[p] == '-' && s[p + 1] == '-') || (s[p] == '/' && s[p + 1]
        == '/'))
}

pub open spec fn skip_from(s: Seq<char>, p: int, in_comment: bool) -> int
    decreases s.len() - p,
{
    if p < 0 || p >= s.len() {
        p
    } else if in_comment {
        skip_from(s, p + 1, s[p] != '\n')
    } else if is_space(s[p]) {
        skip_from(s, p + 1, false)
    } else if line_comment_at(s, p) {
        skip_from(s, p + 2, true)
    } else {
        p
    }
}

/// The first position at or after `p` that is not blank and not in a comment.
pub open spec fn skip_ws_spec(s: Seq<char>, p: int) -> int {
    skip_from(s, p, false)
}

proof fn lemma_skip_stops(s: Seq<char>, p: int, in_comment: bool)
    requires
        0 <= p <= s.len(),
    ensures
        skip_ws_spec(s, skip_from(s, p, in_comment)) == skip_from(s, p, in_comment),
    decreases s.len() - p,
{
    if p < s.len() {
        if in_comment {
            lemma_skip_stops(s, p + 1, s[p] != '\n');
        } else if is_space(s[p]) {
            lemma_skip_stops(s, p + 1, false);
        } else if line_comment_at(s, p) {
            lemma_skip_stops(s, p + 2, true);
        }
    }
}

pub proof fn lemma_skip_bounds(s: Seq<char>, p: int, in_comment: bool)
    requires
        0 <= p <= s.len(),
    ensures
        p <= skip_from(s, p, in_comment) <= s.len(),
    decreases s.len() - p,
{
    if p < s.len() {
        if in_comment {
            lemma_skip_bounds(s, p + 1, s[p] != '\n');
        } else if is_space(s[p]) {
            lemma_skip_bounds(s, p + 1, false);
        } else if line_comment_at(s, p) {
            lemma_skip_bounds(s, p + 2, true);
        }
    }
}

pub fn skip_ws(s: &Vec<char>, p: usize) -> (r: usize)
    requires
        p <= s@.len(),
    ensures
        r == skip_ws_spec(s@, p as int),
        skip_ws_spec(s@, r as int) == r,
        p <= r <= s@.len(),
{
    proof {
        lemma_skip_stops(s@, p as int, false);
    }
    let mut i = p;
    let mut in_comment = false;
    while i < s.len()
        invariant
            p <= i <= s@.len(),
            skip_from(s@, p as int, false) == skip_from(s@, i as int, in_comment),
        decreases s@.len() - i,
    {
        let c = s[i];
        if in_comment {
            in_comment = c != '\n';
            i = i + 1;
        } else if space_char(c) {
            i = i + 1;
        } else if i + 1 < s.len() && ((c == '-' && s[i + 1] == '-') || (c == '/' && s[i + 1]
            == '/')) {
            in_comment = true;
            i = i + 2;
        } else {
            return i;
        }
    }
    i
}

/// Only blanks and comments follow `p`.
pub open spec fn at_end_spec(s: Seq<char>, p: int) -> Result<int, ParseError> {
    let q = skip_ws_spec(s, p);
    if q == s.len() {
        Ok(q)
    } else {
        fail_at(ErrorKind::SyntaxError, q, Expected::EndOfInput)
    }
}

pub fn at_end(s: &Vec<char>, p: usize) -> (r: Result<usize, ParseError>)
    requires
        p <= s@.len(),
    ensures
        err_within(r, s@.len()),
        pos_view(r) == at_end_spec(s@, p as int),
{
    let q = skip_ws(s, p);
    if q == s.len() {
        Ok(q)
    } else {
        Err(ParseError { kind: ErrorKind::SyntaxError, pos: q, expected: Expected::EndOfInput })
    }
}

// ---------------------------------------------------------------------------
// Text

/// Relies on String::push: the character is appended at the end.
#[verifier::external_body]
fn push_char(t: &mut String, c: char)
    ensures
        final(t)@ == old(t)@.push(c),
{
    t.push(c);
}

/// The characters of `text`, in order.
pub fn to_chars(text: &str) -> (r: Vec<char>)
    ensures
        r@ == text@,
{
    let n = text.unicode_len();
    let mut r: Vec<char> = Vec::new();
    let mut i: usize = 0;
    while i < n
        invariant
            n == text@.len(),
            i <= n,
            r@ == text@.subrange(0, i as int),
        decreases n - i,
    {
        r.push(text.get_char(i));
        i = i + 1;
        assert(r@ =~= text@.subrange(0, i as int));
    }
    assert(r@ =~= text@);
    r
}

/// A `String` holding `s[a..b]`.
pub fn substring(s: &Vec<char>, a: usize, b: usize) -> (r: String)
    requires
        a <= b <= s@.len(),
    ensures
        r@ == s@.subrange(a as int, b as int),
{
    let mut r = String::new();
    let mut i = a;
    while i < b
        invariant
            a <= i <= b <= s@.len(),
            r@ == s@.subrange(a as int, i as int),
        decreases b - i,
    {
        push_char(&mut r, s[i]);
        i = i + 1;
        assert(r@ =~= s@.subrange(a as int, i as int));
    }
    r
}

// ---------------------------------------------------------------------------
// Identifiers

pub open spec fn ident_end(s: Seq<char>, p: int) -> int
    decreases s.len() - p,
{
    if 0 <= p < s.len() && is_ident_char(s[p]) {
        ident_end(s, p + 1)
    } else {
        p
    }
}

/// An identifier starts at `q` (no blanks skipped).
pub open spec fn ident_at(s: Seq<char>, q: int) -> bool {
    0 <= q < s.len() && is_ident_start(s[q])
}

/// A letter or `_`, then letters, digits and `_`; its case is kept.
pub open spec fn identifier_spec(s: Seq<char>, p: int) -> Parsed<Text> {
    let q = skip_ws_spec(s, p);
    if ident_at(s, q) {
        let e = ident_end(s, q + 1);
        Ok((s.subrange(q, e), e))
    } else {
        fail(ErrorKind::SyntaxError, q, Expected::Identifier)
    }
}

fn ident_end_exec(s: &Vec<char>, p: usize) -> (r: usize)
    requires
        p <= s@.len(),
    ensures
        r == ident_end(s@, p as int),
        p <= r <= s@.len(),
{
    let mut i = p;
    while i < s.len()
        invariant
            p <= i <= s@.len(),
            ident_end(s@, p as int) == ident_end(s@, i as int),
        decreases s@.len() - i,
    {
        if !ident_char(s[i]) {
            return i;
        }
        i = i + 1;
    }
    i
}

pub fn ident_ahead(s: &Vec<char>, p: usize) -> (b: bool)
    requires
        p <= s@.len(),
    ensures
        b == ident_at(s@, skip_ws_spec(s@, p as int)),
{
    let q = skip_ws(s, p);
    q < s.len() && ident_start_char(s[q])
}

pub fn identifier(s: &Vec<char>, p: usize) -> (r: Result<(String, usize), ParseError>)
    requires
        p <= s@.len(),
    ensures
        err_within(r, s@.len()),
        res_view(r) == identifier_spec(s@, p as int),
        ok_within(r, p, s@.len()),
{
    let q = skip_ws(s, p);
    if q < s.len() && ident_start_char(s[q]) {
        let e = ident_end_exec(s, q + 1);
        Ok((substring(s, q, e), e))
    } else {
        Err(ParseError { kind: ErrorKind::SyntaxError, pos: q, expected: Expected::Identifier })
    }
}

// ---------------------------------------------------------------------------
// Keywords

pub open spec fn kw_text(k: Keyword) -> Text {
    match k {
        Keyword::Select => "select"@,
        Keyword::From => "from"@,
        Keyword::Where => "where"@,
        Keyword::And => "and"@,
        Keyword::Order => "order"@,
        Keyword::By => "by"@,
        Keyword::Asc => "asc"@,
        Keyword::Desc => "desc"@,
        Keyword::Limit => "limit"@,
        Keyword::Insert => "insert"@,
        Keyword::Into => "into"@,
        Keyword::Values => "values"@,
        Keyword::If => "if"@,
        Keyword::Not => "not"@,
        Keyword::Exists => "exists"@,
        Keyword::Using => "using"@,
        Keyword::Ttl => "ttl"@,
        Keyword::Timestamp => "timestamp"@,
        Keyword::Update => "update"@,
        Keyword::SetKeyword => "set"@,
        Keyword::Delete => "delete"@,
        Keyword::Count => "count"@,
        Keyword::In => "in"@,
    }
}

fn kw_str(k: Keyword) -> (r: &'static str)
    ensures
        r@ == kw_text(k),
{
    match k {
        Keyword::Select => "select",
        Keyword::From => "from",
        Keyword::Where => "where",
        Keyword::And => "and",
        Keyword::Order => "order",
        Keyword::By => "by",
        Keyword::Asc => "asc",
        Keyword::Desc => "desc",
        Keyword::Limit => "limit",
        Keyword::Insert => "insert",
        Keyword::Into => "into",
        Keyword::Values => "values",
        Keyword::If => "if",
        Keyword::Not => "not",
        Keyword::Exists => "exists",
        Keyword::Using => "using",
        Keyword::Ttl => "ttl",
        Keyword::Timestamp => "timestamp",
        Keyword::Update => "update",
        Keyword::SetKeyword => "set",
        Keyword::Delete => "delete",
        Keyword::Count => "count",
        Keyword::In => "in",
    }
}

/// The word `t` stands at `q` in any letter case, and no identifier character follows it.
pub open spec fn word_at(s: Seq<char>, q: int, t: Text) -> bool {
    0 <= q && q + t.len() <= s.len() && (forall|i: int|
        0 <= i < t.len() ==> same_letter(#[trigger] s[q + i], t[i])) && !(q + t.len() < s.len()
        && is_ident_char(s[q + t.len()]))
}

pub open spec fn at_keyword(s: Seq<char>, p: int, k: Keyword) -> bool {
    word_at(s, skip_ws_spec(s, p), kw_text(k))
}

pub open spec fn keyword_spec(s: Seq<char>, p: int, k: Keyword) -> Result<int, ParseError> {
    let q = skip_ws_spec(s, p);
    if word_at(s, q, kw_text(k)) {
        Ok(q + kw_text(k).len())
    } else {
        fail_at(ErrorKind::SyntaxError, q, Expected::Keyword(k))
    }
}

fn word_at_exec(s: &Vec<char>, q: usize, t: &str) -> (b: bool)
    requires
        q <= s@.len(),
    ensures
        b == word_at(s@, q as int, t@),
{
    let n = t.unicode_len();
    let len = s.len();
    if n > len - q {
        return false;
    }
    let mut i: usize = 0;
    while i < n
        invariant
            n == t@.len(),
            len == s@.len(),
            q + n <= s@.len(),
            i <= n,
            forall|j: int| 0 <= j < i ==> same_letter(#[trigger] s@[q + j], t@[j]),
        decreases n - i,
    {
        if !same_letter_char(s[q + i], t.get_char(i)) {
            return false;
        }
        i = i + 1;
    }
    !(q + n < s.len() && ident_char(s[q + n]))
}

pub fn keyword_ahead(s: &Vec<char>, p: usize, k: Keyword) -> (b: bool)
    requires
        p <= s@.len(),
    ensures
        b == at_keyword(s@, p as int, k),
{
    let q = skip_ws(s, p);
    word_at_exec(s, q, kw_str(k))
}

pub fn keyword(s: &Vec<char>, p: usize, k: Keyword) -> (r: Result<usize, ParseError>)
    requires
        p <= s@.len(),
    ensures
        err_within(r, s@.len()),
        pos_view(r) == keyword_spec(s@, p as int, k),
        pos_within(r, p, s@.len()),
{
    let q = skip_ws(s, p);
    let t = kw_str(k);
    if word_at_exec(s, q, t) {
        let n = t.unicode_len();
        // The input's length is a `usize`, so the end of the keyword fits one.
        let len = s.len();
        assert(q + n <= len);
        Ok(q + n)
    } else {
        Err(ParseError { kind: ErrorKind::SyntaxError, pos: q, expected: Expected::Keyword(k) })
    }
}

// ---------------------------------------------------------------------------
// Punctuation

pub open spec fn at_symbol(s: Seq<char>, p: int, c: char) -> bool {
    let q = skip_ws_spec(s, p);
    0 <= q < s.len() && s[q] == c
}

pub open spec fn symbol_spec(s: Seq<char>, p: int, c: char) -> Result<int, ParseError> {
    let q = skip_ws_spec(s, p);
    if 0 <= q < s.len() && s[q] == c {
        Ok(q + 1)
    } else {
        fail_at(ErrorKind::SyntaxError, q, Expected::Symbol(c))
    }
}

pub fn symbol_ahead(s: &Vec<char>, p: usize, c: char) -> (b: bool)
    requires
        p <= s@.len(),
    ensures
        b == at_symbol(s@, p as int, c),
{
    let q = skip_ws(s, p);
    q < s.len() && s[q] == c
}

pub fn symbol(s: &Vec<char>, p: usize, c: char) -> (r: Result<usize, ParseError>)
    requires
        p <= s@.len(),
    ensures
        err_within(r, s@.len()),
        pos_view(r) == symbol_spec(s@, p as int, c),
        pos_within(r, p, s@.len()),
        r is Ok ==> p < r->Ok_0,
{
    let q = skip_ws(s, p);
    if q < s.len() && s[q] == c {
        Ok(q + 1)
    } else {
        Err(ParseError { kind: ErrorKind::SyntaxError, pos: q, expected: Expected::Symbol(c) })
    }
}

// ---------------------------------------------------------------------------
// Numbers: an optional `-`, then decimal digits; `.` and more digits make a float.

pub open spec fn digit_val(c: char) -> int {
    c as u32 as int - 48
}

pub open spec fn digits_end(s: Seq<char>, p: int) -> int
    decreases s.len() - p,
{
    if 0 <= p < s.len() && is_digit(s[p]) {
        digits_end(s, p + 1)
    } else {
        p
    }
}

/// The number that the digits `s[p..q]` write in decimal.
pub open spec fn digits_value(s: Seq<char>, p: int, q: int) -> int
    decreases q - p,
{
    if q <= p {
        0
    } else {
        digits_value(s, p, q - 1) * 10 + digit_val(s[q - 1])
    }
}

/// Where the digits of a number that starts at `q` begin (after its sign).
pub open spec fn digits_start(s: Seq<char>, q: int) -> int {
    if 0 <= q < s.len() && s[q] == '-' {
        q + 1
    } else {
        q
    }
}

/// A number starts at `q`.
pub open spec fn number_at(s: Seq<char>, q: int) -> bool {
    let d = digits_start(s, q);
    0 <= d < s.len() && is_digit(s[d])
}

/// The number at `q` goes on with a fractional part at `e`.
pub open spec fn fraction_at(s: Seq<char>, e: int) -> bool {
    0 <= e && e + 1 < s.len() && s[e] == '.' && is_digit(s[e + 1])
}

/// An integer that fits `isize`; a larger one is an `InvalidNumericLiteral`.
pub open spec fn integer_spec(s: Seq<char>, p: int) -> Parsed<isize> {
    let q = skip_ws_spec(s, p);
    let d = digits_start(s, q);
    let e = digits_end(s, d);
    let v = if d == q {
        digits_value(s, d, e)
    } else {
        -digits_value(s, d, e)
    };
    if !number_at(s, q) {
        fail(ErrorKind::SyntaxError, q, Expected::Integer)
    } else if isize::MIN <= v <= isize::MAX {
        Ok((v as isize, e))
    } else {
        fail(ErrorKind::InvalidNumericLiteral, q, Expected::Integer)
    }
}

proof fn lemma_digits_grow(s: Seq<char>, d: int, i: int, j: int)
    requires
        d <= i <= j,
        forall|k: int| d <= k < j ==> is_digit(#[trigger] s[k]),
    ensures
        digits_value(s, d, i) <= digits_value(s, d, j),
        0 <= digits_value(s, d, i),
    decreases j - d,
{
    if j > d {
        if i < j {
            lemma_digits_grow(s, d, i, j - 1);
        } else {
            lemma_digits_grow(s, d, i - 1, j - 1);
        }
    }
}

proof fn lemma_digits_end_bounds(s: Seq<char>, p: int)
    requires
        0 <= p <= s.len(),
    ensures
        p <= digits_end(s, p) <= s.len(),
        forall|k: int| p <= k < digits_end(s, p) ==> is_digit(#[trigger] s[k]),
    decreases s.len() - p,
{
    if p < s.len() && is_digit(s[p]) {
        lemma_digits_end_bounds(s, p + 1);
    }
}

proof fn lemma_digits_run(s: Seq<char>, d: int, i: int)
    requires
        0 <= d <= i <= s.len(),
        forall|k: int| d <= k < i ==> is_digit(#[trigger] s[k]),
    ensures
        digits_end(s, d) == digits_end(s, i),
    decreases i - d,
{
    if d < i {
        lemma_digits_run(s, d + 1, i);
    }
}

pub fn digits_end_exec(s: &Vec<char>, p: usize) -> (r: usize)
    requires
        p <= s@.len(),
    ensures
        r == digits_end(s@, p as int),
        p <= r <= s@.len(),
{
    let mut i = p;
    while i < s.len()
        invariant
            p <= i <= s@.len(),
            digits_end(s@, p as int) == digits_end(s@, i as int),
        decreases s@.len() - i,
    {
        if !digit_char(s[i]) {
            return i;
        }
        i = i + 1;
    }
    i
}

pub fn number_ahead(s: &Vec<char>, q: usize) -> (b: bool)
    requires
        q <= s@.len(),
    ensures
        b == number_at(s@, q as int),
{
    let d = if q < s.len() && s[q] == '-' {
        q + 1
    } else {
        q
    };
    d < s.len() && digit_char(s[d])
}

/// The end of the fractional part, if one follows at `e`.
pub fn fraction_end(s: &Vec<char>, e: usize) -> (r: Option<usize>)
    requires
        e <= s@.len(),
    ensures
        r is Some <==> fraction_at(s@, e as int),
        r is Some ==> r->Some_0 == digits_end(s@, e + 1) && e < r->Some_0 <= s@.len(),
{
    if e < s.len() && e + 1 < s.len() && s[e] == '.' && digit_char(s[e + 1]) {
        Some(digits_end_exec(s, e + 1))
    } else {
        None
    }
}

pub fn integer(s: &Vec<char>, p: usize) -> (r: Result<(isize, usize), ParseError>)
    requires
        p <= s@.len(),
    ensures
        err_within(r, s@.len()),
        res_view(r) == integer_spec(s@, p as int),
        ok_within(r, p, s@.len()),
{
    let q = skip_ws(s, p);
    let neg = q < s.len() && s[q] == '-';
    let d = if neg {
        q + 1
    } else {
        q
    };
    if !(d < s.len() && digit_char(s[d])) {
        return Err(
            ParseError { kind: ErrorKind::SyntaxError, pos: q, expected: Expected::Integer },
        );
    }
    let ghost e = digits_end(s@, d as int);
    let lim: usize = if neg {
        isize::MAX as usize + 1
    } else {
        isize::MAX as usize
    };
    let mut acc: usize = 0;
    let mut i = d;
    while i < s.len() && digit_char(s[i])
        invariant
            p <= q < d <= i <= s@.len() || p <= q == d <= i <= s@.len(),
            q == skip_ws_spec(s@, p as int),
            d == digits_start(s@, q as int),
            neg == (d != q),
            number_at(s@, q as int),
            lim == if neg { isize::MAX as int + 1 } else { isize::MAX as int },
            e == digits_end(s@, d as int),
            acc as int == digits_value(s@, d as int, i as int),
            acc <= lim,
            forall|k: int| d <= k < i ==> is_digit(#[trigger] s@[k]),
        decreases s@.len() - i,
    {
        let dv = (s[i] as u32 - 48) as usize;
        assert(dv as int == digit_val(s@[i as int]) && dv <= 9);
        assert(isize::MAX >= 0x7fff);
        if acc > (lim - dv) / 10 {
            proof {
                assert(acc * 10 + dv > lim) by (nonlinear_arith)
                    requires
                        acc > (lim - dv) / 10,
                        dv <= lim,
                ;
                lemma_digits_run(s@, d as int, i as int + 1);
                lemma_digits_end_bounds(s@, i as int + 1);
                lemma_digits_end_bounds(s@, d as int);
                lemma_digits_grow(s@, d as int, i as int + 1, e);
            }
            return Err(
                ParseError {
                    kind: ErrorKind::InvalidNumericLiteral,
                    pos: q,
                    expected: Expected::Integer,
                },
            );
        }
        proof {
            assert(acc * 10 + dv <= lim) by (nonlinear_arith)
                requires
                    acc <= (lim - dv) / 10,
                    dv <= lim,
            ;
        }
        acc = acc * 10 + dv;
        i = i + 1;
    }
    proof {
        lemma_digits_run(s@, d as int, i as int);
    }
    assert(i as int == e);
    let v: isize = if !neg {
        acc as isize
    } else if acc == lim {
        isize::MIN
    } else {
        -(acc as isize)
    };
    Ok((v, i))
}

// ---------------------------------------------------------------------------
// UUIDs: hex digits in groups of 8, 4, 4, 4 and 12, joined by `-`.

pub open spec fn uuid_dash(i: int) -> bool {
    i == 8 || i == 13 || i == 18 || i == 23
}

pub open spec fn uuid_at(s: Seq<char>, q: int) -> bool {
    0 <= q && q + 36 <= s.len() && (forall|i: int|
        0 <= i < 36 ==> if uuid_dash(i) {
            #[trigger] s[q + i] == '-'
        } else {
            is_hex(s[q + i])
        }) && !(q + 36 < s.len() && (is_ident_char(s[q + 36]) || s[q + 36] == '-'))
}

pub open spec fn uuid_spec(s: Seq<char>, p: int) -> Parsed<Text> {
    let q = skip_ws_spec(s, p);
    if uuid_at(s, q) {
        Ok((s.subrange(q, q + 36), q + 36))
    } else {
        fail(ErrorKind::SyntaxError, q, Expected::Uuid)
    }
}

pub fn uuid_ahead(s: &Vec<char>, q: usize) -> (b: bool)
    requires
        q <= s@.len(),
    ensures
        b == uuid_at(s@, q as int),
{
    let len = s.len();
    if len - q < 36 {
        return false;
    }
    let mut i: usize = 0;
    while i < 36
        invariant
            len == s@.len(),
            q + 36 <= len,
            i <= 36,
            forall|j: int|
                0 <= j < i ==> if uuid_dash(j) {
                    #[trigger] s@[q + j] == '-'
                } else {
                    is_hex(s@[q + j])
                },
        decreases 36 - i,
    {
        let c = s[q + i];
        if i == 8 || i == 13 || i == 18 || i == 23 {
            if c != '-' {
                return false;
            }
        } else if !hex_char(c) {
            return false;
        }
        i = i + 1;
    }
    !(q + 36 < len && (ident_char(s[q + 36]) || s[q + 36] == '-'))
}

pub fn uuid(s: &Vec<char>, p: usize) -> (r: Result<(String, usize), ParseError>)
    requires
        p <= s@.len(),
    ensures
        err_within(r, s@.len()),
        res_view(r) == uuid_spec(s@, p as int),
        ok_within(r, p, s@.len()),
{
    let q = skip_ws(s, p);
    if uuid_ahead(s, q) {
        // The input's length is a `usize`, so the end of the UUID fits one.
        let len = s.len();
        assert(q + 36 <= len);
        Ok((substring(s, q, q + 36), q + 36))
    } else {
        Err(ParseError { kind: ErrorKind::SyntaxError, pos: q, expected: Expected::Uuid })
    }
}

// ---------------------------------------------------------------------------
// Quoted strings: `'`, the text with each `'` written twice, `'`.

/// Reads the text of a quoted string from `p` (after the opening quote) onwards,
/// `acc` being what was read so far; `None` when no closing quote comes.
pub open spec fn quoted_body(s: Seq<char>, p: int, acc: Text) -> Option<(Text, int)>
    decreases s.len() - p,
{
    if p < 0 || p >= s.len() {
        None
    } else if s[p] == '\'' {
        if p + 1 < s.len() && s[p + 1] == '\'' {
            quoted_body(s, p + 2, acc.push('\''))
        } else {
            Some((acc, p + 1))
        }
    } else {
        quoted_body(s, p + 1, acc.push(s[p]))
    }
}

pub open spec fn quoted_string_spec(s: Seq<char>, p: int) -> Parsed<Text> {
    let q = skip_ws_spec(s, p);
    if 0 <= q < s.len() && s[q] == '\'' {
        match quoted_body(s, q + 1, Seq::empty()) {
            Some(r) => Ok(r),
            None => fail(ErrorKind::UnterminatedString, q, Expected::ClosingQuote),
        }
    } else {
        fail(ErrorKind::SyntaxError, q, Expected::QuotedString)
    }
}

pub fn quoted_string(s: &Vec<char>, p: usize) -> (r: Result<(String, usize), ParseError>)
    requires
        p <= s@.len(),
    ensures
        err_within(r, s@.len()),
        res_view(r) == quoted_string_spec(s@, p as int),
        ok_within(r, p, s@.len()),
{
    let q = skip_ws(s, p);
    if !(q < s.len() && s[q] == '\'') {
        return Err(
            ParseError { kind: ErrorKind::SyntaxError, pos: q, expected: Expected::QuotedString },
        );
    }
    let mut acc = String::new();
    let mut i = q + 1;
    while i < s.len()
        invariant
            p <= q < i <= s@.len(),
            q == skip_ws_spec(s@, p as int),
            s@[q as int] == '\'',
            quoted_body(s@, q + 1, Seq::empty()) == quoted_body(s@, i as int, acc@),
        decreases s@.len() - i,
    {
        if s[i] == '\'' {
            if i + 1 < s.len() && s[i + 1] == '\'' {
                push_char(&mut acc, '\'');
                i = i + 2;
            } else {
                assert(quoted_body(s@, i as int, acc@) == Some((acc@, i + 1)));
                return Ok((acc, i + 1));
            }
        } else {
            push_char(&mut acc, s[i]);
            i = i + 1;
        }
    }
    Err(
        ParseError {
            kind: ErrorKind::UnterminatedString,
            pos: q,
            expected: Expected::ClosingQuote,
        },
    )
}

/// How one character is written inside a quoted string.
pub open spec fn unit(c: char) -> Text {
    if c == '\'' {
        seq!['\'', '\'']
    } else {
        seq![c]
    }
}

/// `t` with each `'` written twice.
pub open spec fn doubled(t: Text) -> Text
    decreases t.len(),
{
    if t.len() == 0 {
        Seq::empty()
    } else {
        unit(t[0]) + doubled(t.subrange(1, t.len() as int))
    }
}

/// `t` written as a quoted string.
pub open spec fn quoted(t: Text) -> Text {
    seq!['\''] + doubled(t) + seq!['\'']
}

proof fn lemma_doubled_concat(a: Text, b: Text)
    ensures
        doubled(a + b) == doubled(a) + doubled(b),
    decreases a.len(),
{
    if a.len() == 0 {
        assert(a + b =~= b);
        assert(doubled(a) + doubled(b) =~= doubled(b));
    } else {
        let a1 = a.subrange(1, a.len() as int);
        assert((a + b).subrange(1, (a + b).len() as int) =~= a1 + b);
        assert((a + b)[0] == a[0]);
        lemma_doubled_concat(a1, b);
        assert(doubled(a + b) =~= doubled(a) + doubled(b));
    }
}

/// Writes `text` as a quoted string, each `'` in it doubled.
pub fn quote(text: &str) -> (r: String)
    ensures
        r@ == quoted(text@),
{
    let n = text.unicode_len();
    let mut r = String::new();
    push_char(&mut r, '\'');
    let mut i: usize = 0;
    while i < n
        invariant
            n == text@.len(),
            i <= n,
            r@ == seq!['\''] + doubled(text@.subrange(0, i as int)),
        decreases n - i,
    {
        let c = text.get_char(i);
        push_char(&mut r, c);
        if c == '\'' {
            push_char(&mut r, '\'');
        }
        proof {
            let head = text@.subrange(0, i as int);
            lemma_doubled_concat(head, seq![c]);
            assert(head + seq![c] =~= text@.subrange(0, i + 1));
            assert(seq![c].subrange(1, 1) =~= Seq::<char>::empty());
            reveal_with_fuel(doubled, 2);
            assert(doubled(seq![c]) =~= unit(c));
        }
        i = i + 1;
        assert(r@ =~= seq!['\''] + doubled(text@.subrange(0, i as int)));
    }
    push_char(&mut r, '\'');
    assert(text@.subrange(0, n as int) =~= text@);
    r
}

pub proof fn lemma_body_of_doubled(s: Seq<char>, x: Text, t: Text, acc: Text)
    requires
        s == x + doubled(t) + seq!['\''],
    ensures
        quoted_body(s, x.len() as int, acc) == Some((acc + t, s.len() as int)),
    decreases t.len(),
{
    let p = x.len() as int;
    if t.len() == 0 {
        assert(acc + t =~= acc);
        assert(s[p] == '\'');
    } else {
        let rest = t.subrange(1, t.len() as int);
        if t[0] == '\'' {
            let x2 = x + seq!['\'', '\''];
            assert(s =~= x2 + doubled(rest) + seq!['\'']);
            assert(s[p] == '\'' && s[p + 1] == '\'');
            lemma_body_of_doubled(s, x2, rest, acc.push('\''));
            assert(acc.push('\'') + rest =~= acc + t);
        } else {
            let x2 = x + seq![t[0]];
            assert(s =~= x2 + doubled(rest) + seq!['\'']);
            assert(s[p] == t[0]);
            lemma_body_of_doubled(s, x2, rest, acc.push(t[0]));
            assert(acc.push(t[0]) + rest =~= acc + t);
        }
    }
}

/// Quoting then reading back gives the text unchanged: the quoted form of any
/// text reads back as exactly that text, and the read ends at the closing quote.
pub proof fn lemma_quote_round_trip(t: Text)
    ensures
        quoted_string_spec(quoted(t), 0) == Ok::<(Text, int), ParseError>((t, quoted(t).len() as int)),
{
    let s = quoted(t);
    assert(s[0] == '\'');
    assert(skip_ws_spec(s, 0) == 0);
    lemma_body_of_doubled(s, seq!['\''], t, Seq::empty());
    assert(Seq::<char>::empty() + t =~= t);
}

} // verus!
