use vstd::prelude::*;

verus! {

/// What went wrong while reading a statement.
#[derive(Clone, Copy, Debug, PartialEq, Eq, Structural)]
pub enum ErrorKind {
    /// No alternative of the grammar matched at the position.
    SyntaxError,
    /// A quoted string has no closing quote.
    UnterminatedString,
    /// A number does not fit the integer type.
    InvalidNumericLiteral,
    /// An INSERT names a different number of fields than it gives values.
    FieldValueArityMismatch { expected: usize, actual: usize },
    /// An UPDATE or DELETE has no WHERE clause.
    MissingWhereClause,
    /// A LIMIT is zero or negative.
    NonPositiveLimit,
    /// `a = b + 1` or `a = b + [..]`: the field on the right is not the one assigned.
    MismatchedAssignmentField,
    /// Kept for a future rule on collection literals that read both ways.
    AmbiguousCollectionLiteral,
}

/// The keywords of the language; they match in any letter case.
#[derive(Clone, Copy, Debug, PartialEq, Eq, Structural)]
pub enum Keyword {
    Select,
    From,
    Where,
    And,
    Order,
    By,
    Asc,
    Desc,
    Limit,
    Insert,
    Into,
    Values,
    If,
    Not,
    Exists,
    Using,
    Ttl,
    Timestamp,
    Update,
    SetKeyword,
    Delete,
    Count,
    In,
}

/// What the parser looked for where it failed.
#[derive(Clone, Copy, Debug, PartialEq, Eq, Structural)]
pub enum Expected {
    Statement,
    Keyword(Keyword),
    Symbol(char),
    Identifier,
    Integer,
    Value,
    Operator,
    QuotedString,
    Uuid,
    ClosingQuote,
    EndOfInput,
    UsingOption,
    PositiveLimit,
    WhereClause,
    MatchingValueCount,
    SameField,
    CounterOperation,
    CollectionMutation,
    ElementUpdate,
}

/// A failure: its kind, the character position in the input, and what was looked for there.
#[derive(Clone, Copy, Debug, PartialEq, Eq, Structural)]
pub struct ParseError {
    pub kind: ErrorKind,
    pub pos: usize,
    pub expected: Expected,
}


/// A single literal: what may stand inside a collection literal.
#[derive(Clone, Debug, PartialEq)]
pub enum Term {
    Int(isize),
    Float,
    UUID(String),
    String(String),
    Placeholder,
    NamedPlaceHolder(String),
}

/// A value on the right of a predicate or an assignment.
#[derive(Clone, Debug, PartialEq)]
pub enum Value {
    Int(isize),
    Float,
    UUID(String),
    Date,
    String(String),
    Expression(String),
    /// `?` in a prepared statement.
    Placeholder,
    NamedPlaceHolder(String),
    MapLiteral(Vec<(Term, Term)>),
    SetLiteral(Vec<Term>),
    List(Vec<Term>),
}

/// The columns a statement names.
#[derive(Clone, Debug, PartialEq)]
pub enum Fields {
    All,
    Named(Vec<String>),
    Count,
    /// No field list at all (a DELETE of whole rows).
    Omitted,
}

/// `field op value`; a list of them is joined by AND.
#[derive(Clone, Debug, PartialEq)]
pub struct Predicate {
    pub field: String,
    pub op: String,
    pub val: Value,
}

#[derive(Clone, Copy, Debug, PartialEq, Eq, Structural)]
pub enum UsingOption {
    Timestamp(isize),
    TTL(isize),
}

#[derive(Clone, Copy, Debug, PartialEq, Eq, Structural)]
pub enum Direction {
    Asc,
    Desc,
}

#[derive(Clone, Debug, PartialEq)]
pub struct OrderBy {
    pub field: String,
    pub direction: Direction,
}

/// One `SET` item of an UPDATE.
#[derive(Clone, Debug, PartialEq)]
pub enum Assignment {
    /// `field = value`
    Simple { field: String, value: Value },
    /// `field = field + delta`
    CounterIncr { field: String, delta: Value },
    /// `field = field - delta`
    CounterDecr { field: String, delta: Value },
    /// `field = field + literal`
    CollectionAppend { field: String, literal: Value },
    /// `field = literal + field`
    CollectionPrepend { field: String, literal: Value },
    /// `field[index] = value`
    ElementUpdate { field: String, index: Term, value: Value },
}

#[derive(Clone, Debug, PartialEq)]
pub struct SelectStatement {
    pub fields: Fields,
    pub table: String,
    pub where_clauses: Option<Vec<Predicate>>,
    pub order_by: Option<OrderBy>,
    pub limit: Option<isize>,
}

#[derive(Clone, Debug, PartialEq)]
pub struct InsertStatement {
    pub table: String,
    pub fields: Fields,
    pub values: Vec<Value>,
    /// `IF NOT EXISTS`
    pub lwt: bool,
    pub using: Option<Vec<UsingOption>>,
}

#[derive(Clone, Debug, PartialEq)]
pub struct DeleteStatement {
    pub table: String,
    pub fields: Fields,
    pub where_clauses: Vec<Predicate>,
    pub using: Option<Vec<UsingOption>>,
}

#[derive(Clone, Debug, PartialEq)]
pub struct UpdateStatement {
    pub table: String,
    pub assignments: Vec<Assignment>,
    pub where_clauses: Vec<Predicate>,
    pub using: Option<Vec<UsingOption>>,
    /// `IF EXISTS`
    pub if_exists: bool,
    pub if_condition: Option<Vec<Predicate>>,
}

#[derive(Clone, Debug, PartialEq)]
pub enum ParsedCqlStatement {
    Select(SelectStatement),
    Insert(InsertStatement),
    Delete(DeleteStatement),
    Update(UpdateStatement),
}

// The mathematical models: each string becomes its characters, each vector a sequence.

pub type Text = Seq<char>;

pub enum TermModel {
    Int(isize),
    Float,
    UUID(Text),
    Str(Text),
    Placeholder,
    Named(Text),
}

pub enum ValueModel {
    Int(isize),
    Float,
    UUID(Text),
    Date,
    Str(Text),
    Expression(Text),
    Placeholder,
    Named(Text),
    MapLiteral(Seq<(TermModel, TermModel)>),
    SetLiteral(Seq<TermModel>),
    List(Seq<TermModel>),
}

pub enum FieldsModel {
    All,
    Named(Seq<Text>),
    Count,
    Omitted,
}

pub struct PredicateModel {
    pub field: Text,
    pub op: Text,
    pub val: ValueModel,
}

pub struct OrderByModel {
    pub field: Text,
    pub direction: Direction,
}

pub enum AssignmentModel {
    Simple { field: Text, value: ValueModel },
    CounterIncr { field: Text, delta: ValueModel },
    CounterDecr { field: Text, delta: ValueModel },
    CollectionAppend { field: Text, literal: ValueModel },
    CollectionPrepend { field: Text, literal: ValueModel },
    ElementUpdate { field: Text, index: TermModel, value: ValueModel },
}

pub struct SelectModel {
    pub fields: FieldsModel,
    pub table: Text,
    pub where_clauses: Option<Seq<PredicateModel>>,
    pub order_by: Option<OrderByModel>,
    pub limit: Option<isize>,
}

pub struct InsertModel {
    pub table: Text,
    pub fields: FieldsModel,
    pub values: Seq<ValueModel>,
    pub lwt: bool,
    pub using: Option<Seq<UsingOption>>,
}

pub struct DeleteModel {
    pub table: Text,
    pub fields: FieldsModel,
    pub where_clauses: Seq<PredicateModel>,
    pub using: Option<Seq<UsingOption>>,
}

pub struct UpdateModel {
    pub table: Text,
    pub assignments: Seq<AssignmentModel>,
    pub where_clauses: Seq<PredicateModel>,
    pub using: Option<Seq<UsingOption>>,
    pub if_exists: bool,
    pub if_condition: Option<Seq<PredicateModel>>,
}

pub enum StatementModel {
    Select(SelectModel),
    Insert(InsertModel),
    Delete(DeleteModel),
    Update(UpdateModel),
}

impl DeepView for Term {
    type V = TermModel;

    open spec fn deep_view(&self) -> TermModel {
        match self {
            Term::Int(i) => TermModel::Int(*i),
            Term::Float => TermModel::Float,
            Term::UUID(u) => TermModel::UUID(u@),
            Term::String(t) => TermModel::Str(t@),
            Term::Placeholder => TermModel::Placeholder,
            Term::NamedPlaceHolder(n) => TermModel::Named(n@),
        }
    }
}

impl DeepView for Value {
    type V = ValueModel;

    open spec fn deep_view(&self) -> ValueModel {
        match self {
            Value::Int(i) => ValueModel::Int(*i),
            Value::Float => ValueModel::Float,
            Value::UUID(u) => ValueModel::UUID(u@),
            Value::Date => ValueModel::Date,
            Value::String(t) => ValueModel::Str(t@),
            Value::Expression(e) => ValueModel::Expression(e@),
            Value::Placeholder => ValueModel::Placeholder,
            Value::NamedPlaceHolder(n) => ValueModel::Named(n@),
            Value::MapLiteral(m) => ValueModel::MapLiteral(m.deep_view()),
            Value::SetLiteral(e) => ValueModel::SetLiteral(e.deep_view()),
            Value::List(e) => ValueModel::List(e.deep_view()),
        }
    }
}

impl DeepView for Fields {
    type V = FieldsModel;

    open spec fn deep_view(&self) -> FieldsModel {
        match self {
            Fields::All => FieldsModel::All,
            Fields::Named(v) => FieldsModel::Named(v.deep_view()),
            Fields::Count => FieldsModel::Count,
            Fields::Omitted => FieldsModel::Omitted,
        }
    }
}

impl DeepView for Predicate {
    type V = PredicateModel;

    open spec fn deep_view(&self) -> PredicateModel {
        PredicateModel { field: self.field@, op: self.op@, val: self.val.deep_view() }
    }
}

impl DeepView for UsingOption {
    type V = UsingOption;

    open spec fn deep_view(&self) -> UsingOption {
        *self
    }
}

impl DeepView for OrderBy {
    type V = OrderByModel;

    open spec fn deep_view(&self) -> OrderByModel {
        OrderByModel { field: self.field@, direction: self.direction }
    }
}

impl DeepView for Assignment {
    type V = AssignmentModel;

    open spec fn deep_view(&self) -> AssignmentModel {
        match self {
            Assignment::Simple { field, value } => AssignmentModel::Simple {
                field: field@,
                value: value.deep_view(),
            },
            Assignment::CounterIncr { field, delta } => AssignmentModel::CounterIncr {
                field: field@,
                delta: delta.deep_view(),
            },
            Assignment::CounterDecr { field, delta } => AssignmentModel::CounterDecr {
                field: field@,
                delta: delta.deep_view(),
            },
            Assignment::CollectionAppend { field, literal } => AssignmentModel::CollectionAppend {
                field: field@,
                literal: literal.deep_view(),
            },
            Assignment::CollectionPrepend { field, literal } => AssignmentModel::CollectionPrepend {
                field: field@,
                literal: literal.deep_view(),
            },
            Assignment::ElementUpdate { field, index, value } => AssignmentModel::ElementUpdate {
                field: field@,
                index: index.deep_view(),
                value: value.deep_view(),
            },
        }
    }
}

impl DeepView for SelectStatement {
    type V = SelectModel;

    open spec fn deep_view(&self) -> SelectModel {
        SelectModel {
            fields: self.fields.deep_view(),
            table: self.table@,
            where_clauses: self.where_clauses.deep_view(),
            order_by: self.order_by.deep_view(),
            limit: self.limit,
        }
    }
}

impl DeepView for InsertStatement {
    type V = InsertModel;

    open spec fn deep_view(&self) -> InsertModel {
        InsertModel {
            table: self.table@,
            fields: self.fields.deep_view(),
            values: self.values.deep_view(),
            lwt: self.lwt,
            using: self.using.deep_view(),
        }
    }
}

impl DeepView for DeleteStatement {
    type V = DeleteModel;

    open spec fn deep_view(&self) -> DeleteModel {
        DeleteModel {
            table: self.table@,
            fields: self.fields.deep_view(),
            where_clauses: self.where_clauses.deep_view(),
            using: self.using.deep_view(),
        }
    }
}

impl DeepView for UpdateStatement {
    type V = UpdateModel;

    open spec fn deep_view(&self) -> UpdateModel {
        UpdateModel {
            table: self.table@,
            assignments: self.assignments.deep_view(),
            where_clauses: self.where_clauses.deep_view(),
            using: self.using.deep_view(),
            if_exists: self.if_exists,
            if_condition: self.if_condition.deep_view(),
        }
    }
}

impl DeepView for ParsedCqlStatement {
    type V = StatementModel;

    open spec fn deep_view(&self) -> StatementModel {
        match self {
            ParsedCqlStatement::Select(s) => StatementModel::Select(s.deep_view()),
            ParsedCqlStatement::Insert(s) => StatementModel::Insert(s.deep_view()),
            ParsedCqlStatement::Delete(s) => StatementModel::Delete(s.deep_view()),
            ParsedCqlStatement::Update(s) => StatementModel::Update(s.deep_view()),
        }
    }
}

// ---------------------------------------------------------------------------
// Building statements: what each statement asks of its parts.

/// A LIMIT, where given, is positive.
pub open spec fn select_build(m: SelectModel) -> Result<SelectModel, ErrorKind> {
    if m.limit is Some && m.limit->Some_0 <= 0 {
        Err(ErrorKind::NonPositiveLimit)
    } else {
        Ok(m)
    }
}

/// The fields are named, one for each value.
pub open spec fn insert_build(m: InsertModel) -> Result<InsertModel, ErrorKind> {
    match m.fields {
        FieldsModel::Named(f) => if f.len() == m.values.len() {
            Ok(m)
        } else {
            Err(
                ErrorKind::FieldValueArityMismatch {
                    expected: f.len() as usize,
                    actual: m.values.len() as usize,
                },
            )
        },
        _ => Err(ErrorKind::SyntaxError),
    }
}

/// There is a WHERE clause, and not both `IF EXISTS` and an `IF` condition.
pub open spec fn update_build(m: UpdateModel) -> Result<UpdateModel, ErrorKind> {
    if m.where_clauses.len() == 0 {
        Err(ErrorKind::MissingWhereClause)
    } else if m.if_exists && m.if_condition is Some {
        Err(ErrorKind::SyntaxError)
    } else {
        Ok(m)
    }
}

/// There is a WHERE clause, and the fields are absent or named.
pub open spec fn delete_build(m: DeleteModel) -> Result<DeleteModel, ErrorKind> {
    if m.where_clauses.len() == 0 {
        Err(ErrorKind::MissingWhereClause)
    } else if m.fields is All || m.fields is Count {
        Err(ErrorKind::SyntaxError)
    } else {
        Ok(m)
    }
}

pub open spec fn built<T: DeepView>(r: Result<T, ErrorKind>) -> Result<T::V, ErrorKind> {
    match r {
        Ok(x) => Ok(x.deep_view()),
        Err(k) => Err(k),
    }
}

impl Predicate {
    /// A predicate whose value is still to be bound (`?`).
    pub fn new(field: String, op: String) -> (r: Predicate)
        ensures
            r.deep_view() == (PredicateModel { field: field@, op: op@, val: ValueModel::Placeholder }),
    {
        Predicate { field: field, op: op, val: Value::Placeholder }
    }
}

impl SelectStatement {
    pub fn new(
        fields: Fields,
        table: String,
        where_clauses: Option<Vec<Predicate>>,
        order_by: Option<OrderBy>,
        limit: Option<isize>,
    ) -> (r: Result<SelectStatement, ErrorKind>)
        ensures
            built(r) == select_build(
                SelectModel {
                    fields: fields.deep_view(),
                    table: table@,
                    where_clauses: where_clauses.deep_view(),
                    order_by: order_by.deep_view(),
                    limit: limit,
                },
            ),
    {
        match limit {
            Some(n) => if n <= 0 {
                return Err(ErrorKind::NonPositiveLimit);
            },
            None => {},
        }
        Ok(SelectStatement { fields, table, where_clauses, order_by, limit })
    }
}

impl InsertStatement {
    pub fn new(
        table: String,
        fields: Fields,
        values: Vec<Value>,
        lwt: bool,
        using: Option<Vec<UsingOption>>,
    ) -> (r: Result<InsertStatement, ErrorKind>)
        ensures
            built(r) == insert_build(
                InsertModel {
                    table: table@,
                    fields: fields.deep_view(),
                    values: values.deep_view(),
                    lwt: lwt,
                    using: using.deep_view(),
                },
            ),
    {
        let n = match &fields {
            Fields::Named(f) => f.len(),
            _ => {
                return Err(ErrorKind::SyntaxError);
            },
        };
        if n != values.len() {
            return Err(ErrorKind::FieldValueArityMismatch { expected: n, actual: values.len() });
        }
        Ok(InsertStatement { table, fields, values, lwt, using })
    }
}

impl UpdateStatement {
    pub fn new(
        table: String,
        assignments: Vec<Assignment>,
        where_clauses: Vec<Predicate>,
        using: Option<Vec<UsingOption>>,
        if_exists: bool,
        if_condition: Option<Vec<Predicate>>,
    ) -> (r: Result<UpdateStatement, ErrorKind>)
        ensures
            built(r) == update_build(
                UpdateModel {
                    table: table@,
                    assignments: assignments.deep_view(),
                    where_clauses: where_clauses.deep_view(),
                    using: using.deep_view(),
                    if_exists: if_exists,
                    if_condition: if_condition.deep_view(),
                },
            ),
    {
        if where_clauses.len() == 0 {
            return Err(ErrorKind::MissingWhereClause);
        }
        if if_exists && if_condition.is_some() {
            return Err(ErrorKind::SyntaxError);
        }
        Ok(UpdateStatement { table, assignments, where_clauses, using, if_exists, if_condition })
    }
}

impl DeleteStatement {
    pub fn new(
        table: String,
        fields: Fields,
        where_clauses: Vec<Predicate>,
        using: Option<Vec<UsingOption>>,
    ) -> (r: Result<DeleteStatement, ErrorKind>)
        ensures
            built(r) == delete_build(
                DeleteModel {
                    table: table@,
                    fields: fields.deep_view(),
                    where_clauses: where_clauses.deep_view(),
                    using: using.deep_view(),
                },
            ),
    {
        if where_clauses.len() == 0 {
            return Err(ErrorKind::MissingWhereClause);
        }
        match &fields {
            Fields::All => {
                return Err(ErrorKind::SyntaxError);
            },
            Fields::Count => {
                return Err(ErrorKind::SyntaxError);
            },
            _ => {},
        }
        Ok(DeleteStatement { table, fields, where_clauses, using })
    }
}

} // verus!
