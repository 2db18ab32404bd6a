//! The parse tree: which rule of the grammar matched which span of the source.
use vstd::prelude::*;

verus! {

/// A rule of the grammar.
#[derive(Clone, Copy, Debug, PartialEq, Eq, Hash, Structural)]
pub enum Rule {
    EOI,
    Program,
    Exp,
    UnaryExp,
    UnarySqlExp,
    BinaryExp,
    BinarySqlExp,
    BracketExp,
    BracketSqlExp,
    AssignmentExp,
    Integer,
    Boolean,
    Decimal,
    Date,
    Time,
    Datetime,
    Timestamp,
    Duration,
    Cat,
    CatAlt,
    String,
    Null,
    Series,
    Scalar,
    Cats,
    Id,
    GlobalId,
    BinaryOp,
    BinaryId,
    Fn,
    Params,
    Statements,
    FnCall,
    Arg,
    Skip,
    IfExp,
    WhileExp,
    TryExp,
    ReturnExp,
    RaiseExp,
    Dataframe,
    SeriesExp,
    RenameSeriesExp,
    SeriesName,
    Matrix,
    List,
    Dict,
    KeyValueExp,
    SqlExp,
    SelectOp,
    UpdateOp,
    DeleteOp,
    GroupExp,
    FromExp,
    FilterExp,
    SortOp,
    SortName,
    TakeOp,
}

impl Rule {
    /// The rule's name.
    pub open spec fn spec_name(self) -> Seq<char> {
        match self {
            Rule::EOI => "EOI"@,
            Rule::Program => "Program"@,
            Rule::Exp => "Exp"@,
            Rule::UnaryExp => "UnaryExp"@,
            Rule::UnarySqlExp => "UnarySqlExp"@,
            Rule::BinaryExp => "BinaryExp"@,
            Rule::BinarySqlExp => "BinarySqlExp"@,
            Rule::BracketExp => "BracketExp"@,
            Rule::BracketSqlExp => "BracketSqlExp"@,
            Rule::AssignmentExp => "AssignmentExp"@,
            Rule::Integer => "Integer"@,
            Rule::Boolean => "Boolean"@,
            Rule::Decimal => "Decimal"@,
            Rule::Date => "Date"@,
            Rule::Time => "Time"@,
            Rule::Datetime => "Datetime"@,
            Rule::Timestamp => "Timestamp"@,
            Rule::Duration => "Duration"@,
            Rule::Cat => "Cat"@,
            Rule::CatAlt => "CatAlt"@,
            Rule::String => "String"@,
            Rule::Null => "Null"@,
            Rule::Series => "Series"@,
            Rule::Scalar => "Scalar"@,
            Rule::Cats => "Cats"@,
            Rule::Id => "Id"@,
            Rule::GlobalId => "GlobalId"@,
            Rule::BinaryOp => "BinaryOp"@,
            Rule::BinaryId => "BinaryId"@,
            Rule::Fn => "Fn"@,
            Rule::Params => "Params"@,
            Rule::Statements => "Statements"@,
            Rule::FnCall => "FnCall"@,
            Rule::Arg => "Arg"@,
            Rule::Skip => "Skip"@,
            Rule::IfExp => "IfExp"@,
            Rule::WhileExp => "WhileExp"@,
            Rule::TryExp => "TryExp"@,
            Rule::ReturnExp => "ReturnExp"@,
            Rule::RaiseExp => "RaiseExp"@,
            Rule::Dataframe => "Dataframe"@,
            Rule::SeriesExp => "SeriesExp"@,
            Rule::RenameSeriesExp => "RenameSeriesExp"@,
            Rule::SeriesName => "SeriesName"@,
            Rule::Matrix => "Matrix"@,
            Rule::List => "List"@,
            Rule::Dict => "Dict"@,
            Rule::KeyValueExp => "KeyValueExp"@,
            Rule::SqlExp => "SqlExp"@,
            Rule::SelectOp => "SelectOp"@,
            Rule::UpdateOp => "UpdateOp"@,
            Rule::DeleteOp => "DeleteOp"@,
            Rule::GroupExp => "GroupExp"@,
            Rule::FromExp => "FromExp"@,
            Rule::FilterExp => "FilterExp"@,
            Rule::SortOp => "SortOp"@,
            Rule::SortName => "SortName"@,
            Rule::TakeOp => "TakeOp"@,
        }
    }

    /// The rule's name.
    pub fn name(self) -> (r: &'static str)
        ensures
            r@ == self.spec_name(),
    {
        match self {
            Rule::EOI => "EOI",
            Rule::Program => "Program",
            Rule::Exp => "Exp",
            Rule::UnaryExp => "UnaryExp",
            Rule::UnarySqlExp => "UnarySqlExp",
            Rule::BinaryExp => "BinaryExp",
            Rule::BinarySqlExp => "BinarySqlExp",
            Rule::BracketExp => "BracketExp",
            Rule::BracketSqlExp => "BracketSqlExp",
            Rule::AssignmentExp => "AssignmentExp",
            Rule::Integer => "Integer",
            Rule::Boolean => "Boolean",
            Rule::Decimal => "Decimal",
            Rule::Date => "Date",
            Rule::Time => "Time",
            Rule::Datetime => "Datetime",
            Rule::Timestamp => "Timestamp",
            Rule::Duration => "Duration",
            Rule::Cat => "Cat",
            Rule::CatAlt => "CatAlt",
            Rule::String => "String",
            Rule::Null => "Null",
            Rule::Series => "Series",
            Rule::Scalar => "Scalar",
            Rule::Cats => "Cats",
            Rule::Id => "Id",
            Rule::GlobalId => "GlobalId",
            Rule::BinaryOp => "BinaryOp",
            Rule::BinaryId => "BinaryId",
            Rule::Fn => "Fn",
            Rule::Params => "Params",
            Rule::Statements => "Statements",
            Rule::FnCall => "FnCall",
            Rule::Arg => "Arg",
            Rule::Skip => "Skip",
            Rule::IfExp => "IfExp",
            Rule::WhileExp => "WhileExp",
            Rule::TryExp => "TryExp",
            Rule::ReturnExp => "ReturnExp",
            Rule::RaiseExp => "RaiseExp",
            Rule::Dataframe => "Dataframe",
            Rule::SeriesExp => "SeriesExp",
            Rule::RenameSeriesExp => "RenameSeriesExp",
            Rule::SeriesName => "SeriesName",
            Rule::Matrix => "Matrix",
            Rule::List => "List",
            Rule::Dict => "Dict",
            Rule::KeyValueExp => "KeyValueExp",
            Rule::SqlExp => "SqlExp",
            Rule::SelectOp => "SelectOp",
            Rule::UpdateOp => "UpdateOp",
            Rule::DeleteOp => "DeleteOp",
            Rule::GroupExp => "GroupExp",
            Rule::FromExp => "FromExp",
            Rule::FilterExp => "FilterExp",
            Rule::SortOp => "SortOp",
            Rule::SortName => "SortName",
            Rule::TakeOp => "TakeOp",
        }
    }
}

/// A node of the parse tree: the rule that matched, the bytes of the source
/// that it matched, from `start` up to `end`, their text, and the matches of
/// the rules inside it, in the order of the source.
#[derive(Debug, PartialEq, Eq)]
pub struct Pair {
    pub rule: Rule,
    pub start: usize,
    pub end: usize,
    pub text: String,
    pub inner: Vec<Pair>,
}

impl Pair {
    /// A node without nodes inside it.
    pub fn leaf(rule: Rule, start: usize, end: usize, text: String) -> (r: Pair)
        ensures
            r.rule == rule,
            r.start == start,
            r.end == end,
            r.text == text,
            r.inner@.len() == 0,
    {
        Pair { rule, start, end, text, inner: Vec::new() }
    }

    /// The rule that matched.
    pub fn as_rule(&self) -> (r: Rule)
        ensures
            r == self.rule,
    {
        self.rule
    }

    /// The text that the rule matched.
    pub fn as_str(&self) -> (r: &str)
        ensures
            r@ == self.text@,
    {
        self.text.as_str()
    }

    /// The span lies in a source of `len` bytes, the text is that of the span,
    /// and the nodes inside lie in the span, one after the other, each in
    /// order by itself.
    pub open spec fn within(self, source: Seq<u8>) -> bool
        decreases self,
    {
        &&& self.start <= self.end <= source.len()
        &&& crate::text::utf8(self.text@) == source.subrange(self.start as int, self.end as int)
        &&& forall|i: int|
            0 <= i < self.inner@.len() ==> {
                &&& self.start <= (#[trigger] self.inner@[i]).start
                &&& self.inner@[i].end <= self.end
                &&& self.inner@[i].within(source)
            }
    }
}

} // verus!
