use vstd::prelude::*;

use crate::sql_text::{decimal, decimal_string};

verus! {

/// A value bound to a positional parameter of a statement.
#[derive(Clone, Debug, PartialEq, Eq)]
pub enum SqlValue {
    Null,
    Bool(bool),
    Int(i64),
    Text(String),
}

/// A comparison between a column and a bound value.
#[derive(Clone, Copy, Debug, PartialEq, Eq, Structural)]
pub enum Comparison {
    Eq,
    Ne,
    Gt,
    Ge,
    Lt,
    Le,
}

/// The SQL operator of a comparison.
pub open spec fn comparison_symbol(op: Comparison) -> Seq<char> {
    match op {
        Comparison::Eq => "="@,
        Comparison::Ne => "<>"@,
        Comparison::Gt => ">"@,
        Comparison::Ge => ">="@,
        Comparison::Lt => "<"@,
        Comparison::Le => "<="@,
    }
}

impl Comparison {
    /// The SQL operator of this comparison.
    pub fn symbol(&self) -> (r: &'static str)
        ensures
            r@ == comparison_symbol(*self),
    {
        match self {
            Comparison::Eq => "=",
            Comparison::Ne => "<>",
            Comparison::Gt => ">",
            Comparison::Ge => ">=",
            Comparison::Lt => "<",
            Comparison::Le => "<=",
        }
    }
}

/// The kind of a join between two tables.
#[derive(Clone, Copy, Debug, PartialEq, Eq, Structural)]
pub enum JoinArg {
    Left,
    Right,
    Outer,
    Inner,
}

/// The SQL keyword of a join kind.
pub open spec fn join_keyword(j: JoinArg) -> Seq<char> {
    match j {
        JoinArg::Left => "LEFT"@,
        JoinArg::Right => "RIGHT"@,
        JoinArg::Outer => "OUTER"@,
        JoinArg::Inner => "INNER"@,
    }
}

impl JoinArg {
    /// The SQL keyword of this join kind.
    pub fn keyword(&self) -> (r: &'static str)
        ensures
            r@ == join_keyword(*self),
    {
        match self {
            JoinArg::Left => "LEFT",
            JoinArg::Right => "RIGHT",
            JoinArg::Outer => "OUTER",
            JoinArg::Inner => "INNER",
        }
    }
}

/// The qualified name `table.column`.
pub open spec fn qualified(table: Seq<char>, column: Seq<char>) -> Seq<char> {
    table + "."@ + column
}

/// A column of a table.
#[derive(Clone, Debug)]
pub struct ColExpr {
    pub table: String,
    pub field: String,
}

impl ColExpr {
    pub fn new(table: String, field: String) -> (r: ColExpr)
        ensures
            r.table == table,
            r.field == field,
    {
        ColExpr { table, field }
    }

    /// The qualified name of this column, `table.column`.
    pub fn full_column_name(&self) -> (r: String)
        ensures
            r@ == qualified(self.table@, self.field@),
    {
        let mut s = self.table.clone();
        s.append(".");
        s.append(self.field.as_str());
        s
    }

    /// A filter that compares this column with `value`.
    pub fn compare(self, op: Comparison, value: SqlValue) -> (r: FilterExpr)
        ensures
            r == (FilterExpr { col: self, op, value }),
    {
        FilterExpr { col: self, op, value }
    }
}

/// The placeholder of the positional parameter numbered `n`.
pub open spec fn placeholder(n: nat) -> Seq<char> {
    "@p"@ + decimal(n)
}

/// The SQL predicate of a filter whose value is bound to parameter `n`.
pub open spec fn filter_fragment(e: FilterExpr, n: nat) -> Seq<char> {
    qualified(e.col.table@, e.col.field@) + " "@ + comparison_symbol(e.op) + " "@ + placeholder(n)
}

/// A predicate on one column: the column, an operator and a bound value.
#[derive(Clone, Debug)]
pub struct FilterExpr {
    pub col: ColExpr,
    pub op: Comparison,
    pub value: SqlValue,
}

impl FilterExpr {
    /// Renders this predicate with its value bound to the next parameter: the
    /// counter moves on by one and the value is appended to `params`.
    pub fn to_sql(self, counter: &mut usize, params: &mut Vec<SqlValue>) -> (r: String)
        requires
            *old(counter) < usize::MAX,
        ensures
            *final(counter) == *old(counter) + 1,
            final(params)@ == old(params)@.push(self.value),
            r@ == filter_fragment(self, *final(counter) as nat),
    {
        let mut s = self.col.full_column_name();
        s.append(" ");
        s.append(self.op.symbol());
        s.append(" ");
        s.append("@p");
        *counter = *counter + 1;
        let num = decimal_string(*counter);
        s.append(num.as_str());
        assert(s@ =~= filter_fragment(self, *counter as nat));
        params.push(self.value);
        s
    }
}

} // verus!
