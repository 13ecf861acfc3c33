//! Sort directions, comparison operators and aggregate functions of the
//! select builder, with the SQL text each one stands for.

use vstd::prelude::*;

verus! {

/// Sort order of one ORDER BY entry.
#[derive(Debug, Clone, Copy, PartialEq, Eq, Structural)]
pub enum OrderBy {
    /// Ascending order.
    Asc,
    /// Descending order.
    Desc,
}

/// The SQL keyword of a sort direction.
pub open spec fn order_sql(o: OrderBy) -> Seq<char> {
    match o {
        OrderBy::Asc => seq!['A', 'S', 'C'],
        OrderBy::Desc => seq!['D', 'E', 'S', 'C'],
    }
}

impl Default for OrderBy {
    fn default() -> (r: OrderBy)
        ensures
            r == OrderBy::Asc,
    {
        OrderBy::Asc
    }
}

impl OrderBy {
    /// The SQL keyword: `ASC` or `DESC`.
    pub fn as_sql(&self) -> (r: &'static str)
        ensures
            r@ == order_sql(*self),
    {
        proof {
            reveal_strlit("ASC");
            reveal_strlit("DESC");
        }
        match self {
            OrderBy::Asc => "ASC",
            OrderBy::Desc => "DESC",
        }
    }

    /// The SQL keyword as an owned string.
    pub fn to_string(&self) -> (r: String)
        ensures
            r@ == order_sql(*self),
    {
        String::from_str(self.as_sql())
    }
}

/// Comparison operator of a WHERE or HAVING predicate.
#[derive(Debug, Clone, Copy, PartialEq, Eq, Structural)]
pub enum Where {
    Eq,
    NotEq,
    GreaterThan,
    GreaterOrEqual,
    LesserThan,
    LesserOrEqual,
    Like,
}

/// The SQL operator of a comparison.
pub open spec fn where_sql(w: Where) -> Seq<char> {
    match w {
        Where::Eq => seq!['='],
        Where::NotEq => seq!['<', '>'],
        Where::GreaterThan => seq!['>'],
        Where::GreaterOrEqual => seq!['>', '='],
        Where::LesserThan => seq!['<'],
        Where::LesserOrEqual => seq!['<', '='],
        Where::Like => seq!['L', 'I', 'K', 'E'],
    }
}

impl Where {
    /// The SQL operator: `=`, `<>`, `>`, `>=`, `<`, `<=` or `LIKE`.
    pub fn as_sql(&self) -> (r: &'static str)
        ensures
            r@ == where_sql(*self),
    {
        proof {
            reveal_strlit("=");
            reveal_strlit("<>");
            reveal_strlit(">");
            reveal_strlit(">=");
            reveal_strlit("<");
            reveal_strlit("<=");
            reveal_strlit("LIKE");
        }
        match self {
            Where::Eq => "=",
            Where::NotEq => "<>",
            Where::GreaterThan => ">",
            Where::GreaterOrEqual => ">=",
            Where::LesserThan => "<",
            Where::LesserOrEqual => "<=",
            Where::Like => "LIKE",
        }
    }
}

/// Aggregate function that a HAVING predicate wraps its column in.
#[derive(Debug, Clone, Copy, PartialEq, Eq, Structural)]
pub enum Aggregate {
    /// The bare column.
    Plain,
    Count,
    CountDistinct,
    Sum,
    Avg,
    Min,
    Max,
}

/// The column expression `col` wrapped in the aggregate `a`.
pub open spec fn aggregate_sql(a: Aggregate, col: Seq<char>) -> Seq<char> {
    match a {
        Aggregate::Plain => col,
        Aggregate::Count => seq!['C', 'O', 'U', 'N', 'T', '('] + col + seq![')'],
        Aggregate::CountDistinct => seq![
            'C', 'O', 'U', 'N', 'T', '(', 'D', 'I', 'S', 'T', 'I', 'N', 'C', 'T', ' '
        ] + col + seq![')'],
        Aggregate::Sum => seq!['S', 'U', 'M', '('] + col + seq![')'],
        Aggregate::Avg => seq!['A', 'V', 'G', '('] + col + seq![')'],
        Aggregate::Min => seq!['M', 'I', 'N', '('] + col + seq![')'],
        Aggregate::Max => seq!['M', 'A', 'X', '('] + col + seq![')'],
    }
}

impl Aggregate {
    /// Appends `col` wrapped in this aggregate to `s`.
    pub fn push_applied(&self, s: &mut String, col: &str)
        ensures
            final(s)@ == old(s)@ + aggregate_sql(*self, col@),
    {
        proof {
            reveal_strlit("COUNT(");
            reveal_strlit("COUNT(DISTINCT ");
            reveal_strlit("SUM(");
            reveal_strlit("AVG(");
            reveal_strlit("MIN(");
            reveal_strlit("MAX(");
            reveal_strlit(")");
        }
        let open: &str = match self {
            Aggregate::Plain => "",
            Aggregate::Count => "COUNT(",
            Aggregate::CountDistinct => "COUNT(DISTINCT ",
            Aggregate::Sum => "SUM(",
            Aggregate::Avg => "AVG(",
            Aggregate::Min => "MIN(",
            Aggregate::Max => "MAX(",
        };
        match self {
            Aggregate::Plain => {
                s.append(col);
            },
            _ => {
                s.append(open);
                s.append(col);
                s.append(")");
            },
        }
        assert(final(s)@ =~= old(s)@ + aggregate_sql(*self, col@));
    }
}

} // verus!
