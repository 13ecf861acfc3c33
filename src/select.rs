//! The dynamic select builder: clause lists accumulated in call order and
//! assembled into one statement in the fixed SQL clause order.

use vstd::prelude::*;
use crate::commands::{Fetch, Statement, column_list, lemma_join_take};
use crate::dialect::{placeholder, push_placeholder};
use crate::model::EntityModel;
use crate::predicates::{Aggregate, OrderBy, Where, aggregate_sql, order_sql, where_sql};
use crate::text::join;
use crate::value::Value;

verus! {

/// What a WHERE predicate requires of its column.
#[derive(Debug, Clone, PartialEq)]
pub enum Filter {
    /// `column op value`.
    Compare(Where, Value),
    /// `column BETWEEN low AND high`.
    Between(Value, Value),
}

/// One WHERE predicate on a column position.
#[derive(Debug, Clone, PartialEq)]
pub struct Predicate {
    pub column: usize,
    pub filter: Filter,
}

/// One HAVING predicate: `aggregate(column) op value`.
#[derive(Debug, Clone, PartialEq)]
pub struct Having {
    pub column: usize,
    pub op: Where,
    pub aggregate: Aggregate,
    pub value: Value,
}

/// One ORDER BY entry.
#[derive(Debug, Clone, Copy, PartialEq, Eq, Structural)]
pub struct Ordering {
    pub column: usize,
    pub direction: OrderBy,
}

/// The state of one select chain over a model. It is consumed by `build`.
#[derive(Debug, Clone, PartialEq)]
pub struct SelectBuilder<'a> {
    pub model: &'a EntityModel,
    pub predicates: Vec<Predicate>,
    pub group_by: Vec<usize>,
    pub having: Vec<Having>,
    pub order_by: Vec<Ordering>,
    pub limit: Option<i64>,
    pub offset: Option<i64>,
}

/// The bound values of one WHERE predicate.
pub open spec fn filter_args(f: Filter) -> Seq<Value> {
    match f {
        Filter::Compare(_, v) => seq![v],
        Filter::Between(lo, hi) => seq![lo, hi],
    }
}

/// The bound values of WHERE predicates, in order.
pub open spec fn predicate_args(ps: Seq<Predicate>) -> Seq<Value>
    decreases ps.len(),
{
    if ps.len() == 0 {
        Seq::empty()
    } else {
        predicate_args(ps.drop_last()) + filter_args(ps.last().filter)
    }
}

/// The text of one WHERE predicate whose first argument follows `base` others.
pub open spec fn predicate_text(m: EntityModel, p: Predicate, base: nat) -> Seq<char> {
    let name = m.columns@[p.column as int].name@;
    match p.filter {
        Filter::Compare(op, _) => name + " "@ + where_sql(op) + " "@ + placeholder(
            m.dialect,
            base + 1,
        ),
        Filter::Between(_, _) => name + " BETWEEN "@ + placeholder(m.dialect, base + 1)
            + " AND "@ + placeholder(m.dialect, base + 2),
    }
}

/// The texts of WHERE predicates, numbered in order from the first argument.
pub open spec fn predicate_texts(m: EntityModel, ps: Seq<Predicate>) -> Seq<Seq<char>>
    decreases ps.len(),
{
    if ps.len() == 0 {
        Seq::empty()
    } else {
        predicate_texts(m, ps.drop_last()).push(
            predicate_text(m, ps.last(), predicate_args(ps.drop_last()).len()),
        )
    }
}

/// The column names of GROUP BY entries.
pub open spec fn group_texts(m: EntityModel, gs: Seq<usize>) -> Seq<Seq<char>> {
    Seq::new(gs.len(), |k: int| m.columns@[gs[k] as int].name@)
}

/// The texts of HAVING predicates, numbered after `base` arguments.
pub open spec fn having_texts(m: EntityModel, hs: Seq<Having>, base: nat) -> Seq<Seq<char>> {
    Seq::new(
        hs.len(),
        |k: int|
            aggregate_sql(hs[k].aggregate, m.columns@[hs[k].column as int].name@) + " "@ + where_sql(
                hs[k].op,
            ) + " "@ + placeholder(m.dialect, (base + k + 1) as nat),
    )
}

/// The bound values of HAVING predicates.
pub open spec fn having_args(hs: Seq<Having>) -> Seq<Value> {
    Seq::new(hs.len(), |k: int| hs[k].value)
}

/// The texts of ORDER BY entries: column name and direction.
pub open spec fn order_texts(m: EntityModel, os: Seq<Ordering>) -> Seq<Seq<char>> {
    Seq::new(
        os.len(),
        |k: int| m.columns@[os[k].column as int].name@ + " "@ + order_sql(os[k].direction),
    )
}

/// A clause: nothing when it has no parts, else its keyword and the joined parts.
pub open spec fn clause(keyword: Seq<char>, parts: Seq<Seq<char>>, sep: Seq<char>) -> Seq<char> {
    if parts.len() == 0 {
        Seq::empty()
    } else {
        keyword + join(parts, sep)
    }
}

/// An optional clause bound to one argument at position `pos`.
pub open spec fn bound_clause(m: EntityModel, keyword: Seq<char>, o: Option<i64>, pos: nat) -> Seq<
    char,
> {
    match o {
        Some(_) => keyword + placeholder(m.dialect, pos),
        None => Seq::empty(),
    }
}

/// The bound value of an optional LIMIT or OFFSET.
pub open spec fn bound_arg(o: Option<i64>) -> Seq<Value> {
    match o {
        Some(n) => seq![Value::Int(n)],
        None => Seq::empty(),
    }
}

impl<'a> SelectBuilder<'a> {
    /// The model is well formed and every clause names one of its lookup columns.
    pub open spec fn wf(self) -> bool {
        &&& self.model.wf()
        &&& forall|k: int| 0 <= k < self.predicates@.len() ==> self.model.is_lookup(
            #[trigger] self.predicates@[k].column as int,
        )
        &&& forall|k: int| 0 <= k < self.group_by@.len() ==> self.model.is_lookup(
            #[trigger] self.group_by@[k] as int,
        )
        &&& forall|k: int| 0 <= k < self.having@.len() ==> self.model.is_lookup(
            #[trigger] self.having@[k].column as int,
        )
        &&& forall|k: int| 0 <= k < self.order_by@.len() ==> self.model.is_lookup(
            #[trigger] self.order_by@[k].column as int,
        )
    }

    /// The number of bound arguments fits the machine's integers.
    pub open spec fn bounded(self) -> bool {
        2 * self.predicates@.len() + self.having@.len() + 2 < usize::MAX
    }

    /// The number of WHERE arguments.
    pub open spec fn where_count(self) -> nat {
        predicate_args(self.predicates@).len()
    }

    /// The SQL text that `build` produces.
    pub open spec fn sql(self) -> Seq<char> {
        let m = *self.model;
        let nw = self.where_count();
        let nh = self.having@.len();
        let nl: nat = if self.limit is Some {
            1
        } else {
            0
        };
        "SELECT "@ + column_list(m) + " FROM "@ + m.table@ + clause(
            " WHERE "@,
            predicate_texts(m, self.predicates@),
            " AND "@,
        ) + clause(" GROUP BY "@, group_texts(m, self.group_by@), ","@) + clause(
            " HAVING "@,
            having_texts(m, self.having@, nw),
            " AND "@,
        ) + clause(" ORDER BY "@, order_texts(m, self.order_by@), ", "@) + bound_clause(
            m,
            " LIMIT "@,
            self.limit,
            nw + nh + 1,
        ) + bound_clause(m, " OFFSET "@, self.offset, nw + nh + nl + 1)
    }

    /// The bound arguments that `build` produces, in placeholder order.
    pub open spec fn args(self) -> Seq<Value> {
        predicate_args(self.predicates@) + having_args(self.having@) + bound_arg(self.limit)
            + bound_arg(self.offset)
    }

    /// The same chain state with `self`'s clause lists.
    pub open spec fn same_state(self, other: Self) -> bool {
        &&& self.model == other.model
        &&& self.predicates@ == other.predicates@
        &&& self.group_by@ == other.group_by@
        &&& self.having@ == other.having@
        &&& self.order_by@ == other.order_by@
        &&& self.limit == other.limit
        &&& self.offset == other.offset
    }

    /// Whether the number of bound arguments fits the machine's integers.
    pub fn is_bounded(&self) -> (r: bool)
        ensures
            r == self.bounded(),
    {
        let p = self.predicates.len();
        let h = self.having.len();
        p < usize::MAX / 2 && h < usize::MAX - 2 * p - 2
    }

    /// Adds `column op value` to the WHERE predicates.
    pub fn where_field(self, column: usize, op: Where, value: Value) -> (r: Self)
        requires
            self.wf(),
            self.model.is_lookup(column as int),
        ensures
            r.wf(),
            r.predicates@ == self.predicates@.push(
                Predicate { column, filter: Filter::Compare(op, value) },
            ),
            r.same_state(Self { predicates: r.predicates, ..self }),
    {
        let mut b = self;
        b.predicates.push(Predicate { column, filter: Filter::Compare(op, value) });
        b
    }

    /// Adds `column BETWEEN low AND high` to the WHERE predicates.
    pub fn where_between(self, column: usize, low: Value, high: Value) -> (r: Self)
        requires
            self.wf(),
            self.model.is_lookup(column as int),
        ensures
            r.wf(),
            r.predicates@ == self.predicates@.push(
                Predicate { column, filter: Filter::Between(low, high) },
            ),
            r.same_state(Self { predicates: r.predicates, ..self }),
    {
        let mut b = self;
        b.predicates.push(Predicate { column, filter: Filter::Between(low, high) });
        b
    }

    /// Adds `column` to the GROUP BY list.
    pub fn group_by(self, column: usize) -> (r: Self)
        requires
            self.wf(),
            self.model.is_lookup(column as int),
        ensures
            r.wf(),
            r.group_by@ == self.group_by@.push(column),
            r.same_state(Self { group_by: r.group_by, ..self }),
    {
        let mut b = self;
        b.group_by.push(column);
        b
    }

    /// Adds `aggregate(column) op value` to the HAVING predicates.
    pub fn having(self, column: usize, op: Where, aggregate: Aggregate, value: Value) -> (r: Self)
        requires
            self.wf(),
            self.model.is_lookup(column as int),
        ensures
            r.wf(),
            r.having@ == self.having@.push(Having { column, op, aggregate, value }),
            r.same_state(Self { having: r.having, ..self }),
    {
        let mut b = self;
        b.having.push(Having { column, op, aggregate, value });
        b
    }

    /// Adds `column direction` to the ORDER BY list, after earlier entries.
    pub fn order_by(self, column: usize, direction: OrderBy) -> (r: Self)
        requires
            self.wf(),
            self.model.is_lookup(column as int),
        ensures
            r.wf(),
            r.order_by@ == self.order_by@.push(Ordering { column, direction }),
            r.same_state(Self { order_by: r.order_by, ..self }),
    {
        let mut b = self;
        b.order_by.push(Ordering { column, direction });
        b
    }

    /// Sets the LIMIT, replacing an earlier one.
    pub fn limit(self, n: i64) -> (r: Self)
        requires
            self.wf(),
        ensures
            r.wf(),
            r.limit == Some(n),
            r.same_state(Self { limit: Some(n), ..self }),
    {
        let mut b = self;
        b.limit = Some(n);
        b
    }

    /// Sets the OFFSET, replacing an earlier one.
    pub fn offset(self, n: i64) -> (r: Self)
        requires
            self.wf(),
        ensures
            r.wf(),
            r.offset == Some(n),
            r.same_state(Self { offset: Some(n), ..self }),
    {
        let mut b = self;
        b.offset = Some(n);
        b
    }

    /// Assembles the statement: `SELECT columns FROM table`, then the WHERE,
    /// GROUP BY, HAVING, ORDER BY, LIMIT and OFFSET clauses in that order,
    /// each left out when empty; arguments are bound in the order their
    /// markers appear.
    pub fn build(self) -> (r: Statement)
        requires
            self.wf(),
            self.bounded(),
        ensures
            r.sql@ == self.sql(),
            r.args@ == self.args(),
            r.fetch == Fetch::All,
    {
        let m = self.model;
        let mut s = String::from_str("SELECT ");
        crate::commands::push_column_list(&mut s, &m.columns);
        s.append(" FROM ");
        s.append(m.table.as_str());
        let mut args: Vec<Value> = Vec::new();
        push_where_clause(&mut s, &mut args, m, &self.predicates);
        push_group_clause(&mut s, m, &self.group_by);
        push_having_clause(&mut s, &mut args, m, &self.having);
        push_order_clause(&mut s, m, &self.order_by);
        push_bound_clause(&mut s, &mut args, m, " LIMIT ", self.limit);
        push_bound_clause(&mut s, &mut args, m, " OFFSET ", self.offset);
        assert(s@ =~= self.sql());
        assert(args@ =~= self.args());
        Statement { sql: s, args, fetch: Fetch::All }
    }
}

/// Appends the text of one WHERE predicate, numbered after the arguments
/// bound so far, and binds its arguments.
fn push_predicate(s: &mut String, args: &mut Vec<Value>, m: &EntityModel, p: &Predicate)
    requires
        old(args)@.len() + 2 < usize::MAX,
        p.column < m.columns@.len(),
    ensures
        final(s)@ == old(s)@ + predicate_text(*m, *p, old(args)@.len()),
        final(args)@ == old(args)@ + filter_args(p.filter),
{
    let d = m.dialect;
    s.append(m.columns[p.column].name.as_str());
    let n = args.len();
    match &p.filter {
        Filter::Compare(op, v) => {
            s.append(" ");
            s.append(op.as_sql());
            s.append(" ");
            push_placeholder(s, d, n + 1);
            args.push(v.duplicate());
        },
        Filter::Between(lo, hi) => {
            s.append(" BETWEEN ");
            push_placeholder(s, d, n + 1);
            s.append(" AND ");
            push_placeholder(s, d, n + 2);
            args.push(lo.duplicate());
            args.push(hi.duplicate());
        },
    }
    assert(s@ =~= old(s)@ + predicate_text(*m, *p, old(args)@.len()));
    assert(args@ =~= old(args)@ + filter_args(p.filter));
}

/// Appends the text of one HAVING predicate, numbered after the arguments
/// bound so far, and binds its argument.
fn push_having(s: &mut String, args: &mut Vec<Value>, m: &EntityModel, h: &Having)
    requires
        old(args)@.len() + 1 < usize::MAX,
        h.column < m.columns@.len(),
    ensures
        final(s)@ == old(s)@ + aggregate_sql(h.aggregate, m.columns@[h.column as int].name@) + " "@
            + where_sql(h.op) + " "@ + placeholder(m.dialect, (old(args)@.len() + 1) as nat),
        final(args)@ == old(args)@.push(h.value),
{
    h.aggregate.push_applied(s, m.columns[h.column].name.as_str());
    s.append(" ");
    s.append(h.op.as_sql());
    s.append(" ");
    push_placeholder(s, m.dialect, args.len() + 1);
    args.push(h.value.duplicate());
}

/// Appends the WHERE clause of `ps` and binds its arguments, the first ones.
fn push_where_clause(s: &mut String, args: &mut Vec<Value>, m: &EntityModel, ps: &Vec<Predicate>)
    requires
        old(args)@.len() == 0,
        2 * ps@.len() + 2 < usize::MAX,
        forall|k: int| 0 <= k < ps@.len() ==> (#[trigger] ps@[k]).column < m.columns@.len(),
    ensures
        final(s)@ == old(s)@ + clause(" WHERE "@, predicate_texts(*m, ps@), " AND "@),
        final(args)@ == predicate_args(ps@),
        final(args)@.len() <= 2 * ps@.len(),
{
    let d = m.dialect;
    let ghost base = s@;
    let mut k: usize = 0;
    while k < ps.len()
        invariant
            d == m.dialect,
            2 * ps@.len() + 2 < usize::MAX,
            forall|k: int| 0 <= k < ps@.len() ==> (#[trigger] ps@[k]).column < m.columns@.len(),
            k <= ps@.len(),
            args@ == predicate_args(ps@.take(k as int)),
            args@.len() <= 2 * k,
            s@ == base + clause(" WHERE "@, predicate_texts(*m, ps@.take(k as int)), " AND "@),
        decreases ps@.len() - k,
    {
        let ghost texts = predicate_texts(*m, ps@.take(k as int));
        let ghost t = predicate_text(*m, ps@[k as int], args@.len());
        proof {
            lemma_predicates_step(*m, ps@, k as int);
            lemma_predicate_texts_len(*m, ps@.take(k as int));
            lemma_clause_push(" WHERE "@, texts, " AND "@, t);
        }
        if k == 0 {
            s.append(" WHERE ");
        } else {
            s.append(" AND ");
        }
        push_predicate(s, args, m, &ps[k]);
        k = k + 1;
        assert(args@ =~= predicate_args(ps@.take(k as int)));
    }
    assert(ps@.take(ps@.len() as int) =~= ps@);
}

/// Appends the GROUP BY clause of `gs`.
fn push_group_clause(s: &mut String, m: &EntityModel, gs: &Vec<usize>)
    requires
        forall|k: int| 0 <= k < gs@.len() ==> #[trigger] gs@[k] < m.columns@.len(),
    ensures
        final(s)@ == old(s)@ + clause(" GROUP BY "@, group_texts(*m, gs@), ","@),
{
    let ghost base = s@;
    let ghost parts = group_texts(*m, gs@);
    let mut k: usize = 0;
    while k < gs.len()
        invariant
            forall|k: int| 0 <= k < gs@.len() ==> #[trigger] gs@[k] < m.columns@.len(),
            parts == group_texts(*m, gs@),
            k <= gs@.len(),
            s@ == base + clause(" GROUP BY "@, parts.take(k as int), ","@),
        decreases gs@.len() - k,
    {
        proof {
            lemma_clause_take(" GROUP BY "@, parts, ","@, k as int);
        }
        if k == 0 {
            s.append(" GROUP BY ");
        } else {
            s.append(",");
        }
        s.append(m.columns[gs[k]].name.as_str());
        k = k + 1;
        assert(s@ =~= base + clause(" GROUP BY "@, parts.take(k as int), ","@));
    }
    assert(parts.take(gs@.len() as int) =~= parts);
}

/// Appends the HAVING clause of `hs`, numbered after the arguments bound so
/// far, and binds its arguments.
fn push_having_clause(s: &mut String, args: &mut Vec<Value>, m: &EntityModel, hs: &Vec<Having>)
    requires
        old(args)@.len() + hs@.len() + 2 < usize::MAX,
        forall|k: int| 0 <= k < hs@.len() ==> (#[trigger] hs@[k]).column < m.columns@.len(),
    ensures
        final(s)@ == old(s)@ + clause(" HAVING "@, having_texts(*m, hs@, old(args)@.len()), " AND "@),
        final(args)@ == old(args)@ + having_args(hs@),
{
    let d = m.dialect;
    let ghost base = s@;
    let ghost a0 = args@;
    let ghost parts = having_texts(*m, hs@, a0.len());
    let mut k: usize = 0;
    while k < hs.len()
        invariant
            d == m.dialect,
            a0.len() + hs@.len() + 2 < usize::MAX,
            forall|k: int| 0 <= k < hs@.len() ==> (#[trigger] hs@[k]).column < m.columns@.len(),
            parts == having_texts(*m, hs@, a0.len()),
            k <= hs@.len(),
            args@ == a0 + having_args(hs@).take(k as int),
            args@.len() == a0.len() + k,
            s@ == base + clause(" HAVING "@, parts.take(k as int), " AND "@),
        decreases hs@.len() - k,
    {
        proof {
            lemma_clause_take(" HAVING "@, parts, " AND "@, k as int);
        }
        let ghost s0 = s@;
        if k == 0 {
            s.append(" HAVING ");
        } else {
            s.append(" AND ");
        }
        let ghost s1 = s@;
        assert(args@.len() == a0.len() + k);
        push_having(s, args, m, &hs[k]);
        assert(s@ == s1 + parts[k as int]);
        k = k + 1;
        assert(args@ =~= a0 + having_args(hs@).take(k as int));
    }
    assert(parts.take(hs@.len() as int) =~= parts);
    assert(having_args(hs@).take(hs@.len() as int) =~= having_args(hs@));
}

/// Appends the ORDER BY clause of `os`.
fn push_order_clause(s: &mut String, m: &EntityModel, os: &Vec<Ordering>)
    requires
        forall|k: int| 0 <= k < os@.len() ==> (#[trigger] os@[k]).column < m.columns@.len(),
    ensures
        final(s)@ == old(s)@ + clause(" ORDER BY "@, order_texts(*m, os@), ", "@),
{
    let ghost base = s@;
    let ghost parts = order_texts(*m, os@);
    let mut k: usize = 0;
    while k < os.len()
        invariant
            forall|k: int| 0 <= k < os@.len() ==> (#[trigger] os@[k]).column < m.columns@.len(),
            parts == order_texts(*m, os@),
            k <= os@.len(),
            s@ == base + clause(" ORDER BY "@, parts.take(k as int), ", "@),
        decreases os@.len() - k,
    {
        proof {
            lemma_clause_take(" ORDER BY "@, parts, ", "@, k as int);
        }
        if k == 0 {
            s.append(" ORDER BY ");
        } else {
            s.append(", ");
        }
        let o = os[k];
        s.append(m.columns[o.column].name.as_str());
        s.append(" ");
        s.append(o.direction.as_sql());
        k = k + 1;
        assert(s@ =~= base + clause(" ORDER BY "@, parts.take(k as int), ", "@));
    }
    assert(parts.take(os@.len() as int) =~= parts);
}

/// Appends `keyword marker` for a set LIMIT or OFFSET and binds its value.
fn push_bound_clause(
    s: &mut String,
    args: &mut Vec<Value>,
    m: &EntityModel,
    keyword: &str,
    o: Option<i64>,
)
    requires
        old(args)@.len() + 1 < usize::MAX,
    ensures
        final(s)@ == old(s)@ + bound_clause(*m, keyword@, o, (old(args)@.len() + 1) as nat),
        final(args)@ == old(args)@ + bound_arg(o),
{
    match o {
        Some(n) => {
            s.append(keyword);
            push_placeholder(s, m.dialect, args.len() + 1);
            args.push(Value::Int(n));
            assert(args@ =~= old(args)@ + bound_arg(o));
        },
        None => {
            assert(args@ =~= old(args)@ + bound_arg(o));
        },
    }
}

impl EntityModel {
    /// An empty select chain over this model.
    pub fn select(&self) -> (r: SelectBuilder)
        requires
            self.wf(),
        ensures
            r.wf(),
            r.model == self,
            r.predicates@.len() == 0,
            r.group_by@.len() == 0,
            r.having@.len() == 0,
            r.order_by@.len() == 0,
            r.limit is None,
            r.offset is None,
    {
        SelectBuilder {
            model: self,
            predicates: Vec::new(),
            group_by: Vec::new(),
            having: Vec::new(),
            order_by: Vec::new(),
            limit: None,
            offset: None,
        }
    }
}

/// A clause over one more part.
pub proof fn lemma_clause_take(keyword: Seq<char>, parts: Seq<Seq<char>>, sep: Seq<char>, k: int)
    requires
        0 <= k < parts.len(),
    ensures
        clause(keyword, parts.take(k + 1), sep) == if k == 0 {
            keyword + parts[0]
        } else {
            clause(keyword, parts.take(k), sep) + sep + parts[k]
        },
{
    lemma_join_take(parts, sep, k);
}

/// A clause over one more part, for parts built by pushing.
pub proof fn lemma_clause_push(keyword: Seq<char>, parts: Seq<Seq<char>>, sep: Seq<char>, x: Seq<char>)
    ensures
        clause(keyword, parts.push(x), sep) == if parts.len() == 0 {
            keyword + x
        } else {
            clause(keyword, parts, sep) + sep + x
        },
{
    crate::text::lemma_join_push(parts, sep, x);
}

/// One more WHERE predicate extends the texts and arguments of a prefix.
pub proof fn lemma_predicates_step(m: EntityModel, ps: Seq<Predicate>, k: int)
    requires
        0 <= k < ps.len(),
    ensures
        predicate_args(ps.take(k + 1)) == predicate_args(ps.take(k)) + filter_args(ps[k].filter),
        predicate_texts(m, ps.take(k + 1)) == predicate_texts(m, ps.take(k)).push(
            predicate_text(m, ps[k], predicate_args(ps.take(k)).len()),
        ),
{
    assert(ps.take(k + 1).drop_last() =~= ps.take(k));
}

/// There is one WHERE text per predicate.
pub proof fn lemma_predicate_texts_len(m: EntityModel, ps: Seq<Predicate>)
    ensures
        predicate_texts(m, ps).len() == ps.len(),
    decreases ps.len(),
{
    if ps.len() > 0 {
        lemma_predicate_texts_len(m, ps.drop_last());
    }
}

} // verus!
