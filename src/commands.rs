//! Insert, update, delete and lookup statements, and the upsert decision.

use vstd::prelude::*;
use crate::dialect::{Dialect, placeholder, push_placeholder};
use crate::errors::Error;
use crate::model::{Column, EntityModel, UnsetRule};
use crate::naming::{accessor_name, accessor_name_of};
use crate::text::join;
use crate::value::{Value, duplicate_values, is_type_default, same_value, value_fits};

verus! {

/// How the executor runs a statement and what it hands back.
#[derive(Debug, Clone, Copy, PartialEq, Eq, Structural)]
pub enum Fetch {
    /// Run it and report the number of affected rows.
    Execute,
    /// Exactly one row; no row is an error.
    One,
    /// At most one row; no row is an absent result.
    Optional,
    /// Every row.
    All,
}

/// SQL text with its bound arguments, in placeholder order.
#[derive(Debug, Clone, PartialEq)]
pub struct Statement {
    pub sql: String,
    pub args: Vec<Value>,
    pub fetch: Fetch,
}

/// The values that a save stamps into a record, as the fields' generation
/// rules produce them for this save: a fresh primary key for an insert (such
/// as a new identifier), and the current instant for the timestamps. Both
/// come from the caller, who owns the random source and the clock.
#[derive(Debug, Clone, PartialEq)]
pub struct Fresh {
    pub key: Value,
    pub now: Value,
}

/// Positions of the columns that the library writes (not read-only), in order.
pub open spec fn writable(cs: Seq<Column>) -> Seq<int>
    decreases cs.len(),
{
    if cs.len() == 0 {
        Seq::empty()
    } else if cs.last().field.read_only {
        writable(cs.drop_last())
    } else {
        writable(cs.drop_last()).push(cs.len() - 1)
    }
}

/// The names of all columns, in order.
pub open spec fn all_names(cs: Seq<Column>) -> Seq<Seq<char>> {
    Seq::new(cs.len(), |k: int| cs[k].name@)
}

/// The names of the columns at positions `ps`.
pub open spec fn names_at(cs: Seq<Column>, ps: Seq<int>) -> Seq<Seq<char>> {
    Seq::new(ps.len(), |k: int| cs[ps[k]].name@)
}

/// The markers of `n` arguments numbered from 1.
pub open spec fn markers(d: Dialect, n: nat) -> Seq<Seq<char>> {
    Seq::new(n, |k: int| placeholder(d, (k + 1) as nat))
}

/// `name = marker` for the columns at `ps`, numbered from 1.
pub open spec fn assignments(cs: Seq<Column>, ps: Seq<int>, d: Dialect) -> Seq<Seq<char>> {
    Seq::new(ps.len(), |k: int| cs[ps[k]].name@ + " = "@ + placeholder(d, (k + 1) as nat))
}

/// The values of `row` at positions `ps`.
pub open spec fn values_at(row: Seq<Value>, ps: Seq<int>) -> Seq<Value> {
    Seq::new(ps.len(), |k: int| row[ps[k]])
}

/// `a,b,c` for the names of all columns.
pub open spec fn column_list(m: EntityModel) -> Seq<char> {
    join(all_names(m.columns@), ","@)
}

/// `INSERT INTO t (writable columns) VALUES (markers) RETURNING all columns`.
pub open spec fn insert_sql(m: EntityModel) -> Seq<char> {
    let w = writable(m.columns@);
    "INSERT INTO "@ + m.table@ + " ("@ + join(names_at(m.columns@, w), ","@) + ") VALUES ("@
        + join(markers(m.dialect, w.len()), ","@) + ") RETURNING "@ + column_list(m)
}

/// `UPDATE t SET c1 = $1,... WHERE pk = $n+1 RETURNING all columns`.
pub open spec fn update_sql(m: EntityModel) -> Seq<char> {
    let w = writable(m.columns@);
    "UPDATE "@ + m.table@ + " SET "@ + join(assignments(m.columns@, w, m.dialect), ","@)
        + " WHERE "@ + m.columns@[m.pk as int].name@ + " = "@ + placeholder(
        m.dialect,
        (w.len() + 1) as nat,
    ) + " RETURNING "@ + column_list(m)
}

/// `DELETE FROM t WHERE pk = $1`.
pub open spec fn delete_sql(m: EntityModel) -> Seq<char> {
    "DELETE FROM "@ + m.table@ + " WHERE "@ + m.columns@[m.pk as int].name@ + " = "@
        + placeholder(m.dialect, 1)
}

/// `SELECT all columns FROM t WHERE column i = $1`.
pub open spec fn lookup_sql(m: EntityModel, i: int) -> Seq<char> {
    "SELECT "@ + column_list(m) + " FROM "@ + m.table@ + " WHERE "@ + m.columns@[i].name@
        + " = "@ + placeholder(m.dialect, 1)
}

/// The field at position `i` of `m` counts `v` as unset.
pub open spec fn is_unset(m: EntityModel, i: int, v: Value) -> bool {
    let f = m.columns@[i].field;
    match f.unset {
        UnsetRule::TypeDefault => is_type_default(v, f.sql_type, f.nullable),
        UnsetRule::Sentinel(s) => same_value(v, s),
    }
}

/// The record with its update timestamp stamped, where the library writes it.
pub open spec fn with_update_stamp(m: EntityModel, row: Seq<Value>, fresh: Fresh) -> Seq<Value> {
    match m.updated_at {
        Some(u) => if m.columns@[u as int].field.read_only {
            row
        } else {
            row.update(u as int, fresh.now)
        },
        None => row,
    }
}

/// A save of `row` inserts it: its primary key is unset once the update
/// timestamp is stamped.
pub open spec fn needs_insert(m: EntityModel, row: Seq<Value>, fresh: Fresh) -> bool {
    is_unset(m, m.pk as int, with_update_stamp(m, row, fresh)[m.pk as int])
}

/// The record as a save of `row` writes it: the update timestamp stamped, and
/// for an insert the primary key and the creation timestamp too, each only
/// where it is not read-only.
pub open spec fn saved_row(m: EntityModel, row: Seq<Value>, fresh: Fresh) -> Seq<Value> {
    let r1 = with_update_stamp(m, row, fresh);
    if needs_insert(m, row, fresh) {
        let r2 = if m.columns@[m.pk as int].field.read_only {
            r1
        } else {
            r1.update(m.pk as int, fresh.key)
        };
        match m.created_at {
            Some(c) => if m.columns@[c as int].field.read_only {
                r2
            } else {
                r2.update(c as int, fresh.now)
            },
            None => r2,
        }
    } else {
        r1
    }
}

/// The SQL text of a save of `row`.
pub open spec fn save_sql(m: EntityModel, row: Seq<Value>, fresh: Fresh) -> Seq<char> {
    if needs_insert(m, row, fresh) {
        insert_sql(m)
    } else {
        update_sql(m)
    }
}

/// The arguments of a save of `row`: the written columns of the saved record,
/// and for an update the primary key of `row` last.
pub open spec fn save_args(m: EntityModel, row: Seq<Value>, fresh: Fresh) -> Seq<Value> {
    let vs = values_at(saved_row(m, row, fresh), writable(m.columns@));
    if needs_insert(m, row, fresh) {
        vs
    } else {
        vs.push(row[m.pk as int])
    }
}

/// The fresh values fit the columns the library stamps with them: the key
/// fits a written primary key, the instant fits each written timestamp.
pub open spec fn fresh_fits(m: EntityModel, fresh: Fresh) -> bool {
    let pk = m.columns@[m.pk as int].field;
    &&& !pk.read_only ==> value_fits(fresh.key, pk.sql_type, pk.nullable)
    &&& m.created_at is Some && !m.columns@[m.created_at->Some_0 as int].field.read_only
        ==> value_fits(
        fresh.now,
        m.columns@[m.created_at->Some_0 as int].field.sql_type,
        m.columns@[m.created_at->Some_0 as int].field.nullable,
    )
    &&& m.updated_at is Some && !m.columns@[m.updated_at->Some_0 as int].field.read_only
        ==> value_fits(
        fresh.now,
        m.columns@[m.updated_at->Some_0 as int].field.sql_type,
        m.columns@[m.updated_at->Some_0 as int].field.nullable,
    )
}

/// Every value of `row` can be stored in its column.
pub open spec fn row_fits(m: EntityModel, row: Seq<Value>) -> bool {
    &&& row.len() == m.columns@.len()
    &&& forall|k: int| 0 <= k < row.len() ==> value_fits(
        #[trigger] row[k],
        m.columns@[k].field.sql_type,
        m.columns@[k].field.nullable,
    )
}

/// A join over one more part.
pub proof fn lemma_join_take(parts: Seq<Seq<char>>, sep: Seq<char>, k: int)
    requires
        0 <= k < parts.len(),
    ensures
        join(parts.take(k + 1), sep) == if k == 0 {
            parts[0]
        } else {
            join(parts.take(k), sep) + sep + parts[k]
        },
{
    assert(parts.take(k + 1).drop_last() =~= parts.take(k));
}

/// One more column extends the written positions by it unless it is read-only.
pub proof fn lemma_writable_step(cs: Seq<Column>, i: int)
    requires
        0 <= i < cs.len(),
    ensures
        writable(cs.take(i + 1)) == if cs[i].field.read_only {
            writable(cs.take(i))
        } else {
            writable(cs.take(i)).push(i)
        },
{
    assert(cs.take(i + 1).drop_last() =~= cs.take(i));
}

/// Written positions lie within the columns and name columns that are not
/// read-only.
pub proof fn lemma_writable_bounds(cs: Seq<Column>)
    ensures
        forall|k: int| 0 <= k < writable(cs).len() ==> 0 <= #[trigger] writable(cs)[k] < cs.len(),
        forall|k: int| 0 <= k < writable(cs).len() ==> !cs[#[trigger] writable(cs)[k]].field.read_only,
    decreases cs.len(),
{
    if cs.len() > 0 {
        lemma_writable_bounds(cs.drop_last());
        let w = writable(cs.drop_last());
        assert forall|k: int| 0 <= k < w.len() implies cs[w[k]] == cs.drop_last()[w[k]] by {}
    }
}

/// The positions of the written columns of `m`.
pub fn writable_positions(cs: &Vec<Column>) -> (r: Vec<usize>)
    ensures
        r@.len() == writable(cs@).len(),
        forall|k: int| 0 <= k < r@.len() ==> r@[k] as int == #[trigger] writable(cs@)[k],
{
    let mut r: Vec<usize> = Vec::new();
    let mut i: usize = 0;
    while i < cs.len()
        invariant
            i <= cs@.len(),
            r@.len() == writable(cs@.take(i as int)).len(),
            forall|k: int| 0 <= k < r@.len() ==> r@[k] as int == #[trigger] writable(
                cs@.take(i as int),
            )[k],
        decreases cs@.len() - i,
    {
        proof {
            lemma_writable_step(cs@, i as int);
        }
        if !cs[i].field.read_only {
            r.push(i);
        }
        i = i + 1;
    }
    assert(cs@.take(cs@.len() as int) =~= cs@);
    r
}

/// Appends `sep` unless `k` is the first part.
fn push_sep(s: &mut String, k: usize, sep: &str)
    ensures
        final(s)@ == if k == 0 {
            old(s)@
        } else {
            old(s)@ + sep@
        },
{
    if k > 0 {
        s.append(sep);
    }
}

/// Appends the names of all columns, separated by commas.
pub(crate) fn push_column_list(s: &mut String, cs: &Vec<Column>)
    ensures
        final(s)@ == old(s)@ + join(all_names(cs@), ","@),
{
    let ghost base = s@;
    let ghost parts = all_names(cs@);
    let mut k: usize = 0;
    while k < cs.len()
        invariant
            k <= cs@.len(),
            parts == all_names(cs@),
            s@ == base + join(parts.take(k as int), ","@),
        decreases cs@.len() - k,
    {
        proof {
            lemma_join_take(parts, ","@, k as int);
        }
        push_sep(s, k, ",");
        s.append(cs[k].name.as_str());
        k = k + 1;
        assert(s@ =~= base + join(parts.take(k as int), ","@));
    }
    assert(parts.take(cs@.len() as int) =~= parts);
}

/// Appends the names of the columns at `ps`, separated by commas.
fn push_names_at(s: &mut String, cs: &Vec<Column>, ps: &Vec<usize>, Ghost(w): Ghost<Seq<int>>)
    requires
        ps@.len() == w.len(),
        forall|k: int| 0 <= k < ps@.len() ==> ps@[k] as int == #[trigger] w[k],
        forall|k: int| 0 <= k < w.len() ==> 0 <= #[trigger] w[k] < cs@.len(),
    ensures
        final(s)@ == old(s)@ + join(names_at(cs@, w), ","@),
{
    let ghost base = s@;
    let ghost parts = names_at(cs@, w);
    let mut k: usize = 0;
    while k < ps.len()
        invariant
            k <= ps@.len(),
            ps@.len() == w.len(),
            forall|k: int| 0 <= k < ps@.len() ==> ps@[k] as int == #[trigger] w[k],
            forall|k: int| 0 <= k < w.len() ==> 0 <= #[trigger] w[k] < cs@.len(),
            parts == names_at(cs@, w),
            s@ == base + join(parts.take(k as int), ","@),
        decreases ps@.len() - k,
    {
        proof {
            lemma_join_take(parts, ","@, k as int);
        }
        push_sep(s, k, ",");
        let p = ps[k];
        assert(w[k as int] == p as int);
        s.append(cs[p].name.as_str());
        k = k + 1;
        assert(s@ =~= base + join(parts.take(k as int), ","@));
    }
    assert(parts.take(ps@.len() as int) =~= parts);
}

/// Appends the markers of `n` arguments numbered from 1, separated by commas.
fn push_markers(s: &mut String, d: Dialect, n: usize)
    ensures
        final(s)@ == old(s)@ + join(markers(d, n as nat), ","@),
{
    let ghost base = s@;
    let ghost parts = markers(d, n as nat);
    let mut k: usize = 0;
    while k < n
        invariant
            k <= n,
            parts == markers(d, n as nat),
            s@ == base + join(parts.take(k as int), ","@),
        decreases n - k,
    {
        proof {
            lemma_join_take(parts, ","@, k as int);
        }
        push_sep(s, k, ",");
        push_placeholder(s, d, k + 1);
        k = k + 1;
        assert(s@ =~= base + join(parts.take(k as int), ","@));
    }
    assert(parts.take(n as int) =~= parts);
}

/// Appends `name = marker` for the columns at `ps`, separated by commas.
fn push_assignments(
    s: &mut String,
    cs: &Vec<Column>,
    ps: &Vec<usize>,
    d: Dialect,
    Ghost(w): Ghost<Seq<int>>,
)
    requires
        ps@.len() == w.len(),
        forall|k: int| 0 <= k < ps@.len() ==> ps@[k] as int == #[trigger] w[k],
        forall|k: int| 0 <= k < w.len() ==> 0 <= #[trigger] w[k] < cs@.len(),
    ensures
        final(s)@ == old(s)@ + join(assignments(cs@, w, d), ","@),
{
    let ghost base = s@;
    let ghost parts = assignments(cs@, w, d);
    let mut k: usize = 0;
    while k < ps.len()
        invariant
            k <= ps@.len(),
            ps@.len() == w.len(),
            forall|k: int| 0 <= k < ps@.len() ==> ps@[k] as int == #[trigger] w[k],
            forall|k: int| 0 <= k < w.len() ==> 0 <= #[trigger] w[k] < cs@.len(),
            parts == assignments(cs@, w, d),
            s@ == base + join(parts.take(k as int), ","@),
        decreases ps@.len() - k,
    {
        proof {
            lemma_join_take(parts, ","@, k as int);
        }
        push_sep(s, k, ",");
        let p = ps[k];
        assert(w[k as int] == p as int);
        s.append(cs[p].name.as_str());
        s.append(" = ");
        push_placeholder(s, d, k + 1);
        k = k + 1;
        assert(s@ =~= base + join(parts.take(k as int), ","@));
    }
    assert(parts.take(ps@.len() as int) =~= parts);
}

impl EntityModel {
    /// The INSERT statement text of this model.
    pub fn insert_text(&self) -> (r: String)
        requires
            self.wf(),
        ensures
            r@ == insert_sql(*self),
    {
        let w = writable_positions(&self.columns);
        proof {
            lemma_writable_bounds(self.columns@);
        }
        let mut s = String::from_str("INSERT INTO ");
        s.append(self.table.as_str());
        s.append(" (");
        push_names_at(&mut s, &self.columns, &w, Ghost(writable(self.columns@)));
        s.append(") VALUES (");
        push_markers(&mut s, self.dialect, w.len());
        s.append(") RETURNING ");
        push_column_list(&mut s, &self.columns);
        assert(s@ =~= insert_sql(*self));
        s
    }

    /// The UPDATE statement text of this model.
    pub fn update_text(&self) -> (r: String)
        requires
            self.wf(),
        ensures
            r@ == update_sql(*self),
    {
        let w = writable_positions(&self.columns);
        proof {
            lemma_writable_bounds(self.columns@);
        }
        let mut s = String::from_str("UPDATE ");
        s.append(self.table.as_str());
        s.append(" SET ");
        push_assignments(&mut s, &self.columns, &w, self.dialect, Ghost(writable(self.columns@)));
        s.append(" WHERE ");
        s.append(self.columns[self.pk].name.as_str());
        s.append(" = ");
        assert(w.len() < self.columns.len() + 1) by {
            if w.len() > 0 {
                assert(w@[w.len() - 1] as int == writable(self.columns@)[w.len() - 1]);
            }
            lemma_writable_len(self.columns@);
        }
        push_placeholder(&mut s, self.dialect, w.len() + 1);
        s.append(" RETURNING ");
        push_column_list(&mut s, &self.columns);
        assert(s@ =~= update_sql(*self));
        s
    }

    /// The statement that deletes the row of `row`'s primary key.
    pub fn delete(&self, row: &Vec<Value>) -> (r: Statement)
        requires
            self.wf(),
            row@.len() == self.columns@.len(),
        ensures
            r.sql@ == delete_sql(*self),
            r.args@ == seq![row@[self.pk as int]],
            r.fetch == Fetch::Execute,
    {
        let mut s = String::from_str("DELETE FROM ");
        s.append(self.table.as_str());
        s.append(" WHERE ");
        s.append(self.columns[self.pk].name.as_str());
        s.append(" = ");
        push_placeholder(&mut s, self.dialect, 1);
        assert(s@ =~= delete_sql(*self));
        let mut args: Vec<Value> = Vec::new();
        args.push(row[self.pk].duplicate());
        assert(args@ =~= seq![row@[self.pk as int]]);
        Statement { sql: s, args, fetch: Fetch::Execute }
    }

    /// The SELECT text that matches column `i` against one argument.
    pub fn lookup_text(&self, i: usize) -> (r: String)
        requires
            self.wf(),
            i < self.columns@.len(),
        ensures
            r@ == lookup_sql(*self, i as int),
    {
        let mut s = String::from_str("SELECT ");
        push_column_list(&mut s, &self.columns);
        s.append(" FROM ");
        s.append(self.table.as_str());
        s.append(" WHERE ");
        s.append(self.columns[i].name.as_str());
        s.append(" = ");
        push_placeholder(&mut s, self.dialect, 1);
        assert(s@ =~= lookup_sql(*self, i as int));
        s
    }

    /// The single-row lookup on lookup column `i`: the row whose column
    /// equals `value`, and an error when there is none. Where the column is
    /// not unique and several rows match, the executor's first row is taken.
    pub fn by_column(&self, i: usize, value: Value) -> (r: Statement)
        requires
            self.wf(),
            self.is_lookup(i as int),
        ensures
            r.sql@ == lookup_sql(*self, i as int),
            r.args@ == seq![value],
            r.fetch == Fetch::One,
    {
        let sql = self.lookup_text(i);
        let mut args: Vec<Value> = Vec::new();
        args.push(value);
        assert(args@ =~= seq![value]);
        Statement { sql, args, fetch: Fetch::One }
    }

    /// The multi-row lookup on lookup column `i`: every row whose column
    /// equals `value`.
    pub fn with_column(&self, i: usize, value: Value) -> (r: Statement)
        requires
            self.wf(),
            self.is_lookup(i as int),
        ensures
            r.sql@ == lookup_sql(*self, i as int),
            r.args@ == seq![value],
            r.fetch == Fetch::All,
    {
        let sql = self.lookup_text(i);
        let mut args: Vec<Value> = Vec::new();
        args.push(value);
        assert(args@ =~= seq![value]);
        Statement { sql, args, fetch: Fetch::All }
    }

    /// Whether field `i` counts `v` as unset.
    pub fn is_unset(&self, i: usize, v: &Value) -> (r: bool)
        requires
            i < self.columns@.len(),
        ensures
            r == is_unset(*self, i as int, *v),
    {
        let f = &self.columns[i].field;
        match &f.unset {
            UnsetRule::TypeDefault => v.is_type_default(f.sql_type, f.nullable),
            UnsetRule::Sentinel(s) => v.same_as(s),
        }
    }

    /// The record as a save of `row` writes it.
    pub fn stamp(&self, row: &Vec<Value>, fresh: &Fresh) -> (r: (Vec<Value>, bool))
        requires
            self.wf(),
            row@.len() == self.columns@.len(),
            fresh_fits(*self, *fresh),
        ensures
            r.0@ == saved_row(*self, row@, *fresh),
            r.0@.len() == row@.len(),
            row_fits(*self, row@) ==> row_fits(*self, r.0@),
            r.1 == needs_insert(*self, row@, *fresh),
    {
        proof {
            crate::model::lemma_last_created(self.columns@);
            crate::model::lemma_last_updated(self.columns@);
        }
        let mut work = duplicate_values(row);
        match self.updated_at {
            Some(u) => {
                if !self.columns[u].field.read_only {
                    work.set(u, fresh.now.duplicate());
                }
            },
            None => {},
        }
        assert(work@ == with_update_stamp(*self, row@, *fresh));
        let insert = self.is_unset(self.pk, &work[self.pk]);
        if insert {
            if !self.columns[self.pk].field.read_only {
                work.set(self.pk, fresh.key.duplicate());
            }
            match self.created_at {
                Some(c) => {
                    if !self.columns[c].field.read_only {
                        work.set(c, fresh.now.duplicate());
                    }
                },
                None => {},
            }
        }
        (work, insert)
    }

    /// The upsert of `row`: an INSERT of the stamped record when its primary
    /// key is unset, else an UPDATE of the stamped record keyed by `row`'s
    /// primary key. Both return the stored row.
    pub fn save(&self, row: &Vec<Value>, fresh: &Fresh) -> (r: Statement)
        requires
            self.wf(),
            row@.len() == self.columns@.len(),
            fresh_fits(*self, *fresh),
        ensures
            r.sql@ == save_sql(*self, row@, *fresh),
            r.args@ == save_args(*self, row@, *fresh),
            r.fetch == Fetch::One,
    {
        let (work, insert) = self.stamp(row, fresh);
        let w = writable_positions(&self.columns);
        proof {
            lemma_writable_bounds(self.columns@);
        }
        let ghost ws = writable(self.columns@);
        let mut args: Vec<Value> = Vec::new();
        let mut k: usize = 0;
        while k < w.len()
            invariant
                k <= w@.len(),
                w@.len() == ws.len(),
                ws == writable(self.columns@),
                forall|j: int| 0 <= j < w@.len() ==> w@[j] as int == #[trigger] ws[j],
                forall|j: int| 0 <= j < ws.len() ==> 0 <= #[trigger] ws[j] < self.columns@.len(),
                work@.len() == self.columns@.len(),
                args@ == values_at(work@, ws).take(k as int),
            decreases w@.len() - k,
        {
            let p = w[k];
            assert(ws[k as int] == p as int);
            args.push(work[p].duplicate());
            k = k + 1;
            assert(args@ =~= values_at(work@, ws).take(k as int));
        }
        assert(args@ =~= values_at(work@, ws));
        if insert {
            let sql = self.insert_text();
            Statement { sql, args, fetch: Fetch::One }
        } else {
            args.push(row[self.pk].duplicate());
            let sql = self.update_text();
            Statement { sql, args, fetch: Fetch::One }
        }
    }

    /// Whether the fresh values fit the columns a save stamps with them.
    pub fn fresh_fits(&self, fresh: &Fresh) -> (r: bool)
        requires
            self.wf(),
        ensures
            r == fresh_fits(*self, *fresh),
    {
        proof {
            crate::model::lemma_last_created(self.columns@);
            crate::model::lemma_last_updated(self.columns@);
        }
        let pk = &self.columns[self.pk].field;
        let key_ok = pk.read_only || fresh.key.fits(pk.sql_type, pk.nullable);
        let created_ok = match self.created_at {
            Some(c) => {
                let f = &self.columns[c].field;
                f.read_only || fresh.now.fits(f.sql_type, f.nullable)
            },
            None => true,
        };
        let updated_ok = match self.updated_at {
            Some(u) => {
                let f = &self.columns[u].field;
                f.read_only || fresh.now.fits(f.sql_type, f.nullable)
            },
            None => true,
        };
        key_ok && created_ok && updated_ok
    }

    /// Checks a fetched row against the columns: it must have one value per
    /// column, each of the column's type.
    pub fn decode_row(&self, values: Vec<Value>) -> (r: Result<Vec<Value>, Error>)
        ensures
            r is Ok <==> row_fits(*self, values@),
            r matches Ok(v) ==> v@ == values@,
    {
        if values.len() != self.columns.len() {
            return Err(Error::DatabaseError(String::from_str("row has the wrong number of columns")));
        }
        let mut k: usize = 0;
        while k < values.len()
            invariant
                k <= values@.len(),
                values@.len() == self.columns@.len(),
                forall|j: int| 0 <= j < k ==> value_fits(
                    #[trigger] values@[j],
                    self.columns@[j].field.sql_type,
                    self.columns@[j].field.nullable,
                ),
            decreases values@.len() - k,
        {
            let f = &self.columns[k].field;
            if !values[k].fits(f.sql_type, f.nullable) {
                return Err(Error::DatabaseError(String::from_str("row value does not fit its column")));
            }
            k = k + 1;
        }
        Ok(values)
    }

    /// The lookup through foreign-key column `i` of `row` into `target`: the
    /// target row whose primary key equals the column's value, or none. No
    /// statement when the column does not refer to `target`'s record type.
    pub fn fk_lookup(&self, i: usize, target: &EntityModel, row: &Vec<Value>) -> (r: Option<
        Statement,
    >)
        requires
            self.wf(),
            target.wf(),
            i < self.columns@.len(),
            row@.len() == self.columns@.len(),
        ensures
            r is Some <==> (self.columns@[i as int].field.foreign_key matches Some(t) && t@
                == target.record@),
            r matches Some(st) ==> st.sql@ == lookup_sql(*target, target.pk as int) && st.args@
                == seq![row@[i as int]] && st.fetch == Fetch::Optional,
    {
        match &self.columns[i].field.foreign_key {
            Some(t) => {
                if *t == target.record {
                    let sql = target.lookup_text(target.pk);
                    let mut args: Vec<Value> = Vec::new();
                    args.push(row[i].duplicate());
                    assert(args@ =~= seq![row@[i as int]]);
                    Some(Statement { sql, args, fetch: Fetch::Optional })
                } else {
                    None
                }
            },
            None => None,
        }
    }

    /// The name of the accessor of foreign-key column `i`.
    pub fn fk_accessor(&self, i: usize) -> (r: String)
        requires
            i < self.columns@.len(),
        ensures
            r@ == accessor_name_of(self.columns@[i as int].field.name@),
    {
        accessor_name(&self.columns[i].field.name)
    }
}

/// There are no more written positions than columns.
pub proof fn lemma_writable_len(cs: Seq<Column>)
    ensures
        writable(cs).len() <= cs.len(),
    decreases cs.len(),
{
    if cs.len() > 0 {
        lemma_writable_len(cs.drop_last());
    }
}

} // verus!
