//! Properties that relate several operations of the library.

use vstd::prelude::*;
use crate::commands::{
    Fresh, column_list, delete_sql, insert_sql, is_unset, lookup_sql, needs_insert, save_args,
    save_sql, saved_row, update_sql, with_update_stamp, writable,
    lemma_writable_bounds,
};
use crate::dialect::placeholder;
use crate::model::{EntityModel, lemma_last_created, lemma_last_updated, lemma_roles_apart};
use crate::select::SelectBuilder;
use crate::value::Value;

verus! {

/// The position among the written columns of the column at `p`, if written.
proof fn lemma_writable_index(m: EntityModel, p: int) -> (k: int)
    requires
        m.wf(),
        0 <= p < m.columns@.len(),
        !m.columns@[p].field.read_only,
    ensures
        0 <= k < writable(m.columns@).len(),
        writable(m.columns@)[k] == p,
{
    lemma_writable_contains(m.columns@, p);
    choose|k: int| 0 <= k < writable(m.columns@).len() && writable(m.columns@)[k] == p
}

/// Every column that is not read-only is among the written positions.
proof fn lemma_writable_contains(cs: Seq<crate::model::Column>, p: int)
    requires
        0 <= p < cs.len(),
        !cs[p].field.read_only,
    ensures
        exists|k: int| 0 <= k < writable(cs).len() && writable(cs)[k] == p,
    decreases cs.len(),
{
    if p == cs.len() - 1 {
        let k = writable(cs.drop_last()).len() as int;
        assert(writable(cs)[k] == p);
    } else {
        lemma_writable_contains(cs.drop_last(), p);
        let k = choose|k: int|
            0 <= k < writable(cs.drop_last()).len() && writable(cs.drop_last())[k] == p;
        assert(writable(cs)[k] == p);
    }
}

/// Saving a record whose primary key is unset inserts it. Where the library
/// stamps the primary key, the statement stores the fresh key, which is the
/// value a primary-key lookup of the saved record binds; where it stamps both
/// timestamps, they hold the same instant.
pub proof fn law_insert_unset_key(m: EntityModel, row: Seq<Value>, fresh: Fresh)
    requires
        m.wf(),
        row.len() == m.columns@.len(),
        is_unset(m, m.pk as int, row[m.pk as int]),
    ensures
        needs_insert(m, row, fresh),
        save_sql(m, row, fresh) == insert_sql(m),
        !m.columns@[m.pk as int].field.read_only ==> {
            let saved = saved_row(m, row, fresh);
            &&& saved[m.pk as int] == fresh.key
            &&& exists|k: int|
                0 <= k < save_args(m, row, fresh).len() && save_args(m, row, fresh)[k]
                    == saved[m.pk as int]
        },
        ({
            let c = m.created_at->Some_0 as int;
            let u = m.updated_at->Some_0 as int;
            m.created_at is Some && m.updated_at is Some && !m.columns@[c].field.read_only
                && !m.columns@[u].field.read_only ==> saved_row(m, row, fresh)[c] == saved_row(
                m,
                row,
                fresh,
            )[u]
        }),
{
    lemma_last_created(m.columns@);
    lemma_last_updated(m.columns@);
    lemma_roles_apart(m);
    lemma_writable_bounds(m.columns@);
    let r1 = with_update_stamp(m, row, fresh);
    assert(r1[m.pk as int] == row[m.pk as int]);
    let saved = saved_row(m, row, fresh);
    if !m.columns@[m.pk as int].field.read_only {
        let k = lemma_writable_index(m, m.pk as int);
        assert(save_args(m, row, fresh)[k] == saved[m.pk as int]);
    }
}

/// Saving a record whose primary key is set updates it: the key stays as it
/// was and keys the update, the creation timestamp and every other column but
/// the update timestamp keep their values, and the update timestamp, where
/// the library writes it, takes the fresh instant.
pub proof fn law_update_set_key(m: EntityModel, row: Seq<Value>, fresh: Fresh)
    requires
        m.wf(),
        row.len() == m.columns@.len(),
        !is_unset(m, m.pk as int, row[m.pk as int]),
    ensures
        !needs_insert(m, row, fresh),
        save_sql(m, row, fresh) == update_sql(m),
        saved_row(m, row, fresh)[m.pk as int] == row[m.pk as int],
        save_args(m, row, fresh).last() == row[m.pk as int],
        ({
            let c = m.created_at->Some_0;
            m.created_at is Some ==> saved_row(m, row, fresh)[c as int] == row[c as int]
        }),
        forall|k: int|
            0 <= k < row.len() && m.updated_at != Some(k as usize) ==> #[trigger] saved_row(
                m,
                row,
                fresh,
            )[k] == row[k],
        ({
            let u = m.updated_at->Some_0 as int;
            m.updated_at is Some && !m.columns@[u].field.read_only ==> saved_row(m, row, fresh)[u]
                == fresh.now
        }),
{
    lemma_last_created(m.columns@);
    lemma_last_updated(m.columns@);
    lemma_roles_apart(m);
    let r1 = with_update_stamp(m, row, fresh);
    assert(r1[m.pk as int] == row[m.pk as int]);
}

/// A delete and a primary-key lookup of the same record match the same rows:
/// both end in `FROM table WHERE pk = marker` and bind the same key.
pub proof fn law_delete_matches_key_lookup(m: EntityModel)
    requires
        m.wf(),
    ensures
        ({
            let tail = " FROM "@ + m.table@ + " WHERE "@ + m.columns@[m.pk as int].name@ + " = "@
                + placeholder(m.dialect, 1);
            &&& delete_sql(m) == "DELETE"@ + tail
            &&& lookup_sql(m, m.pk as int) == "SELECT "@ + column_list(m) + tail
        }),
{
    reveal_strlit("DELETE FROM ");
    reveal_strlit("DELETE");
    reveal_strlit(" FROM ");
    let tail = " FROM "@ + m.table@ + " WHERE "@ + m.columns@[m.pk as int].name@ + " = "@
        + placeholder(m.dialect, 1);
    assert("DELETE FROM "@ =~= "DELETE"@ + " FROM "@);
    assert(delete_sql(m) =~= "DELETE"@ + tail);
    assert(lookup_sql(m, m.pk as int) =~= "SELECT "@ + column_list(m) + tail);
}

/// A save binds exactly as many arguments as its statement has markers: one
/// per written column, plus the key of an update, whose marker comes last.
pub proof fn law_save_markers_match_args(m: EntityModel, row: Seq<Value>, fresh: Fresh)
    requires
        m.wf(),
        row.len() == m.columns@.len(),
    ensures
        needs_insert(m, row, fresh) ==> save_args(m, row, fresh).len() == writable(
            m.columns@,
        ).len(),
        !needs_insert(m, row, fresh) ==> save_args(m, row, fresh).len() == writable(
            m.columns@,
        ).len() + 1,
{
}

/// A select binds one argument per comparison, two per range, one per
/// HAVING predicate and one each for a set LIMIT and OFFSET.
pub proof fn law_select_args_count(b: SelectBuilder)
    ensures
        b.args().len() == b.where_count() + b.having@.len() + (if b.limit is Some {
            1int
        } else {
            0
        }) + (if b.offset is Some {
            1int
        } else {
            0
        }),
{
}

/// Building the same chain of calls twice yields the same SQL text and the
/// same arguments in the same order.
pub proof fn law_build_deterministic(a: SelectBuilder, b: SelectBuilder)
    requires
        a.same_state(b),
    ensures
        a.sql() == b.sql(),
        a.args() == b.args(),
{
}

} // verus!
