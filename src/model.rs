//! Field metadata and the entity model compiled from it.

use vstd::prelude::*;
use crate::dialect::{Dialect, dialect_named, resolve_dialect, same_text};
use crate::errors::SchemaError;
use crate::naming::{column_name, column_name_of, table_name};
use vstd::utf8::is_ascii_chars;
use crate::value::{SqlType, Value, value_fits};

verus! {

/// How a field tells that it holds no value yet.
#[derive(Debug, Clone, PartialEq)]
pub enum UnsetRule {
    /// The field is unset when it holds the default value of its type.
    TypeDefault,
    /// The field is unset when it holds this sentinel value.
    Sentinel(Value),
}

/// Metadata of one field of a record type.
#[derive(Debug, Clone, PartialEq)]
pub struct FieldSpec {
    /// Logical field name.
    pub name: String,
    /// Column name override.
    pub rename: Option<String>,
    pub sql_type: SqlType,
    pub nullable: bool,
    pub primary_key: bool,
    /// Marked for lookups, ordering and grouping.
    pub lookup: bool,
    /// Never written by the library: the store fills it.
    pub read_only: bool,
    /// Not stored at all.
    pub transient: bool,
    pub created_at: bool,
    pub updated_at: bool,
    /// Name of the record type this field refers to by primary key.
    pub foreign_key: Option<String>,
    pub unset: UnsetRule,
}

impl UnsetRule {
    /// A copy of this rule.
    pub fn duplicate(&self) -> (r: UnsetRule)
        ensures
            r == *self,
    {
        match self {
            UnsetRule::TypeDefault => UnsetRule::TypeDefault,
            UnsetRule::Sentinel(v) => UnsetRule::Sentinel(v.duplicate()),
        }
    }
}

/// A copy of an optional text.
pub fn duplicate_opt(o: &Option<String>) -> (r: Option<String>)
    ensures
        r == *o,
{
    match o {
        Some(s) => Some(s.clone()),
        None => None,
    }
}

impl FieldSpec {
    /// A copy of this field's metadata.
    pub fn duplicate(&self) -> (r: FieldSpec)
        ensures
            r == *self,
    {
        FieldSpec {
            name: self.name.clone(),
            rename: duplicate_opt(&self.rename),
            sql_type: self.sql_type,
            nullable: self.nullable,
            primary_key: self.primary_key,
            lookup: self.lookup,
            read_only: self.read_only,
            transient: self.transient,
            created_at: self.created_at,
            updated_at: self.updated_at,
            foreign_key: duplicate_opt(&self.foreign_key),
            unset: self.unset.duplicate(),
        }
    }
}

/// The column name of a field: its override, else its name in snake case.
pub fn get_field_name(field: &FieldSpec) -> (r: String)
    ensures
        r@ == column_name_of(field.name@, field.rename),
{
    column_name(&field.name, &field.rename)
}

impl FieldSpec {
    /// A stored, writable, non-nullable field of type `sql_type` that is unset
    /// when it holds its type's default value.
    pub fn new(name: &str, sql_type: SqlType) -> (r: FieldSpec)
        ensures
            r.name@ == name@,
            r.rename is None,
            r.sql_type == sql_type,
            !r.nullable && !r.primary_key && !r.lookup && !r.read_only && !r.transient,
            !r.created_at && !r.updated_at,
            r.foreign_key is None,
            r.unset == UnsetRule::TypeDefault,
    {
        FieldSpec {
            name: String::from_str(name),
            rename: None,
            sql_type,
            nullable: false,
            primary_key: false,
            lookup: false,
            read_only: false,
            transient: false,
            created_at: false,
            updated_at: false,
            foreign_key: None,
            unset: UnsetRule::TypeDefault,
        }
    }

    /// Marks the field as the primary key.
    pub fn pk(self) -> (r: FieldSpec)
        ensures
            r == (FieldSpec { primary_key: true, ..self }),
    {
        FieldSpec { primary_key: true, ..self }
    }

    /// Marks the field for lookups, ordering and grouping.
    pub fn lookup_by(self) -> (r: FieldSpec)
        ensures
            r == (FieldSpec { lookup: true, ..self }),
    {
        FieldSpec { lookup: true, ..self }
    }

    /// Marks the field as filled by the store, never written by the library.
    pub fn readonly(self) -> (r: FieldSpec)
        ensures
            r == (FieldSpec { read_only: true, ..self }),
    {
        FieldSpec { read_only: true, ..self }
    }

    /// Marks the field as not stored.
    pub fn transient(self) -> (r: FieldSpec)
        ensures
            r == (FieldSpec { transient: true, ..self }),
    {
        FieldSpec { transient: true, ..self }
    }

    /// Marks the field as the creation timestamp.
    pub fn created_at(self) -> (r: FieldSpec)
        ensures
            r == (FieldSpec { created_at: true, ..self }),
    {
        FieldSpec { created_at: true, ..self }
    }

    /// Marks the field as the update timestamp.
    pub fn updated_at(self) -> (r: FieldSpec)
        ensures
            r == (FieldSpec { updated_at: true, ..self }),
    {
        FieldSpec { updated_at: true, ..self }
    }

    /// Lets the field hold NULL, which is then its type's default value.
    pub fn nullable(self) -> (r: FieldSpec)
        ensures
            r == (FieldSpec { nullable: true, ..self }),
    {
        FieldSpec { nullable: true, ..self }
    }

    /// Stores the field under the column name `name`.
    pub fn rename(self, name: &str) -> (r: FieldSpec)
        ensures
            r.rename matches Some(n) && n@ == name@,
            r == (FieldSpec { rename: r.rename, ..self }),
    {
        FieldSpec { rename: Some(String::from_str(name)), ..self }
    }

    /// Marks the field as referring to the record type `record` by its primary key.
    pub fn fk(self, record: &str) -> (r: FieldSpec)
        ensures
            r.foreign_key matches Some(n) && n@ == record@,
            r == (FieldSpec { foreign_key: r.foreign_key, ..self }),
    {
        FieldSpec { foreign_key: Some(String::from_str(record)), ..self }
    }

    /// Makes the field unset when it holds `sentinel`.
    pub fn unset_when(self, sentinel: Value) -> (r: FieldSpec)
        ensures
            r == (FieldSpec { unset: UnsetRule::Sentinel(sentinel), ..self }),
    {
        FieldSpec { unset: UnsetRule::Sentinel(sentinel), ..self }
    }
}

/// The unset rule of a field has the field's type.
pub open spec fn rule_fits(f: FieldSpec) -> bool {
    match f.unset {
        UnsetRule::TypeDefault => true,
        UnsetRule::Sentinel(v) => value_fits(v, f.sql_type, f.nullable),
    }
}

/// The fields that take part in SQL generation, in declaration order.
pub open spec fn kept(fs: Seq<FieldSpec>) -> Seq<FieldSpec>
    decreases fs.len(),
{
    if fs.len() == 0 {
        Seq::empty()
    } else if fs.last().transient {
        kept(fs.drop_last())
    } else {
        kept(fs.drop_last()).push(fs.last())
    }
}

/// The field is marked for two roles that exclude each other: the primary key
/// is never a timestamp, and no column is both timestamps.
pub open spec fn role_clash(f: FieldSpec) -> bool {
    (f.primary_key && (f.created_at || f.updated_at)) || (f.created_at && f.updated_at)
}

/// The field at `i` is at fault: its unset rule is malformed, its roles
/// clash, or it is marked as primary key after another one.
pub open spec fn fault_at(ks: Seq<FieldSpec>, i: int) -> bool {
    !rule_fits(ks[i]) || role_clash(ks[i]) || (ks[i].primary_key && exists|j: int|
        0 <= j < i && #[trigger] ks[j].primary_key)
}

/// The table name can be derived, or need not be.
pub open spec fn record_name_ok(record: Seq<char>, rename: Option<String>) -> bool {
    rename is Some || is_ascii_chars(record)
}

/// `i` is the position of the first fault among `ks`.
pub open spec fn first_fault(ks: Seq<FieldSpec>, i: int) -> bool {
    &&& 0 <= i < ks.len()
    &&& fault_at(ks, i)
    &&& forall|j: int| 0 <= j < i ==> !fault_at(ks, j)
}

/// No field of `ks` is at fault.
pub open spec fn no_fault(ks: Seq<FieldSpec>) -> bool {
    forall|j: int| 0 <= j < ks.len() ==> !fault_at(ks, j)
}

/// Some field of `ks` is the primary key.
pub open spec fn has_pk(ks: Seq<FieldSpec>) -> bool {
    exists|j: int| 0 <= j < ks.len() && #[trigger] ks[j].primary_key
}

/// The outcome of resolving the backend names is `r`.
pub open spec fn resolves_to(bs: Seq<String>, r: Result<Dialect, SchemaError>) -> bool {
    match r {
        Ok(d) => bs.len() == 1 && dialect_named(bs[0]@) == Some(d),
        Err(SchemaError::UnknownDialect(n)) => exists|i: int|
            0 <= i < bs.len() && dialect_named(bs[i]@) is None && n@ == bs[i]@
                && forall|j: int| 0 <= j < i ==> dialect_named(#[trigger] bs[j]@) is Some,
        Err(SchemaError::NoDialect) => bs.len() == 0,
        Err(SchemaError::MultipleDialects) => bs.len() > 1
            && forall|j: int| 0 <= j < bs.len() ==> dialect_named(#[trigger] bs[j]@) is Some,
        _ => false,
    }
}

/// The backend names select exactly one supported dialect.
pub open spec fn selects_dialect(bs: Seq<String>) -> bool {
    bs.len() == 1 && dialect_named(bs[0]@) is Some
}

/// One column of a compiled entity: its name and the field it stores.
#[derive(Debug, Clone, PartialEq)]
pub struct Column {
    pub name: String,
    pub field: FieldSpec,
}

/// The last position whose field is marked as creation timestamp.
pub open spec fn last_created(cs: Seq<Column>) -> Option<int>
    decreases cs.len(),
{
    if cs.len() == 0 {
        None
    } else if cs.last().field.created_at {
        Some(cs.len() - 1)
    } else {
        last_created(cs.drop_last())
    }
}

/// The last position whose field is marked as update timestamp.
pub open spec fn last_updated(cs: Seq<Column>) -> Option<int>
    decreases cs.len(),
{
    if cs.len() == 0 {
        None
    } else if cs.last().field.updated_at {
        Some(cs.len() - 1)
    } else {
        last_updated(cs.drop_last())
    }
}

/// An optional position as a mathematical integer.
pub open spec fn as_pos(o: Option<usize>) -> Option<int> {
    match o {
        Some(p) => Some(p as int),
        None => None,
    }
}

/// The compiled, immutable schema of one record type.
#[derive(Debug, Clone, PartialEq)]
pub struct EntityModel {
    /// Name of the record type.
    pub record: String,
    pub table: String,
    pub dialect: Dialect,
    /// The stored columns, in declaration order.
    pub columns: Vec<Column>,
    /// Position of the primary-key column.
    pub pk: usize,
    /// Position of the creation timestamp, if any.
    pub created_at: Option<usize>,
    /// Position of the update timestamp, if any.
    pub updated_at: Option<usize>,
}

impl EntityModel {
    /// Exactly one column is the primary key, no column is transient, every
    /// unset rule fits its column, no column holds clashing roles, and the
    /// timestamp positions name the last columns marked as such.
    pub open spec fn wf(self) -> bool {
        &&& self.pk < self.columns@.len() < usize::MAX
        &&& forall|k: int| 0 <= k < self.columns@.len() ==>
            (#[trigger] self.columns@[k].field.primary_key <==> k == self.pk)
        &&& forall|k: int| 0 <= k < self.columns@.len() ==> !(#[trigger] self.columns@[k].field.transient)
        &&& forall|k: int| 0 <= k < self.columns@.len() ==> rule_fits(#[trigger] self.columns@[k].field)
        &&& forall|k: int| 0 <= k < self.columns@.len() ==> !role_clash(#[trigger] self.columns@[k].field)
        &&& as_pos(self.created_at) == last_created(self.columns@)
        &&& as_pos(self.updated_at) == last_updated(self.columns@)
    }

    /// The model's columns store the fields `ks` in order, each under its
    /// resolved column name.
    pub open spec fn stores(self, ks: Seq<FieldSpec>) -> bool {
        &&& self.columns@.len() == ks.len()
        &&& forall|k: int| 0 <= k < ks.len() ==> (#[trigger] self.columns@[k]).field == ks[k]
            && self.columns@[k].name@ == column_name_of(ks[k].name@, ks[k].rename)
    }

    /// Column `i` can be looked up, ordered and grouped by: it is marked for
    /// lookups, or is the primary key or a timestamp.
    pub open spec fn is_lookup(self, i: int) -> bool {
        let f = self.columns@[i].field;
        0 <= i < self.columns@.len() && (f.lookup || f.primary_key || f.created_at || f.updated_at)
    }

    /// The position of the column that stores the field named `name`.
    pub fn column_of(&self, name: &str) -> (r: Option<usize>)
        ensures
            match r {
                Some(i) => i < self.columns@.len() && self.columns@[i as int].field.name@ == name@
                    && forall|j: int| 0 <= j < i ==> (#[trigger] self.columns@[j]).field.name@ != name@,
                None => forall|j: int| 0 <= j < self.columns@.len() ==> (#[trigger] self.columns@[j]).field.name@ != name@,
            },
    {
        let mut i: usize = 0;
        while i < self.columns.len()
            invariant
                i <= self.columns@.len(),
                forall|j: int| 0 <= j < i ==> (#[trigger] self.columns@[j]).field.name@ != name@,
            decreases self.columns@.len() - i,
        {
            if same_text(&self.columns[i].field.name, name) {
                return Some(i);
            }
            i = i + 1;
        }
        None
    }

    /// Whether column `i` can be looked up, ordered and grouped by.
    pub fn is_lookup_column(&self, i: usize) -> (r: bool)
        ensures
            r == self.is_lookup(i as int),
    {
        if i < self.columns.len() {
            let f = &self.columns[i].field;
            f.lookup || f.primary_key || f.created_at || f.updated_at
        } else {
            false
        }
    }

    /// Compiles the fields of the record type `record` into its model, for
    /// the backend selected by `backends`.
    pub fn compile(
        record: &String,
        rename: &Option<String>,
        fields: &Vec<FieldSpec>,
        backends: &Vec<String>,
    ) -> (r: Result<EntityModel, SchemaError>)
        requires
            fields@.len() < usize::MAX,
        ensures
            !selects_dialect(backends@) ==> r is Err && resolves_to(backends@, Err(r->Err_0)),
            selects_dialect(backends@) && !record_name_ok(record@, *rename) ==> match r {
                Err(SchemaError::NonAsciiRecordName(n)) => n@ == record@,
                _ => false,
            },
            selects_dialect(backends@) && record_name_ok(record@, *rename) ==> match r {
                Ok(m) => {
                    &&& no_fault(kept(fields@))
                    &&& has_pk(kept(fields@))
                    &&& m.wf()
                    &&& m.stores(kept(fields@))
                    &&& rename is Some ==> m.table@ == rename->Some_0@
                    &&& m.record@ == record@
                    &&& Some(m.dialect) == dialect_named(backends@[0]@)
                },
                Err(SchemaError::MissingPrimaryKey) => no_fault(kept(fields@)) && !has_pk(
                    kept(fields@),
                ),
                Err(SchemaError::MalformedUnsetRule(n)) => exists|i: int|
                    first_fault(kept(fields@), i) && !rule_fits(kept(fields@)[i]) && n@ == kept(
                        fields@,
                    )[i].name@,
                Err(SchemaError::ConflictingRoles(n)) => exists|i: int|
                    first_fault(kept(fields@), i) && rule_fits(kept(fields@)[i]) && role_clash(
                        kept(fields@)[i],
                    ) && n@ == kept(fields@)[i].name@,
                Err(SchemaError::DuplicatePrimaryKey(n)) => exists|i: int|
                    first_fault(kept(fields@), i) && rule_fits(kept(fields@)[i]) && !role_clash(
                        kept(fields@)[i],
                    ) && n@ == kept(fields@)[i].name@,
                _ => false,
            },
    {
        let dialect = match resolve_dialect(backends) {
            Ok(d) => d,
            Err(e) => {
                return Err(e);
            },
        };
        if rename.is_none() && !record.as_str().is_ascii() {
            return Err(SchemaError::NonAsciiRecordName(record.clone()));
        }
        let table = table_name(record, rename);
        let mut columns: Vec<Column> = Vec::new();
        let mut pk: Option<usize> = None;
        let mut created_at: Option<usize> = None;
        let mut updated_at: Option<usize> = None;
        let mut i: usize = 0;
        while i < fields.len()
            invariant
                i <= fields@.len(),
                selects_dialect(backends@),
                record_name_ok(record@, *rename),
                Some(dialect) == dialect_named(backends@[0]@),
                ({
                    let ks = kept(fields@.take(i as int));
                    &&& columns@.len() == ks.len()
                    &&& forall|k: int| 0 <= k < ks.len() ==> (#[trigger] columns@[k]).field == ks[k]
                        && columns@[k].name@ == column_name_of(ks[k].name@, ks[k].rename)
                    &&& no_fault(ks)
                    &&& match pk {
                        Some(p) => p < ks.len() && forall|k: int|
                            0 <= k < ks.len() ==> (#[trigger] ks[k].primary_key <==> k == p),
                        None => !has_pk(ks),
                    }
                    &&& as_pos(created_at) == last_created(columns@)
                    &&& as_pos(updated_at) == last_updated(columns@)
                }),
            decreases fields@.len() - i,
        {
            let f = &fields[i];
            proof {
                lemma_kept_step(fields@, i as int);
                lemma_kept_prefix(fields@, i as int + 1);
            }
            if !f.transient {
                let ghost ks = kept(fields@.take(i as int));
                let ghost ks1 = ks.push(fields@[i as int]);
                let fits = match &f.unset {
                    UnsetRule::TypeDefault => true,
                    UnsetRule::Sentinel(v) => v.fits(f.sql_type, f.nullable),
                };
                if !fits {
                    proof {
                        assert(ks1[ks.len() as int] == fields@[i as int]);
                        assert(fault_at(ks1, ks.len() as int));
                        assert forall|j: int| 0 <= j < ks.len() implies !fault_at(kept(fields@), j) by {
                            assert(!fault_at(ks, j));
                        }
                        assert(first_fault(kept(fields@), ks.len() as int));
                    }
                    return Err(SchemaError::MalformedUnsetRule(f.name.clone()));
                }
                if (f.primary_key && (f.created_at || f.updated_at)) || (f.created_at && f.updated_at) {
                    proof {
                        assert(ks1[ks.len() as int] == fields@[i as int]);
                        assert(fault_at(ks1, ks.len() as int));
                        assert(kept(fields@)[ks.len() as int] == fields@[i as int]);
                        assert forall|j: int| 0 <= j < ks.len() implies !fault_at(kept(fields@), j) by {
                            assert(!fault_at(ks, j));
                        }
                        assert(first_fault(kept(fields@), ks.len() as int));
                    }
                    return Err(SchemaError::ConflictingRoles(f.name.clone()));
                }
                if f.primary_key {
                    match pk {
                        Some(p) => {
                            proof {
                                assert(ks1[p as int] == ks[p as int]);
                                assert(ks1[p as int].primary_key);
                                assert(kept(fields@)[p as int].primary_key);
                                assert(kept(fields@)[ks.len() as int] == fields@[i as int]);
                                assert(fault_at(ks1, ks.len() as int));
                                assert forall|j: int| 0 <= j < ks.len() implies !fault_at(kept(fields@), j) by {
                                    assert(!fault_at(ks, j));
                                }
                                assert(first_fault(kept(fields@), ks.len() as int));
                            }
                            return Err(SchemaError::DuplicatePrimaryKey(f.name.clone()));
                        },
                        None => {
                            pk = Some(columns.len());
                        },
                    }
                }
                let ghost old_columns = columns@;
                if f.created_at {
                    created_at = Some(columns.len());
                }
                if f.updated_at {
                    updated_at = Some(columns.len());
                }
                let name = get_field_name(f);
                columns.push(Column { name, field: f.duplicate() });
                proof {
                    assert(columns@.drop_last() =~= old_columns);
                    assert forall|j: int| 0 <= j < ks1.len() implies !fault_at(ks1, j) by {
                        if j < ks.len() {
                            assert(!fault_at(ks, j));
                            assert forall|l: int| 0 <= l < j implies ks1[l] == ks[l] by {}
                            if ks1[j].primary_key && exists|l: int| 0 <= l < j && #[trigger] ks1[l].primary_key {
                                let l = choose|l: int| 0 <= l < j && #[trigger] ks1[l].primary_key;
                                assert(ks[l].primary_key);
                            }
                        } else {
                            if ks1[j].primary_key {
                                assert(!has_pk(ks));
                                if exists|l: int| 0 <= l < j && #[trigger] ks1[l].primary_key {
                                    let l = choose|l: int| 0 <= l < j && #[trigger] ks1[l].primary_key;
                                    assert(ks[l].primary_key);
                                }
                            }
                        }
                    }
                    if pk is None {
                        assert forall|j: int| 0 <= j < ks1.len() implies !(#[trigger] ks1[j].primary_key) by {
                            if j < ks.len() {
                                assert(ks1[j] == ks[j]);
                            }
                        }
                    }
                }
            }
            i = i + 1;
        }
        proof {
            assert(fields@.take(fields@.len() as int) =~= fields@);
        }
        match pk {
            None => Err(SchemaError::MissingPrimaryKey),
            Some(p) => {
                let m = EntityModel { record: record.clone(), table, dialect, columns, pk: p, created_at, updated_at };
                proof {
                    let ks = kept(fields@);
                    lemma_kept_len(fields@);
                    assert forall|k: int| 0 <= k < m.columns@.len() implies
                        !(#[trigger] m.columns@[k].field.transient) by {
                        lemma_kept_not_transient(fields@, k);
                    }
                    assert forall|k: int| 0 <= k < m.columns@.len() implies
                        rule_fits(#[trigger] m.columns@[k].field) by {
                        assert(!fault_at(ks, k));
                    }
                    assert forall|k: int| 0 <= k < m.columns@.len() implies
                        !role_clash(#[trigger] m.columns@[k].field) by {
                        assert(!fault_at(ks, k));
                    }
                    assert(ks[p as int].primary_key);
                }
                Ok(m)
            },
        }
    }
}

/// The last creation timestamp is a position of the columns marked as such.
pub proof fn lemma_last_created(cs: Seq<Column>)
    ensures
        last_created(cs) matches Some(c) ==> 0 <= c < cs.len() && cs[c].field.created_at,
    decreases cs.len(),
{
    if cs.len() > 0 {
        lemma_last_created(cs.drop_last());
    }
}

/// The last update timestamp is a position of the columns marked as such.
pub proof fn lemma_last_updated(cs: Seq<Column>)
    ensures
        last_updated(cs) matches Some(u) ==> 0 <= u < cs.len() && cs[u].field.updated_at,
    decreases cs.len(),
{
    if cs.len() > 0 {
        lemma_last_updated(cs.drop_last());
    }
}

/// In a well-formed model the primary key and the two timestamps are three
/// different columns.
pub proof fn lemma_roles_apart(m: EntityModel)
    requires
        m.wf(),
    ensures
        m.created_at != Some(m.pk),
        m.updated_at != Some(m.pk),
        m.created_at is Some ==> m.updated_at != m.created_at,
{
    lemma_last_created(m.columns@);
    lemma_last_updated(m.columns@);
    if m.created_at == Some(m.pk) {
        assert(role_clash(m.columns@[m.pk as int].field));
    }
    if m.updated_at == Some(m.pk) {
        assert(role_clash(m.columns@[m.pk as int].field));
    }
    if m.created_at is Some && m.updated_at == m.created_at {
        assert(role_clash(m.columns@[m.created_at->Some_0 as int].field));
    }
}

/// One more field extends the kept fields by it unless it is transient.
pub proof fn lemma_kept_step(fs: Seq<FieldSpec>, i: int)
    requires
        0 <= i < fs.len(),
    ensures
        kept(fs.take(i + 1)) == if fs[i].transient {
            kept(fs.take(i))
        } else {
            kept(fs.take(i)).push(fs[i])
        },
{
    assert(fs.take(i + 1).drop_last() =~= fs.take(i));
}

/// The kept fields of a concatenation are the concatenation of the kept fields.
pub proof fn lemma_kept_concat(a: Seq<FieldSpec>, b: Seq<FieldSpec>)
    ensures
        kept(a + b) == kept(a) + kept(b),
    decreases b.len(),
{
    if b.len() == 0 {
        assert(a + b =~= a);
        assert(kept(a) + kept(b) =~= kept(a));
    } else {
        assert((a + b).drop_last() =~= a + b.drop_last());
        lemma_kept_concat(a, b.drop_last());
        if b.last().transient {
        } else {
            assert(kept(a) + kept(b.drop_last()).push(b.last()) =~= (kept(a) + kept(
                b.drop_last(),
            )).push(b.last()));
        }
    }
}

/// The kept fields of a prefix are a prefix of the kept fields.
pub proof fn lemma_kept_prefix(fs: Seq<FieldSpec>, i: int)
    requires
        0 <= i <= fs.len(),
    ensures
        kept(fs.take(i)).len() <= kept(fs).len(),
        forall|k: int| 0 <= k < kept(fs.take(i)).len() ==> #[trigger] kept(fs)[k] == kept(fs.take(i))[k],
{
    assert(fs =~= fs.take(i) + fs.skip(i));
    lemma_kept_concat(fs.take(i), fs.skip(i));
}

/// There are no more kept fields than fields.
pub proof fn lemma_kept_len(fs: Seq<FieldSpec>)
    ensures
        kept(fs).len() <= fs.len(),
    decreases fs.len(),
{
    if fs.len() > 0 {
        lemma_kept_len(fs.drop_last());
    }
}

/// No kept field is transient.
pub proof fn lemma_kept_not_transient(fs: Seq<FieldSpec>, k: int)
    requires
        0 <= k < kept(fs).len(),
    ensures
        !kept(fs)[k].transient,
    decreases fs.len(),
{
    if fs.last().transient {
        lemma_kept_not_transient(fs.drop_last(), k);
    } else if k < kept(fs.drop_last()).len() {
        lemma_kept_not_transient(fs.drop_last(), k);
    }
}

} // verus!
