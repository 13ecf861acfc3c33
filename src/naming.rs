//! Table, column and accessor names.

use vstd::prelude::*;
use vstd::utf8::is_ascii_chars;

verus! {

/// What Inflector's snake-case conversion makes of a text.
pub uninterp spec fn snake_case_of(s: Seq<char>) -> Seq<char>;

/// Relies on `inflector::cases::snakecase::to_snake_case`: its result depends
/// on the characters of its argument alone.
#[verifier::external_body]
fn snake_case(s: &str) -> (r: String)
    ensures
        r@ == snake_case_of(s@),
{
    inflector::cases::snakecase::to_snake_case(s)
}

/// Relies on `inflector::cases::tablecase::to_table_case`: it lowercases the
/// characters of its argument with `to_ascii_lowercase`, inserts `_`, and
/// ends the last word with ASCII plural endings, so ASCII text stays ASCII.
#[verifier::external_body]
fn table_case(s: &str) -> (r: String)
    ensures
        is_ascii_chars(s@) ==> is_ascii_chars(r@),
{
    inflector::cases::tablecase::to_table_case(s)
}

/// Relies on `pluralizer::pluralize` with a count of two and no count prefix.
/// Its rule tables are shared by the whole process and can be changed there,
/// so nothing is stated of the result. It slices words by byte offsets, which
/// fall on character boundaries only for ASCII text.
#[verifier::external_body]
fn plural(s: &str) -> (r: String)
    requires
        is_ascii_chars(s@),
{
    pluralizer::pluralize(s, 2, false)
}

/// The column name of a field: the override if one is given, else the field
/// name in snake case.
pub open spec fn column_name_of(field_name: Seq<char>, rename: Option<String>) -> Seq<char> {
    match rename {
        Some(n) => n@,
        None => snake_case_of(field_name),
    }
}

/// The table name of a record type named `record_name`: the override if one
/// is given, else the plural of the name in table case (`UserDetail` becomes
/// `user_details`). A derived name needs an ASCII record name.
pub fn table_name(record_name: &String, rename: &Option<String>) -> (r: String)
    requires
        rename is Some || is_ascii_chars(record_name@),
    ensures
        rename is Some ==> r@ == rename->Some_0@,
{
    match rename {
        Some(n) => n.clone(),
        None => {
            let t = table_case(record_name.as_str());
            plural(t.as_str())
        },
    }
}

/// The column name of a field named `field_name`.
pub fn column_name(field_name: &String, rename: &Option<String>) -> (r: String)
    ensures
        r@ == column_name_of(field_name@, *rename),
{
    match rename {
        Some(n) => n.clone(),
        None => snake_case(field_name.as_str()),
    }
}

/// The suffix that a foreign-key accessor drops from its field's name.
pub open spec fn key_suffix() -> Seq<char> {
    seq!['_', 'i', 'd']
}

/// The name of the accessor generated for a foreign-key field: `get_`
/// followed by the field name without a trailing `_id`.
pub open spec fn accessor_name_of(field_name: Seq<char>) -> Seq<char> {
    let n = field_name.len();
    let stem = if n >= 3 && field_name.subrange(n - 3, n as int) == key_suffix() {
        field_name.subrange(0, n - 3)
    } else {
        field_name
    };
    seq!['g', 'e', 't', '_'] + stem
}

/// The name of the accessor generated for the foreign-key field `field_name`.
pub fn accessor_name(field_name: &String) -> (r: String)
    ensures
        r@ == accessor_name_of(field_name@),
{
    proof {
        reveal_strlit("get_");
    }
    let s = field_name.as_str();
    let n = s.unicode_len();
    let has_suffix = n >= 3 && s.get_char(n - 3) == '_' && s.get_char(n - 2) == 'i'
        && s.get_char(n - 1) == 'd';
    let stem = if has_suffix {
        s.substring_char(0, n - 3)
    } else {
        s
    };
    assert(has_suffix == (n >= 3 && s@.subrange(n - 3, n as int) == key_suffix())) by {
        if n >= 3 {
            let t = s@.subrange(n - 3, n as int);
            if t == key_suffix() {
                assert(t[0] == '_' && t[1] == 'i' && t[2] == 'd');
            }
            if s@[n - 3] == '_' && s@[n - 2] == 'i' && s@[n - 1] == 'd' {
                assert(t =~= key_suffix());
            }
        }
    }
    let mut r = String::from_str("get_");
    r.append(stem);
    assert(r@ =~= accessor_name_of(field_name@));
    r
}

} // verus!
