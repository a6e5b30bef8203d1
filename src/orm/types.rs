//! How the Rust types of a model map onto column types.
use vstd::prelude::*;

verus! {

/// The column type that stores values of the Rust type named `rust_type`.
pub open spec fn phantomdb_type_of(rust_type: Seq<char>) -> Seq<char> {
    if rust_type == "i32"@ {
        "INTEGER"@
    } else if rust_type == "i64"@ {
        "BIGINT"@
    } else if rust_type == "f32"@ {
        "FLOAT"@
    } else if rust_type == "f64"@ {
        "DOUBLE"@
    } else if rust_type == "bool"@ {
        "BOOLEAN"@
    } else if rust_type == "String"@ {
        "VARCHAR"@
    } else if rust_type == "chrono::NaiveDateTime"@ {
        "TIMESTAMP"@
    } else {
        "TEXT"@
    }
}

fn same_text(a: &str, b: &str) -> (r: bool)
    ensures
        r == (a@ == b@),
{
    let n = a.unicode_len();
    if n != b.unicode_len() {
        return false;
    }
    let mut i: usize = 0;
    while i < n
        invariant
            n == a@.len(),
            n == b@.len(),
            i <= n,
            forall|k: int| 0 <= k < i ==> a@[k] == b@[k],
        decreases n - i,
    {
        if a.get_char(i) != b.get_char(i) {
            return false;
        }
        i = i + 1;
    }
    assert(a@ =~= b@);
    true
}

/// Maps a Rust type name to a column type; unknown names map to `TEXT`.
pub fn rust_type_to_phantomdb_type(rust_type: &str) -> (r: &'static str)
    ensures
        r@ == phantomdb_type_of(rust_type@),
{
    if same_text(rust_type, "i32") {
        "INTEGER"
    } else if same_text(rust_type, "i64") {
        "BIGINT"
    } else if same_text(rust_type, "f32") {
        "FLOAT"
    } else if same_text(rust_type, "f64") {
        "DOUBLE"
    } else if same_text(rust_type, "bool") {
        "BOOLEAN"
    } else if same_text(rust_type, "String") {
        "VARCHAR"
    } else if same_text(rust_type, "chrono::NaiveDateTime") {
        "TIMESTAMP"
    } else {
        "TEXT"
    }
}

} // verus!
