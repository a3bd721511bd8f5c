//! Names of the fields that every record carries, and the test that tells
//! them apart from names that callers may use.

use vstd::prelude::*;
use crate::text::str_eq;

verus! {

pub const MESSAGE: &'static str = "message";
pub const HOSTNAME: &'static str = "hostname";
pub const PID: &'static str = "pid";
pub const LEVEL: &'static str = "level";
pub const TARGET: &'static str = "target";
pub const LINE: &'static str = "line";
pub const FILE: &'static str = "file";
pub const FN: &'static str = "fn";
pub const FULL_NAME: &'static str = "full_name";
pub const TIME: &'static str = "time";
pub const ELAPSED_MILLISECONDS: &'static str = "elapsed_milliseconds";

/// A key is reserved when it names one of the ten implicit fields.
pub open spec fn is_reserved(key: Seq<char>) -> bool {
    ||| key == MESSAGE@
    ||| key == HOSTNAME@
    ||| key == PID@
    ||| key == LEVEL@
    ||| key == TARGET@
    ||| key == LINE@
    ||| key == FILE@
    ||| key == FN@
    ||| key == FULL_NAME@
    ||| key == TIME@
}

/// Tells whether `key` names an implicit field.
pub fn is_reserved_key(key: &str) -> (reserved: bool)
    ensures
        reserved == is_reserved(key@),
{
    str_eq(key, MESSAGE) || str_eq(key, HOSTNAME) || str_eq(key, PID) || str_eq(key, LEVEL)
        || str_eq(key, TARGET) || str_eq(key, LINE) || str_eq(key, FILE) || str_eq(key, FN)
        || str_eq(key, FULL_NAME) || str_eq(key, TIME)
}

/// The key under which a scope's duration is stored is not reserved, so it
/// can be recorded like any other attribute.
pub proof fn lemma_elapsed_key_not_reserved()
    ensures
        !is_reserved(ELAPSED_MILLISECONDS@),
{
    reveal_strlit("message");
    reveal_strlit("hostname");
    reveal_strlit("pid");
    reveal_strlit("level");
    reveal_strlit("target");
    reveal_strlit("line");
    reveal_strlit("file");
    reveal_strlit("fn");
    reveal_strlit("full_name");
    reveal_strlit("time");
    reveal_strlit("elapsed_milliseconds");
    assert(ELAPSED_MILLISECONDS@.len() == 20);
    assert(MESSAGE@.len() == 7);
    assert(HOSTNAME@.len() == 8);
    assert(PID@.len() == 3);
    assert(LEVEL@.len() == 5);
    assert(TARGET@.len() == 6);
    assert(LINE@.len() == 4);
    assert(FILE@.len() == 4);
    assert(FN@.len() == 2);
    assert(FULL_NAME@.len() == 9);
    assert(TIME@.len() == 4);
}

} // verus!
