//! Store errors, their codes, and how database failures map to them.
use crate::text::{owned, text_eq};
use vstd::prelude::*;

verus! {

#[derive(Debug, Clone, Copy, PartialEq, Eq, Structural)]
pub enum StoreSerializationErrorKind {
    InvalidStoryState,
    InvalidTurnResult,
    InvalidEventPayload,
    InvalidWorldState,
    InvalidRoleState,
    InvalidMemory,
}

#[derive(Debug, Clone)]
pub enum StoreError {
    NotFound,
    RevisionConflict,
    IdempotencyConflict,
    ConstraintViolation { constraint: String },
    LimitExceeded { limit: &'static str },
    Serialization { kind: StoreSerializationErrorKind },
    Unavailable,
}

/// How an observed operation ended.
#[derive(Debug, Clone, Copy, PartialEq, Eq, Structural)]
pub enum ObservationStatus {
    Succeeded,
    Error,
    Cancelled,
    DeadlineExceeded,
    Conflict,
}

pub open spec fn store_error_code_spec(e: StoreError) -> Seq<char> {
    match e {
        StoreError::NotFound => "story_not_found"@,
        StoreError::RevisionConflict => "revision_conflict"@,
        StoreError::IdempotencyConflict => "idempotency_conflict"@,
        StoreError::ConstraintViolation { .. } => "constraint_violation"@,
        StoreError::LimitExceeded { .. } => "store_limit_exceeded"@,
        StoreError::Serialization { .. } => "store_serialization_error"@,
        StoreError::Unavailable => "store_unavailable"@,
    }
}

/// The code a store error is reported under.
pub fn store_error_code(error: &StoreError) -> (r: &'static str)
    ensures
        r@ == store_error_code_spec(*error),
{
    match error {
        StoreError::NotFound => "story_not_found",
        StoreError::RevisionConflict => "revision_conflict",
        StoreError::IdempotencyConflict => "idempotency_conflict",
        StoreError::ConstraintViolation { .. } => "constraint_violation",
        StoreError::LimitExceeded { .. } => "store_limit_exceeded",
        StoreError::Serialization { .. } => "store_serialization_error",
        StoreError::Unavailable => "store_unavailable",
    }
}

/// Conflicts are reported as such; every other store error as an error.
pub fn store_status(error: &StoreError) -> (r: ObservationStatus)
    ensures
        r == (if error is RevisionConflict || error is IdempotencyConflict {
            ObservationStatus::Conflict
        } else {
            ObservationStatus::Error
        }),
{
    match error {
        StoreError::RevisionConflict | StoreError::IdempotencyConflict => ObservationStatus::Conflict,
        _ => ObservationStatus::Error,
    }
}

/// The SQLite result codes (primary and extended) that mean a constraint
/// was violated.
pub open spec fn constraint_codes() -> Seq<Seq<char>> {
    seq!["19"@, "787"@, "2067"@, "1555"@, "1299"@, "1811"@, "262"@, "257"@, "275"@, "531"@]
}

pub fn is_constraint_code(code: &str) -> (r: bool)
    ensures
        r == constraint_codes().contains(code@),
{
    let codes = ["19", "787", "2067", "1555", "1299", "1811", "262", "257", "275", "531"];
    let ghost cs = constraint_codes();
    let mut i: usize = 0;
    while i < 10
        invariant
            i <= 10,
            cs == constraint_codes(),
            forall|j: int| 0 <= j < 10 ==> (#[trigger] codes@[j])@ == cs[j],
            forall|j: int| 0 <= j < i ==> cs[j] != code@,
        decreases 10 - i,
    {
        if text_eq(codes[i], code) {
            assert(cs[i as int] == code@);
            return true;
        }
        i = i + 1;
    }
    proof {
        if cs.contains(code@) {
            let k = choose|k: int| 0 <= k < cs.len() && cs[k] == code@;
        }
    }
    false
}

/// How a failure of the SQLite store shows: a database error (with the
/// code the database gave, if any), a migration, JSON or I/O failure.
#[derive(Debug, Clone)]
pub enum SqliteFailure {
    Database { code: Option<String> },
    OtherDatabase,
    Migration,
    Json,
    Io,
}

/// A database error with a constraint code is a constraint violation (the
/// code is kept); JSON failures are serialization errors of the story
/// state; everything else leaves the store unavailable.
pub fn store_error_from(failure: &SqliteFailure) -> (r: StoreError)
    ensures
        match failure {
            SqliteFailure::Database { code: Some(c) } => if constraint_codes().contains(c@) {
                r matches StoreError::ConstraintViolation { constraint } && constraint@ == c@
            } else {
                r is Unavailable
            },
            SqliteFailure::Json => r == (StoreError::Serialization {
                kind: StoreSerializationErrorKind::InvalidStoryState,
            }),
            _ => r is Unavailable,
        },
{
    match failure {
        SqliteFailure::Database { code: Some(c) } => {
            if is_constraint_code(c.as_str()) {
                StoreError::ConstraintViolation { constraint: owned(c.as_str()) }
            } else {
                StoreError::Unavailable
            }
        },
        SqliteFailure::Json => StoreError::Serialization { kind: StoreSerializationErrorKind::InvalidStoryState },
        _ => StoreError::Unavailable,
    }
}

/// A stored turn that cannot be read back.
pub fn invalid_turn() -> (r: StoreError)
    ensures
        r == (StoreError::Serialization { kind: StoreSerializationErrorKind::InvalidTurnResult }),
{
    StoreError::Serialization { kind: StoreSerializationErrorKind::InvalidTurnResult }
}

/// Stored activation state that cannot be read back.
pub fn invalid_activation_state() -> (r: StoreError)
    ensures
        r == (StoreError::Serialization { kind: StoreSerializationErrorKind::InvalidWorldState }),
{
    StoreError::Serialization { kind: StoreSerializationErrorKind::InvalidWorldState }
}


/// Which kind of store error a value is.
pub open spec fn store_error_variant(e: StoreError) -> int {
    match e {
        StoreError::NotFound => 0,
        StoreError::RevisionConflict => 1,
        StoreError::IdempotencyConflict => 2,
        StoreError::ConstraintViolation { .. } => 3,
        StoreError::LimitExceeded { .. } => 4,
        StoreError::Serialization { .. } => 5,
        StoreError::Unavailable => 6,
    }
}

/// Law: each kind of store error is reported under its own code: the codes
/// are these, and errors of different kinds never share one.
pub proof fn law_store_error_codes_are_distinct(a: StoreError, b: StoreError)
    ensures
        a is NotFound ==> store_error_code_spec(a) == "story_not_found"@,
        a is RevisionConflict ==> store_error_code_spec(a) == "revision_conflict"@,
        a is IdempotencyConflict ==> store_error_code_spec(a) == "idempotency_conflict"@,
        a is ConstraintViolation ==> store_error_code_spec(a) == "constraint_violation"@,
        a is LimitExceeded ==> store_error_code_spec(a) == "store_limit_exceeded"@,
        a is Serialization ==> store_error_code_spec(a) == "store_serialization_error"@,
        a is Unavailable ==> store_error_code_spec(a) == "store_unavailable"@,
        store_error_variant(a) != store_error_variant(b) ==> store_error_code_spec(a) != store_error_code_spec(b),
{
    reveal_strlit("story_not_found");
    reveal_strlit("revision_conflict");
    reveal_strlit("idempotency_conflict");
    reveal_strlit("constraint_violation");
    reveal_strlit("store_limit_exceeded");
    reveal_strlit("store_serialization_error");
    reveal_strlit("store_unavailable");
    if store_error_variant(a) != store_error_variant(b) && store_error_code_spec(a) == store_error_code_spec(b) {
        assert(store_error_code_spec(a).len() == store_error_code_spec(b).len());
        assert(store_error_code_spec(a)[0] == store_error_code_spec(b)[0]);
        assert(store_error_code_spec(a)[1] == store_error_code_spec(b)[1]);
    }
}

} // verus!
