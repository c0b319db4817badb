//! The ways in which an operation of the store can fail.

use vstd::prelude::*;
use vstd::string::StringExecFns;

verus! {

/// Why an operation failed.
///
/// An operation that runs in a transaction leaves the stored records as
/// they were where it fails. An operation that writes one row and then
/// fetches it has written the row where only the fetch fails.
#[derive(Debug, Clone, PartialEq, Eq)]
pub enum StoreError {
    /// The guard of the connection can no longer be acquired. Every later
    /// operation on the same state fails in the same way.
    Unavailable,
    /// A schema upgrade did not go through; the store must not be used.
    Migration { step: String, detail: String },
    /// The storage refused a statement that breaks one of its constraints,
    /// such as a memo that names a category which does not exist.
    Constraint { operation: String, detail: String },
    /// The record that the operation addressed does not exist.
    NotFound { what: String },
    /// A statement failed for another reason, or the storage answered with
    /// something other than what was asked for.
    Transaction { operation: String, detail: String },
    /// The request was refused before the storage was touched.
    Rejected { operation: String, reason: String },
}

impl StoreError {
    /// The text of `message`.
    pub open spec fn message_text(self) -> Seq<char> {
        match self {
            StoreError::Unavailable => "db mutex poisoned"@,
            StoreError::Migration { step, detail } => step@ + " error: "@ + detail@,
            StoreError::Constraint { operation, detail } => operation@ + " error: "@ + detail@,
            StoreError::NotFound { what } => what@ + " not found"@,
            StoreError::Transaction { operation, detail } => operation@ + " error: "@ + detail@,
            StoreError::Rejected { operation, reason } => operation@ + " error: "@ + reason@,
        }
    }

    /// True of the two kinds that a failed statement gives.
    pub open spec fn is_statement_failure(self) -> bool {
        self is Constraint || self is Transaction
    }

    /// Whether this is the failure of a statement that ran for `operation`:
    /// the error names the operation it belongs to, and `message` starts
    /// with that name.
    pub open spec fn is_failure_of(self, operation: Seq<char>) -> bool {
        match self {
            StoreError::Constraint { operation: o, detail } => o@ == operation,
            StoreError::Transaction { operation: o, detail } => o@ == operation,
            _ => false,
        }
    }

    /// Whether this is the refusal of a request of `operation` for `reason`.
    pub open spec fn is_rejection_of(self, operation: Seq<char>, reason: Seq<char>) -> bool {
        self matches StoreError::Rejected { operation: o, reason: r } && o@ == operation && r@
            == reason
    }

    /// Whether this is the failure of the migration step `step` with the
    /// detail `detail`.
    pub open spec fn is_migration_failure(self, step: Seq<char>, detail: Seq<char>) -> bool {
        self matches StoreError::Migration { step: s, detail: d } && s@ == step && d@ == detail
    }

    /// Whether this is the failure of the migration step `step`.
    pub open spec fn is_migration_failure_of(self, step: Seq<char>) -> bool {
        self matches StoreError::Migration { step: s, detail } && s@ == step
    }

    /// A line for the user: what was attempted, and what the storage said.
    pub fn message(&self) -> (r: String)
        ensures
            r@ == self.message_text(),
    {
        match self {
            StoreError::Unavailable => String::from_str("db mutex poisoned"),
            StoreError::Migration { step, detail } => labelled(step, detail),
            StoreError::Constraint { operation, detail } => labelled(operation, detail),
            StoreError::NotFound { what } => String::from_str(what.as_str()).concat(" not found"),
            StoreError::Transaction { operation, detail } => labelled(operation, detail),
            StoreError::Rejected { operation, reason } => labelled(operation, reason),
        }
    }

    /// The error for a statement that the storage refused while `operation`
    /// ran: a `Constraint` where `constraint` is set, else a `Transaction`.
    pub fn statement(operation: &str, constraint: bool, detail: String) -> (r: StoreError)
        ensures
            constraint ==> (r matches StoreError::Constraint { operation: o, detail: d }
                && o@ == operation@ && d == detail),
            !constraint ==> (r matches StoreError::Transaction { operation: o, detail: d }
                && o@ == operation@ && d == detail),
    {
        if constraint {
            StoreError::Constraint { operation: String::from_str(operation), detail }
        } else {
            StoreError::Transaction { operation: String::from_str(operation), detail }
        }
    }

    /// The error for a request of `operation` that is refused for `reason`.
    pub fn rejected(operation: &str, reason: &str) -> (r: StoreError)
        ensures
            r.is_rejection_of(operation@, reason@),
    {
        StoreError::Rejected {
            operation: String::from_str(operation),
            reason: String::from_str(reason),
        }
    }

    /// The error for a record of kind `what` that is not there.
    pub fn not_found(what: &str) -> (r: StoreError)
        ensures
            r matches StoreError::NotFound { what: w } && w@ == what@,
    {
        StoreError::NotFound { what: String::from_str(what) }
    }
}

fn labelled(label: &String, detail: &String) -> (r: String)
    ensures
        r@ == label@ + " error: "@ + detail@,
{
    String::from_str(label.as_str()).concat(" error: ").concat(detail.as_str())
}

} // verus!
