use vstd::prelude::*;
use vstd::string::*;
use crate::retry::Attempt;

verus! {

/// Which part of the remote archive holds a record's document.
#[derive(Clone, Copy, Debug, PartialEq, Eq, Structural)]
pub enum Archive {
    /// Periodic transaction reports.
    Transactions,
    /// Standard annual disclosures.
    Annual,
}

/// The filing-type tag of periodic transaction reports.
pub open spec fn is_transaction_tag(t: Seq<char>) -> bool {
    t == seq!['P']
}

/// The archive a filing type is fetched from: `P` filings from the
/// transaction archive, all others from the annual one.
pub fn archive_for(filing_type: &str) -> (r: Archive)
    ensures
        (r == Archive::Transactions) == is_transaction_tag(filing_type@),
{
    if filing_type.unicode_len() == 1 && filing_type.get_char(0) == 'P' {
        assert(filing_type@ =~= seq!['P']);
        Archive::Transactions
    } else {
        Archive::Annual
    }
}

pub const STATUS_FORBIDDEN: u16 = 403;

pub const STATUS_NOT_FOUND: u16 = 404;

pub const STATUS_TOO_MANY_REQUESTS: u16 = 429;

/// How an HTTP status answers one fetch attempt.
pub open spec fn status_class(status: u16) -> Attempt {
    if 200 <= status < 300 {
        Attempt::Fetched
    } else if status == STATUS_NOT_FOUND {
        Attempt::Missing
    } else if status == STATUS_FORBIDDEN || status == STATUS_TOO_MANY_REQUESTS {
        Attempt::Blocked
    } else {
        Attempt::Transient
    }
}

/// Classifies the HTTP status of one fetch attempt: any 2xx status delivers
/// the document (which the caller must still store; a failed write counts as
/// `Transient`), 404 says it does not exist, 403 and 429 say access is
/// denied or throttled, and every other status is a transient failure.
pub fn classify_status(status: u16) -> (r: Attempt)
    ensures
        r == status_class(status),
{
    if 200 <= status && status < 300 {
        Attempt::Fetched
    } else if status == STATUS_NOT_FOUND {
        Attempt::Missing
    } else if status == STATUS_FORBIDDEN || status == STATUS_TOO_MANY_REQUESTS {
        Attempt::Blocked
    } else {
        Attempt::Transient
    }
}

} // verus!
