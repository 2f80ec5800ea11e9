//! Connectors to the outside: dormant until somebody switches one on.

use vstd::prelude::*;
use vstd::string::*;

use crate::error::{refusal, AppError, Refusal};
use crate::text::joined3;

verus! {

/// The connector of a name, where the host knows one.
pub fn parse_kind<K>(kind: &str, known: Option<K>) -> (r: Result<K, AppError>)
    ensures
        match known {
            Some(k) => r == Ok::<K, AppError>(k),
            None => refusal(r) == Some(Refusal::Validation("unknown connector '"@ + kind@ + "'"@)),
        },
{
    match known {
        Some(k) => Ok(k),
        None => Err(AppError::Validation(joined3("unknown connector '", kind, "'"))),
    }
}

pub struct SetEnabled {
    pub enabled: bool,
}

} // verus!
