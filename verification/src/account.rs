//! Player accounts.
use vstd::prelude::*;

verus! {

/// A player account.
#[derive(Debug)]
pub struct Account {
    pub id: u64,
    pub name: String,
    pub password: String,
}

} // verus!
