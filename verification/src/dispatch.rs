//! Origins and dispatch results shared by the pallets.

use vstd::prelude::*;

verus! {

/// Identifies an account on chain.
pub type AccountId = u64;

/// The number of a block.
pub type BlockNumber = u32;

/// The origin of a call: the root, a signed account, or an unsigned transaction.
#[derive(Clone, Copy, Debug, PartialEq, Eq, Structural)]
pub enum Origin {
    Root,
    Signed(AccountId),
    Unsigned,
}

/// Why a dispatched call failed: a bad origin, corrupted state, or an error of the pallet.
#[derive(Debug, PartialEq, Eq, Structural)]
pub enum DispatchError<E> {
    BadOrigin,
    Corruption,
    Module(E),
}

/// The account that signed `origin`, if any.
pub open spec fn signer_of(origin: Origin) -> Option<AccountId> {
    match origin {
        Origin::Signed(who) => Some(who),
        _ => None,
    }
}

/// The signing account of `origin`; a call from any other origin fails with `BadOrigin`.
pub fn ensure_signed<E>(origin: Origin) -> (r: Result<AccountId, DispatchError<E>>)
    ensures
        match signer_of(origin) {
            Some(who) => r == Ok::<AccountId, DispatchError<E>>(who),
            None => r == Err::<AccountId, DispatchError<E>>(DispatchError::BadOrigin),
        },
{
    match origin {
        Origin::Signed(who) => Ok(who),
        _ => Err(DispatchError::BadOrigin),
    }
}

} // verus!
