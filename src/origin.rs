//! Where a call comes from: a local account, the chain itself, or another
//! chain by a cross-chain message.
use vstd::prelude::*;
use crate::codec::AccountId;

verus! {

/// Identifier of a parachain.
pub type ParaId = u32;

/// The origin of a call.
#[derive(Clone, Copy, Debug)]
pub enum Origin {
    /// The chain's own privileged origin.
    Root,
    /// A local account that signed the transaction.
    Signed(AccountId),
    /// An unsigned transaction.
    Unsigned,
    /// A message from the relay chain.
    Relay,
    /// A message from a parachain at the same level as this one.
    SiblingParachain(ParaId),
}

/// The origin is not of the kind that the call demands.
#[derive(Clone, Copy, Debug, PartialEq, Eq, Structural)]
pub struct BadOrigin;

/// The account of a signed origin.
pub fn ensure_signed(origin: &Origin) -> (r: Result<AccountId, BadOrigin>)
    ensures
        match *origin {
            Origin::Signed(who) => r matches Ok(a) && a@ == who@,
            _ => r == Err::<AccountId, BadOrigin>(BadOrigin),
        },
{
    match origin {
        Origin::Signed(who) => Ok(*who),
        _ => Err(BadOrigin),
    }
}

/// The parachain that a sibling-parachain origin stands for.
pub fn ensure_sibling_para(origin: &Origin) -> (r: Result<ParaId, BadOrigin>)
    ensures
        match *origin {
            Origin::SiblingParachain(id) => r == Ok::<ParaId, BadOrigin>(id),
            _ => r == Err::<ParaId, BadOrigin>(BadOrigin),
        },
{
    match origin {
        Origin::SiblingParachain(id) => Ok(*id),
        _ => Err(BadOrigin),
    }
}

} // verus!
