//! The server side: a call that arrives from a sibling parachain records a
//! name for an account, replacing any earlier one.
use vstd::prelude::*;
use crate::codec::{AccountId, MalformedEnvelope, XregisterCall, parse_call};
use crate::origin::{Origin, ParaId, ensure_sibling_para};
use crate::registry::Registry;

verus! {

/// What the server pallet reports.
#[derive(Clone, Debug)]
pub enum Event {
    /// The name was recorded for the account, at the request of the parachain.
    Xregister(ParaId, AccountId, Vec<u8>),
}

/// Why a registration is refused.
#[derive(Clone, Copy, Debug, PartialEq, Eq, Structural)]
pub enum Error {
    /// The call did not come from a sibling parachain.
    OriginNotSiblingChain,
}

/// Why an encoded call could not be carried out.
#[derive(Clone, Copy, Debug, PartialEq, Eq, Structural)]
pub enum DispatchError {
    /// The bytes are not an envelope, or address another pallet or method.
    MalformedEnvelope,
    /// The registration itself was refused.
    Module(Error),
}

/// The names by account after a registration from `origin`: only a sibling
/// parachain writes, and it writes whatever stood there before.
pub open spec fn registered_after(
    names: Map<Seq<u8>, Seq<u8>>,
    origin: Origin,
    account: Seq<u8>,
    name: Seq<u8>,
) -> Map<Seq<u8>, Seq<u8>> {
    match origin {
        Origin::SiblingParachain(_) => names.insert(account, name),
        _ => names,
    }
}

/// The name that a lookup of `account` gives: the empty name where none was
/// recorded.
pub open spec fn name_of(names: Map<Seq<u8>, Seq<u8>>, account: Seq<u8>) -> Seq<u8> {
    if names.contains_key(account) { names[account] } else { Seq::empty() }
}

/// The server pallet and its record of names.
#[derive(Clone, Debug)]
pub struct Pallet {
    register: Registry,
}

impl Pallet {
    pub closed spec fn wf(&self) -> bool {
        self.register.wf()
    }

    /// The recorded names, by account.
    pub closed spec fn names(&self) -> Map<Seq<u8>, Seq<u8>> {
        self.register.view()
    }

    /// A pallet with no names recorded.
    pub fn new() -> (r: Pallet)
        ensures
            r.wf(),
            r.names() == Map::<Seq<u8>, Seq<u8>>::empty(),
    {
        Pallet { register: Registry::new() }
    }

    /// The name recorded for `account`, empty where there is none.
    pub fn register(&self, account: &AccountId) -> (r: Vec<u8>)
        requires
            self.wf(),
        ensures
            r@ == name_of(self.names(), account@),
    {
        match self.register.get(account) {
            Some(n) => n,
            None => Vec::new(),
        }
    }

    /// Records `name` for `account` when `origin` is a sibling parachain, and
    /// reports it with that parachain's id. Any other origin is refused and
    /// nothing changes.
    pub fn xregister(&mut self, origin: Origin, account: AccountId, name: Vec<u8>) -> (r: Result<Event, Error>)
        requires
            old(self).wf(),
        ensures
            final(self).wf(),
            final(self).names() == registered_after(old(self).names(), origin, account@, name@),
            match origin {
                Origin::SiblingParachain(id) => r matches Ok(Event::Xregister(p, a, n)) && p == id && a@
                    == account@ && n@ == name@,
                _ => r == Err::<Event, Error>(Error::OriginNotSiblingChain),
            },
    {
        let para_id = match ensure_sibling_para(&origin) {
            Ok(id) => id,
            Err(_) => { return Err(Error::OriginNotSiblingChain); },
        };
        self.register.insert(account, name.clone());
        Ok(Event::Xregister(para_id, account, name))
    }

    /// Carries out an encoded call: it must be an envelope addressed to
    /// `(pallet_index, method_index)`, which then registers its name for its
    /// account as `xregister` does.
    pub fn dispatch(&mut self, origin: Origin, call: &Vec<u8>, pallet_index: u8, method_index: u8) -> (r: Result<
        Event,
        DispatchError,
    >)
        requires
            old(self).wf(),
        ensures
            final(self).wf(),
            match parse_call(call@) {
                Some((p, m, a, n)) => if p == pallet_index && m == method_index {
                    &&& final(self).names() == registered_after(old(self).names(), origin, a, n)
                    &&& match origin {
                        Origin::SiblingParachain(id) => r matches Ok(Event::Xregister(q, ra, rn)) && q == id
                            && ra@ == a && rn@ == n,
                        _ => r == Err::<Event, DispatchError>(
                            DispatchError::Module(Error::OriginNotSiblingChain),
                        ),
                    }
                } else {
                    final(self).names() == old(self).names() && r == Err::<Event, DispatchError>(
                        DispatchError::MalformedEnvelope,
                    )
                },
                None => final(self).names() == old(self).names() && r == Err::<Event, DispatchError>(
                    DispatchError::MalformedEnvelope,
                ),
            },
    {
        let decoded = match XregisterCall::decode(call) {
            Ok(c) => c,
            Err(MalformedEnvelope) => { return Err(DispatchError::MalformedEnvelope); },
        };
        if decoded.call_index[0] != pallet_index || decoded.call_index[1] != method_index {
            return Err(DispatchError::MalformedEnvelope);
        }
        match self.xregister(origin, decoded.account, decoded.name) {
            Ok(e) => Ok(e),
            Err(e) => Err(DispatchError::Module(e)),
        }
    }
}

/// Registering the same name for the same account from the same origin twice
/// leaves the same record as doing it once.
pub proof fn lemma_xregister_idempotent(
    names: Map<Seq<u8>, Seq<u8>>,
    origin: Origin,
    account: Seq<u8>,
    name: Seq<u8>,
)
    ensures
        registered_after(registered_after(names, origin, account, name), origin, account, name)
            == registered_after(names, origin, account, name),
{
    match origin {
        Origin::SiblingParachain(_) => {
            assert(names.insert(account, name).insert(account, name) =~= names.insert(account, name));
        },
        _ => {},
    }
}

/// Of two registrations for one account from a sibling parachain, the later
/// name is the one recorded.
pub proof fn lemma_last_write_wins(
    names: Map<Seq<u8>, Seq<u8>>,
    origin: Origin,
    account: Seq<u8>,
    first: Seq<u8>,
    second: Seq<u8>,
)
    requires
        origin is SiblingParachain,
    ensures
        name_of(registered_after(registered_after(names, origin, account, first), origin, account, second), account)
            == second,
{
}

/// A registration from any origin but a sibling parachain leaves every
/// account's name as it was.
pub proof fn lemma_origin_gate(
    names: Map<Seq<u8>, Seq<u8>>,
    origin: Origin,
    account: Seq<u8>,
    name: Seq<u8>,
    other: Seq<u8>,
)
    requires
        !(origin is SiblingParachain),
    ensures
        name_of(registered_after(names, origin, account, name), other) == name_of(names, other),
{
}

} // verus!
