//! The client side: a signed account asks for a name on the server chain. The
//! pallet builds the remote call and hands it to the message transport; the
//! transport's answer decides the outcome.
use vstd::prelude::*;
use crate::codec::{ACCOUNT_ID_LEN, AccountId, XregisterCall, encode_call, lemma_call_round_trip, parse_call};
use crate::origin::{Origin, ParaId, ensure_signed};

verus! {

/// The values that the embedding chain configures.
#[derive(Clone, Copy, Debug, PartialEq, Eq, Structural)]
pub struct Config {
    /// The server's parachain.
    pub server_para_id: ParaId,
    /// Index of the registering pallet on the server.
    pub pallet_index: u8,
    /// Index of the registering method in that pallet.
    pub method_index: u8,
    /// Upper bound on the weight the remote call may use.
    pub weight_at_most: u64,
}

/// The origin that a remote call is dispatched with on the destination.
#[derive(Clone, Copy, Debug, PartialEq, Eq, Structural)]
pub enum OriginKind {
    Native,
    SovereignAccount,
    Superuser,
    Xcm,
}

/// A sibling chain, reached through the relay chain: `parents` levels up,
/// then down into `parachain`.
#[derive(Clone, Copy, Debug, PartialEq, Eq, Structural)]
pub struct Destination {
    pub parents: u8,
    pub parachain: ParaId,
}

/// A cross-chain instruction.
#[derive(Clone, Debug)]
pub enum Xcm {
    /// Execute the encoded call `call` on the destination.
    Transact { origin_type: OriginKind, require_weight_at_most: u64, call: Vec<u8> },
}

/// A message that the transport is asked to send, with what the pallet
/// reports once it has been handed over.
#[derive(Clone, Debug)]
pub struct SendRequest {
    pub dest: Destination,
    pub message: Xcm,
    pub account: AccountId,
    pub name: Vec<u8>,
}

/// The transport refused the message.
#[derive(Clone, Copy, Debug, PartialEq, Eq, Structural)]
pub struct SendError;

/// What the client pallet reports.
#[derive(Clone, Debug)]
pub enum Event {
    /// The request to register the name for the account was handed over.
    Xregister(AccountId, Vec<u8>),
}

/// Why a registration request fails.
#[derive(Clone, Copy, Debug, PartialEq, Eq, Structural)]
pub enum Error {
    /// The caller is not a signed account.
    UnauthorizedOrigin,
    /// The transport refused the message.
    XcmSendError,
}

/// The client pallet.
#[derive(Clone, Copy, Debug)]
pub struct Pallet {
    pub config: Config,
}

/// The message that asks the server to register `name` for `account`.
pub open spec fn request_for(config: Config, account: Seq<u8>, name: Seq<u8>) -> (Destination, OriginKind, u64, Seq<u8>) {
    (
        Destination { parents: 1, parachain: config.server_para_id },
        OriginKind::Native,
        config.weight_at_most,
        encode_call(config.pallet_index, config.method_index, account, name),
    )
}

impl SendRequest {
    /// What the request carries, as `request_for` gives it.
    pub open spec fn parts(&self) -> (Destination, OriginKind, u64, Seq<u8>) {
        match self.message {
            Xcm::Transact { origin_type, require_weight_at_most, call } => (
                self.dest,
                origin_type,
                require_weight_at_most,
                call@,
            ),
        }
    }
}

impl Pallet {
    pub fn new(config: Config) -> (r: Pallet)
        ensures
            r.config == config,
    {
        Pallet { config }
    }

    /// Builds the message that asks the server chain to register `name` for
    /// the signed caller. Nothing is sent and nothing is reported yet.
    pub fn xregister(&self, origin: Origin, name: Vec<u8>) -> (r: Result<SendRequest, Error>)
        requires
            name@.len() <= u32::MAX,
        ensures
            match origin {
                Origin::Signed(who) => r matches Ok(req) && req.parts() == request_for(self.config, who@, name@)
                    && req.account@ == who@ && req.name@ == name@,
                _ => r == Err::<SendRequest, Error>(Error::UnauthorizedOrigin),
            },
    {
        let who = match ensure_signed(&origin) {
            Ok(a) => a,
            Err(_) => { return Err(Error::UnauthorizedOrigin); },
        };
        let call = XregisterCall::new(self.config.pallet_index, self.config.method_index, who, name.clone());
        let message = Xcm::Transact {
            origin_type: OriginKind::Native,
            require_weight_at_most: self.config.weight_at_most,
            call: call.encode(),
        };
        let dest = Destination { parents: 1, parachain: self.config.server_para_id };
        Ok(SendRequest { dest, message, account: who, name })
    }

    /// The outcome once the transport has answered `request`: the event when
    /// it took the message, `XcmSendError` when it refused it.
    pub fn xregister_sent(&self, request: SendRequest, sent: Result<(), SendError>) -> (r: Result<Event, Error>)
        ensures
            match sent {
                Ok(_) => r matches Ok(Event::Xregister(a, n)) && a@ == request.account@ && n@ == request.name@,
                Err(_) => r == Err::<Event, Error>(Error::XcmSendError),
            },
    {
        match sent {
            Ok(()) => Ok(Event::Xregister(request.account, request.name)),
            Err(_) => Err(Error::XcmSendError),
        }
    }
}

/// The call that a request carries reads back, on the server, as the
/// configured pallet and method with the caller's account and name.
pub proof fn lemma_request_decodes(config: Config, account: Seq<u8>, name: Seq<u8>)
    requires
        account.len() == ACCOUNT_ID_LEN,
        name.len() <= u32::MAX,
    ensures
        parse_call(request_for(config, account, name).3) == Some(
            (config.pallet_index, config.method_index, account, name),
        ),
{
    lemma_call_round_trip(config.pallet_index, config.method_index, account, name);
}

} // verus!
