//! The unseal gateway: a two-state machine holding the pending secret.
//!
//! The state starts `Sealed` with the key pair, and the first valid envelope
//! moves it to `Unsealed` with the recovered configuration. The transition is
//! one-directional and terminal: once `Unsealed`, every further attempt is
//! rejected and alters nothing.

use vstd::prelude::*;
use crate::base64key::{PublicKeyValue, SecretKeyValue};
use crate::codec::{decode_payload, open_payload_spec, CodecError};

verus! {

/// Errors of a transition attempt.
#[derive(Clone, Copy, Debug, PartialEq, Eq, Structural)]
pub enum UnsealError {
    /// The terminal state was already reached; nothing is altered.
    AlreadyUnsealed,
    /// The envelope was rejected by the codec; the state stays `Sealed`.
    Codec(CodecError),
}

/// The deterministic HTTP status of each gateway error: malformed payloads
/// are 400, failed decryption or a malformed plaintext is 422, and an attempt
/// after the terminal state is 409. The codes do not reveal more of the
/// failure than the error taxonomy itself.
pub open spec fn status_of(e: UnsealError) -> u16 {
    match e {
        UnsealError::AlreadyUnsealed => 409,
        UnsealError::Codec(CodecError::Decode) => 400,
        UnsealError::Codec(CodecError::Format) => 400,
        UnsealError::Codec(CodecError::Authentication) => 422,
        UnsealError::Codec(CodecError::Encoding) => 422,
    }
}

impl UnsealError {
    /// The HTTP status this error maps to.
    pub fn http_status(&self) -> (r: u16)
        ensures
            r == status_of(*self),
    {
        match self {
            UnsealError::AlreadyUnsealed => 409,
            UnsealError::Codec(CodecError::Decode) => 400,
            UnsealError::Codec(CodecError::Format) => 400,
            UnsealError::Codec(CodecError::Authentication) => 422,
            UnsealError::Codec(CodecError::Encoding) => 422,
        }
    }

    /// The short human-readable text of this error. No secret material and
    /// no detail beyond the taxonomy appears in it.
    pub fn message(&self) -> (r: &'static str)
        ensures
            *self == UnsealError::AlreadyUnsealed ==> r@ == "Service already unsealed"@,
            *self == UnsealError::Codec(CodecError::Decode) ==> r@
                == "Failed to decode base64 payload"@,
            *self == UnsealError::Codec(CodecError::Format) ==> r@
                == "Invalid encrypted payload: too short"@,
            *self == UnsealError::Codec(CodecError::Authentication) ==> r@
                == "Decryption failed"@,
            *self == UnsealError::Codec(CodecError::Encoding) ==> r@
                == "Failed to decode configuration"@,
    {
        match self {
            UnsealError::AlreadyUnsealed => "Service already unsealed",
            UnsealError::Codec(CodecError::Decode) => "Failed to decode base64 payload",
            UnsealError::Codec(CodecError::Format) => "Invalid encrypted payload: too short",
            UnsealError::Codec(CodecError::Authentication) => "Decryption failed",
            UnsealError::Codec(CodecError::Encoding) => "Failed to decode configuration",
        }
    }
}

/// The gateway's state: the key pair while sealed, or the recovered
/// configuration text once unsealed.
pub enum GatewayState {
    /// No secret recovered yet; the stored key pair will open the envelope.
    Sealed { server_private_key: SecretKeyValue, manager_public_key: PublicKeyValue },
    /// Terminal: the configuration has been recovered.
    Unsealed { recovered_config: String },
}

impl GatewayState {
    /// While sealed, the stored keys have their scheme's exact length.
    pub open spec fn wf(&self) -> bool {
        match self {
            GatewayState::Sealed { server_private_key, manager_public_key } =>
                server_private_key.wf() && manager_public_key.wf(),
            GatewayState::Unsealed { .. } => true,
        }
    }

    /// Builds the initial, sealed state from the configured key pair.
    pub fn new(server_private_key: SecretKeyValue, manager_public_key: PublicKeyValue) -> (r:
        GatewayState)
        requires
            server_private_key.wf(),
            manager_public_key.wf(),
        ensures
            r == (GatewayState::Sealed { server_private_key, manager_public_key }),
            r.wf(),
    {
        GatewayState::Sealed { server_private_key, manager_public_key }
    }

    /// Whether the terminal state has been reached.
    pub fn is_unsealed(&self) -> (r: bool)
        ensures
            r == (*self is Unsealed),
    {
        match self {
            GatewayState::Unsealed { .. } => true,
            GatewayState::Sealed { .. } => false,
        }
    }

    /// The one state transition. If already `Unsealed`, it rejects and takes
    /// no action. If `Sealed`, it opens the envelope with the stored keys:
    /// on success it moves to `Unsealed` with the recovered configuration and
    /// returns the fixed success text; on failure it stays `Sealed`, altered
    /// in nothing, and returns the codec's error.
    pub fn attempt_unseal(&mut self, payload: &str) -> (r: Result<&'static str, UnsealError>)
        requires
            old(self).wf(),
        ensures
            final(self).wf(),
            *old(self) is Unsealed ==> *final(self) == *old(self) && r == Result::<
                &'static str,
                UnsealError,
            >::Err(UnsealError::AlreadyUnsealed),
            (*old(self) matches GatewayState::Sealed { server_private_key, manager_public_key }
                ==> match open_payload_spec(
                payload@,
                server_private_key.key_bytes(),
                manager_public_key.key_bytes(),
            ) {
                Result::Ok(cfg) => (r matches Ok(m) && m@ == "Service unsealed and started."@)
                    && (*final(self) matches GatewayState::Unsealed { recovered_config }
                    && recovered_config@ == cfg),
                Result::Err(e) => *final(self) == *old(self) && r == Result::<
                    &'static str,
                    UnsealError,
                >::Err(UnsealError::Codec(e)),
            }),
    {
        match &*self {
            GatewayState::Unsealed { .. } => Err(UnsealError::AlreadyUnsealed),
            GatewayState::Sealed { server_private_key, manager_public_key } => {
                match decode_payload(payload, server_private_key, manager_public_key) {
                    Ok(config) => {
                        *self = GatewayState::Unsealed { recovered_config: config };
                        Ok("Service unsealed and started.")
                    },
                    Err(e) => Err(UnsealError::Codec(e)),
                }
            },
        }
    }

    /// Hands the recovered configuration out by value, severing the gateway:
    /// the text once unsealed, nothing while still sealed.
    pub fn take_config(self) -> (r: Option<String>)
        ensures
            match self {
                GatewayState::Unsealed { recovered_config } => r matches Some(c) && c@
                    == recovered_config@,
                GatewayState::Sealed { .. } => r is None,
            },
    {
        match self {
            GatewayState::Unsealed { recovered_config } => Some(recovered_config),
            GatewayState::Sealed { .. } => None,
        }
    }
}

/// The one-shot shutdown signal's decision state: the first `fire` reports
/// that a waiter must be released, every later one reports a no-op.
pub struct ShutdownFlag {
    fired: bool,
}

impl ShutdownFlag {
    /// Whether the signal has fired already.
    pub closed spec fn has_fired(&self) -> bool {
        self.fired
    }

    /// A fresh, unfired signal.
    pub fn new() -> (r: ShutdownFlag)
        ensures
            !r.has_fired(),
    {
        ShutdownFlag { fired: false }
    }

    /// Marks the signal fired. Returns whether this call was the first:
    /// only then is the single waiter released; firing twice is a no-op.
    pub fn fire(&mut self) -> (first: bool)
        ensures
            final(self).has_fired(),
            first == !old(self).has_fired(),
    {
        let first = !self.fired;
        self.fired = true;
        first
    }
}

/// Liveness probe text: the fixed status word followed by the build
/// identifier. Callable at any time; reads and changes nothing.
pub fn probe() -> (r: &'static str)
    ensures
        r@ == "Ok "@ + "No Version"@,
{
    proof {
        reveal_strlit("Ok No Version");
        reveal_strlit("Ok ");
        reveal_strlit("No Version");
        assert(("Ok No Version")@ =~= "Ok "@ + "No Version"@);
    }
    "Ok No Version"
}

} // verus!
