//! IPC protocol versioning: the frontend and the backend negotiate a
//! protocol version, and a mismatch is reported with both versions.

use vstd::prelude::*;

verus! {

/// The protocol version this backend speaks.
pub const IPC_PROTOCOL_VERSION: u32 = 1;

/// Outcome of a protocol negotiation.
#[derive(Debug, Clone, Copy, PartialEq, Eq, Structural)]
pub enum IpcNegotiation {
    Compatible,
    Mismatch { frontend: u32, backend: u32 },
}

pub struct IpcVersion;

impl IpcVersion {
    /// Negotiates the protocol version announced by the frontend.
    pub fn negotiate(frontend_version: u32) -> (r: IpcNegotiation)
        ensures
            frontend_version == IPC_PROTOCOL_VERSION ==> r == IpcNegotiation::Compatible,
            frontend_version != IPC_PROTOCOL_VERSION ==> r == (IpcNegotiation::Mismatch {
                frontend: frontend_version,
                backend: IPC_PROTOCOL_VERSION,
            }),
    {
        if frontend_version == IPC_PROTOCOL_VERSION {
            IpcNegotiation::Compatible
        } else {
            IpcNegotiation::Mismatch { frontend: frontend_version, backend: IPC_PROTOCOL_VERSION }
        }
    }
}

} // verus!
