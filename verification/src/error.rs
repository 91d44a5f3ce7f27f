//! The closed set of failures the library reports.

use vstd::prelude::*;
use vstd::string::StringExecFns;

verus! {

/// The guarded state whose lock could not be taken.
#[derive(Debug, Clone, Copy, PartialEq, Eq, Structural)]
pub enum LockError {
    Bridge,
    NextMiningNotify,
}

/// The outbound channel whose receiving side has gone away, by what it
/// carries.
#[derive(Debug, Clone, Copy, PartialEq, Eq, Structural)]
pub enum ChannelSendError {
    SubmitSharesExtended,
    SetNewPrevHash,
    Notify,
}

/// A field that a legacy request must carry.
#[derive(Debug, Clone, Copy, PartialEq, Eq, Structural)]
pub enum RequiredField {
    VersionBits,
}

/// A failure, by kind, with the least data that explains it.
#[derive(Debug, Clone, Copy, PartialEq, Eq, Structural)]
pub enum Error {
    /// A byte string of `len` bytes where the type allows `max`.
    CodecLength { len: usize, max: usize },
    /// Text that is not hexadecimal; `position` is the offset of its first
    /// byte that is no hex digit.
    CodecHex { position: usize },
    /// A legacy request that lacks a field it must carry.
    ProtocolMissingField(RequiredField),
    /// A legacy request that names a job, or a link, that the bridge does
    /// not hold.
    ProtocolMismatch { job_id: u64 },
    /// A channel whose other side has gone away: the sending side of the
    /// channel named, or, with none named, the receiving side of a task's
    /// input.
    ChannelClosed { sender: Option<ChannelSendError> },
    /// A share that the upstream refused.
    UpstreamReject { channel_id: u32, sequence_number: u32 },
}

impl Error {
    /// What the failure is, in words.
    pub open spec fn message(self) -> Seq<char> {
        match self {
            Error::CodecLength { .. } => "byte string does not fit its declared length"@,
            Error::CodecHex { .. } => "text is not hexadecimal"@,
            Error::ProtocolMissingField(RequiredField::VersionBits) =>
                "`mining.submit` received from SV1 downstream does not contain `version_bits`"@,
            Error::ProtocolMismatch { .. } => "request names a job that is not held"@,
            Error::ChannelClosed { sender: None } => "channel receive error"@,
            Error::ChannelClosed { sender: Some(_) } => "channel send error"@,
            Error::UpstreamReject { .. } => "upstream refused the share"@,
        }
    }

    /// What the failure is, in words.
    pub fn describe(&self) -> (text: String)
        ensures
            text@ == self.message(),
    {
        match self {
            Error::CodecLength { .. } => String::from_str(
                "byte string does not fit its declared length",
            ),
            Error::CodecHex { .. } => String::from_str("text is not hexadecimal"),
            Error::ProtocolMissingField(RequiredField::VersionBits) => String::from_str(
                "`mining.submit` received from SV1 downstream does not contain `version_bits`",
            ),
            Error::ProtocolMismatch { .. } => String::from_str(
                "request names a job that is not held",
            ),
            Error::ChannelClosed { sender: None } => String::from_str("channel receive error"),
            Error::ChannelClosed { sender: Some(_) } => String::from_str("channel send error"),
            Error::UpstreamReject { .. } => String::from_str("upstream refused the share"),
        }
    }
}

} // verus!
