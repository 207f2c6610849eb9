use vstd::prelude::*;

verus! {

/// The ways in which an operation of a fixed-frame transport can fail.
#[derive(Debug, Clone, Copy, PartialEq, Eq, Structural)]
pub enum TcpCommError {
    /// The outgoing message does not fit in one frame, or could not be encoded.
    SerializeError,
    /// The bytes of a received frame do not decode into a message.
    DeserializeError,
    /// Writing a frame to the stream failed.
    SendError,
    /// A blocking read from the stream failed.
    RecvError,
    /// A non-blocking receive found no whole frame available yet.
    TryRecvEmptyError,
    /// A non-blocking receive found the stream closed or broken.
    TryRecvDisconnectedError,
}

/// The human-readable text of each error kind.
pub open spec fn error_text(e: TcpCommError) -> Seq<char> {
    match e {
        TcpCommError::SerializeError => "Serialize Error"@,
        TcpCommError::DeserializeError => "Deserialize Error"@,
        TcpCommError::SendError => "Send Error"@,
        TcpCommError::RecvError => "Recv Error"@,
        TcpCommError::TryRecvEmptyError => "TryRecv Error (empty)"@,
        TcpCommError::TryRecvDisconnectedError => "TryRecv Error (disconnected)"@,
    }
}

impl TcpCommError {
    /// The human-readable text of this error.
    pub fn message(&self) -> (r: &'static str)
        ensures
            r@ == error_text(*self),
    {
        match self {
            TcpCommError::SerializeError => "Serialize Error",
            TcpCommError::DeserializeError => "Deserialize Error",
            TcpCommError::SendError => "Send Error",
            TcpCommError::RecvError => "Recv Error",
            TcpCommError::TryRecvEmptyError => "TryRecv Error (empty)",
            TcpCommError::TryRecvDisconnectedError => "TryRecv Error (disconnected)",
        }
    }
}

} // verus!
