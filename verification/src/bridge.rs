//! The decisions of the WebSocket bridge, which pumps bytes between a
//! browser's WebSocket and the ADB server's TCP stream in both directions.
use vstd::prelude::*;

verus! {

/// The size of the buffer that ADB's bytes are read into.
pub const ADB_READ_BUFFER: usize = 1048576;

/// What the WebSocket gave when it was read.
#[derive(Clone, Copy, PartialEq, Eq, Structural)]
pub enum WsEvent {
    /// A binary message: ADB protocol bytes.
    Binary,
    /// A text, ping, pong or close message.
    OtherMessage,
    /// The stream ended or failed.
    Ended,
}

/// What to do with what the WebSocket gave.
#[derive(Clone, Copy, PartialEq, Eq, Structural)]
pub enum WsAction {
    /// Write the message's bytes to ADB and read on.
    ForwardToAdb,
    /// Read on.
    Skip,
    /// Stop reading and shut ADB's write half down.
    ShutDownAdb,
}

/// Only binary messages reach ADB; when the WebSocket ends, ADB's write half
/// is shut down.
pub fn on_ws_event(event: WsEvent) -> (action: WsAction)
    ensures
        action == (match event {
            WsEvent::Binary => WsAction::ForwardToAdb,
            WsEvent::OtherMessage => WsAction::Skip,
            WsEvent::Ended => WsAction::ShutDownAdb,
        }),
{
    match event {
        WsEvent::Binary => WsAction::ForwardToAdb,
        WsEvent::OtherMessage => WsAction::Skip,
        WsEvent::Ended => WsAction::ShutDownAdb,
    }
}

/// What to do after reading from ADB.
#[derive(Clone, Copy, PartialEq, Eq, Structural)]
pub enum AdbAction {
    /// Send the first `len` bytes of the buffer as one binary message.
    Send { len: usize },
    /// Close the WebSocket and stop.
    CloseWs,
}

/// A read of `Some(n)` bytes (`None` for a failed read): the end of the
/// stream or a failure closes the WebSocket, anything else is sent on.
pub fn on_adb_read(read: Option<usize>) -> (action: AdbAction)
    requires
        read matches Some(n) ==> n <= ADB_READ_BUFFER,
    ensures
        action == (match read {
            Some(n) => if n == 0 {
                AdbAction::CloseWs
            } else {
                AdbAction::Send { len: n }
            },
            None => AdbAction::CloseWs,
        }),
        action matches AdbAction::Send { len } ==> 0 < len <= ADB_READ_BUFFER,
{
    match read {
        Some(n) => if n == 0 {
            AdbAction::CloseWs
        } else {
            AdbAction::Send { len: n }
        },
        None => AdbAction::CloseWs,
    }
}

} // verus!
