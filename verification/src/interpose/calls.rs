//! What socket calls ask for, and what they are told.
//!
//! Each call is a machine: it takes an event and says what to do next. It starts
//! with `Event::Start`. Whatever it asks for is done around it, and what came of
//! that is the next event, until it asks to return, to fail, to hand something on
//! or to pass the call on.

use vstd::prelude::*;

use super::sink::DgramOutcome;
use crate::rhp::client::{OpenResult, RhpError};
use crate::rhpv2::client::AcceptInfo;

verus! {

/// What a call asks for.
#[derive(Debug)]
pub enum Action {
    /// The call is not for an AX.25 socket: pass it on to the system.
    PassThrough,
    /// Return this value.
    Return(i64),
    /// Return -1 with this errno.
    Fail(i32),
    /// Hand this handle on.
    Have(u64),
    /// Deliver a datagram: its payload and its sender.
    Deliver { payload: Vec<u8>, source: String },
    /// Reach the engine; answered by `Client`.
    GetClient,
    /// Open the handle of this datagram socket; answered by `Ensured`.
    EnsureDgram,
    /// Open a link; answered by `Opened`.
    OpenLink { local: String, remote: String },
    /// Allocate a handle; answered by `Handle`.
    OpenSocket { dgram: bool },
    /// Bind a callsign; answered by `Finished`.
    Bind { handle: u64, local: String },
    /// Listen on a handle; answered by `Finished`.
    Listen { handle: u64 },
    /// Send a datagram; answered by `Finished`.
    SendTo { handle: u64, remote: String, local: String, wire: Vec<u8> },
    /// Take what the application wrote to its socket without a call that is served;
    /// answered by `Written`.
    TakeWritten { handle: u64 },
    /// Send these bytes; answered by `Sent`.
    Send { handle: u64, bytes: Vec<u8> },
    /// Close a handle, whatever comes of it; answered by `Done`.
    Close { handle: u64 },
    /// Route inbound data to our end of the pair; answered by `Done`.
    RegisterRecv { handle: u64, inner_fd: i32 },
    /// Forward what arrives at our end of the pair; answered by `Done`.
    RegisterOutbound { handle: u64, inner_fd: i32 },
    /// Route inbound datagrams to the socket; answered by `Done`.
    RegisterDgram { handle: u64, app_fd: i32, inner_fd: i32 },
    /// Tell whether the socket is non-blocking; answered by `Flag`.
    AskNonblocking,
    /// Keep the socket from being writable until the link is decided; answered by
    /// `Done`.
    HoldWritable { handle: u64, app_fd: i32, inner_fd: i32 },
    /// Tell whether the link is decided; answered by `Flag`.
    PeekLink { handle: u64 },
    /// Let the socket be writable; answered by `Done`.
    LetWritable { handle: u64 },
    /// Wait until the link is decided, at most for this many nanoseconds; answered by
    /// `Linked`.
    WaitLink { handle: u64, limit: u128 },
    /// Take a call if one waits; answered by `Called`.
    TakeCall { listener: u64 },
    /// Wait for a call; answered by `Called`.
    WaitCall { listener: u64 },
    /// Make a socket pair; answered by `Made`.
    MakeSocket,
    /// Report the caller's callsign to the application; answered by `Done`.
    ReportPeer(String),
    /// Look into the inbox of a handle; answered by `Looked`.
    LookInbox { handle: u64 },
    /// Wait until the socket is readable; answered by `Done`.
    WaitReadable,
    /// Close both ends of a socket pair, and forget its handle; answered by `Done`.
    Release { open: Option<u64>, app_fd: i32, inner_fd: i32 },
}

/// The mathematical value of an `Action`.
#[verifier::ext_equal]
pub enum ActionModel {
    PassThrough,
    Return(int),
    Fail(i32),
    Have(u64),
    Deliver { payload: Seq<u8>, source: Seq<char> },
    GetClient,
    EnsureDgram,
    OpenLink { local: Seq<char>, remote: Seq<char> },
    OpenSocket { dgram: bool },
    Bind { handle: u64, local: Seq<char> },
    Listen { handle: u64 },
    SendTo { handle: u64, remote: Seq<char>, local: Seq<char>, wire: Seq<u8> },
    TakeWritten { handle: u64 },
    Send { handle: u64, bytes: Seq<u8> },
    Close { handle: u64 },
    RegisterRecv { handle: u64, inner_fd: i32 },
    RegisterOutbound { handle: u64, inner_fd: i32 },
    RegisterDgram { handle: u64, app_fd: i32, inner_fd: i32 },
    AskNonblocking,
    HoldWritable { handle: u64, app_fd: i32, inner_fd: i32 },
    PeekLink { handle: u64 },
    LetWritable { handle: u64 },
    WaitLink { handle: u64, limit: u128 },
    TakeCall { listener: u64 },
    WaitCall { listener: u64 },
    MakeSocket,
    ReportPeer(Seq<char>),
    LookInbox { handle: u64 },
    WaitReadable,
    Release { open: Option<u64>, app_fd: i32, inner_fd: i32 },
}

impl View for Action {
    type V = ActionModel;

    open spec fn view(&self) -> ActionModel {
        match *self {
            Action::PassThrough => ActionModel::PassThrough,
            Action::Return(v) => ActionModel::Return(v as int),
            Action::Fail(e) => ActionModel::Fail(e),
            Action::Have(h) => ActionModel::Have(h),
            Action::Deliver { payload, source } => ActionModel::Deliver {
                payload: payload@,
                source: source@,
            },
            Action::GetClient => ActionModel::GetClient,
            Action::EnsureDgram => ActionModel::EnsureDgram,
            Action::OpenLink { local, remote } => ActionModel::OpenLink {
                local: local@,
                remote: remote@,
            },
            Action::OpenSocket { dgram } => ActionModel::OpenSocket { dgram },
            Action::Bind { handle, local } => ActionModel::Bind { handle, local: local@ },
            Action::Listen { handle } => ActionModel::Listen { handle },
            Action::SendTo { handle, remote, local, wire } => ActionModel::SendTo {
                handle,
                remote: remote@,
                local: local@,
                wire: wire@,
            },
            Action::TakeWritten { handle } => ActionModel::TakeWritten { handle },
            Action::Send { handle, bytes } => ActionModel::Send { handle, bytes: bytes@ },
            Action::Close { handle } => ActionModel::Close { handle },
            Action::RegisterRecv { handle, inner_fd } => ActionModel::RegisterRecv {
                handle,
                inner_fd,
            },
            Action::RegisterOutbound { handle, inner_fd } => ActionModel::RegisterOutbound {
                handle,
                inner_fd,
            },
            Action::RegisterDgram { handle, app_fd, inner_fd } => ActionModel::RegisterDgram {
                handle,
                app_fd,
                inner_fd,
            },
            Action::AskNonblocking => ActionModel::AskNonblocking,
            Action::HoldWritable { handle, app_fd, inner_fd } => ActionModel::HoldWritable {
                handle,
                app_fd,
                inner_fd,
            },
            Action::PeekLink { handle } => ActionModel::PeekLink { handle },
            Action::LetWritable { handle } => ActionModel::LetWritable { handle },
            Action::WaitLink { handle, limit } => ActionModel::WaitLink { handle, limit },
            Action::TakeCall { listener } => ActionModel::TakeCall { listener },
            Action::WaitCall { listener } => ActionModel::WaitCall { listener },
            Action::MakeSocket => ActionModel::MakeSocket,
            Action::ReportPeer(c) => ActionModel::ReportPeer(c@),
            Action::LookInbox { handle } => ActionModel::LookInbox { handle },
            Action::WaitReadable => ActionModel::WaitReadable,
            Action::Release { open, app_fd, inner_fd } => ActionModel::Release {
                open,
                app_fd,
                inner_fd,
            },
        }
    }
}

/// What came of an action.
#[derive(Debug)]
pub enum Event {
    Start,
    Done,
    /// Whether the engine was reached.
    Client(bool),
    /// The handle of the datagram socket, or an errno.
    Ensured(Result<u64, i32>),
    Opened(Result<OpenResult, RhpError>),
    Handle(Result<u64, RhpError>),
    Finished(Result<(), RhpError>),
    /// What the application had written, in order.
    Written(Vec<u8>),
    /// Whether the bytes were sent, or an errno.
    Sent(Result<(), i32>),
    Flag(bool),
    /// Whether the link is up, or an errno.
    Linked(Result<(), i32>),
    Called(Option<AcceptInfo>),
    /// The application's end and our end of a socket pair.
    Made(Option<(i32, i32)>),
    Looked(DgramOutcome),
}

} // verus!
