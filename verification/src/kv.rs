use vstd::prelude::*;

verus! {

/// Identifies a command within the client that issued it.
pub type CommandId = usize;

/// Identifies a client of the store.
pub type ClientId = u64;

/// Identifies a server of the cluster.
pub type NodeId = u64;

/// Milliseconds since the Unix epoch.
pub type Timestamp = i64;

/// An operation on the key-value store.
#[derive(Debug)]
pub enum KVCommand {
    Put(String, String),
    Delete(String),
    Get(String),
    Cas(String, Option<String>, String),
}

/// A command as it is ordered by consensus: who asked, which server
/// coordinated it, and the operation.
#[derive(Debug)]
pub struct Command {
    pub client_id: ClientId,
    pub coordinator_id: NodeId,
    pub id: CommandId,
    pub kv_cmd: KVCommand,
}

/// A message from a server to a client.
#[derive(Debug)]
pub enum ServerMessage {
    Write(CommandId),
    Read(CommandId, Option<String>),
    CasOk(CommandId),
    CasFailed(CommandId, Option<String>),
    Error(CommandId, String),
    StartSignal(Timestamp),
}

/// The abstract form of a server message.
pub enum MessageView {
    Write(CommandId),
    Read(CommandId, Option<Seq<char>>),
    CasOk(CommandId),
    CasFailed(CommandId, Option<Seq<char>>),
    Error(CommandId, Seq<char>),
    StartSignal(Timestamp),
}

impl View for ServerMessage {
    type V = MessageView;

    open spec fn view(&self) -> MessageView {
        match self {
            ServerMessage::Write(id) => MessageView::Write(*id),
            ServerMessage::Read(id, v) => MessageView::Read(*id, opt_view(*v)),
            ServerMessage::CasOk(id) => MessageView::CasOk(*id),
            ServerMessage::CasFailed(id, v) => MessageView::CasFailed(*id, opt_view(*v)),
            ServerMessage::Error(id, m) => MessageView::Error(*id, m@),
            ServerMessage::StartSignal(t) => MessageView::StartSignal(*t),
        }
    }
}

/// The abstract contents of an optional string.
pub open spec fn opt_view(o: Option<String>) -> Option<Seq<char>> {
    match o {
        Some(s) => Some(s@),
        None => None,
    }
}

/// A copy of an optional string.
pub fn clone_opt(o: &Option<String>) -> (r: Option<String>)
    ensures
        opt_view(r) == opt_view(*o),
{
    match o {
        Some(s) => Some(s.clone()),
        None => None,
    }
}

} // verus!
