//! The key-value engine, as the library sees it: the commands that it is
//! given, the replies that it gives, and what an engine that works does.
//!
//! The library never touches the engine. An operation hands out a command;
//! the caller runs it on the engine and hands the reply to the function that
//! finishes the operation.

use vstd::prelude::*;

verus! {

/// What the engine is asked to do.
#[derive(Clone, Debug, PartialEq, Eq)]
pub enum EngineCommand {
    /// Keep `value` under `key`, in place of what the key held.
    Put { key: String, value: Vec<u8> },
    /// Tell what `key` holds.
    Get { key: String },
    /// Drop what `key` holds, if anything.
    Delete { key: String },
}

/// An `EngineCommand`, as mathematical values.
#[verifier::ext_equal]
pub enum CommandView {
    Put { key: Seq<char>, value: Seq<u8> },
    Get { key: Seq<char> },
    Delete { key: Seq<char> },
}

impl View for EngineCommand {
    type V = CommandView;

    open spec fn view(&self) -> CommandView {
        match self {
            EngineCommand::Put { key, value } => CommandView::Put { key: key@, value: value@ },
            EngineCommand::Get { key } => CommandView::Get { key: key@ },
            EngineCommand::Delete { key } => CommandView::Delete { key: key@ },
        }
    }
}

/// What the engine answered.
#[derive(Clone, Debug, PartialEq, Eq)]
pub enum EngineReply {
    /// The write or the removal was done.
    Done,
    /// The key holds these bytes.
    Found(Vec<u8>),
    /// The key holds nothing.
    Missing,
    /// The engine could not be opened, read or written.
    Failed,
}

/// An `EngineReply`, as mathematical values.
#[verifier::ext_equal]
pub enum ReplyView {
    Done,
    Found(Seq<u8>),
    Missing,
    Failed,
}

impl View for EngineReply {
    type V = ReplyView;

    open spec fn view(&self) -> ReplyView {
        match self {
            EngineReply::Done => ReplyView::Done,
            EngineReply::Found(value) => ReplyView::Found(value@),
            EngineReply::Missing => ReplyView::Missing,
            EngineReply::Failed => ReplyView::Failed,
        }
    }
}

/// What an engine holds: for each key that holds something, its bytes.
pub type Contents = Map<Seq<char>, Seq<u8>>;

/// What an engine that works holds after `command`.
pub open spec fn contents_after(contents: Contents, command: CommandView) -> Contents {
    match command {
        CommandView::Put { key, value } => contents.insert(key, value),
        CommandView::Get { key } => contents,
        CommandView::Delete { key } => contents.remove(key),
    }
}

/// What an engine that works answers to `command`.
pub open spec fn reply_to(contents: Contents, command: CommandView) -> ReplyView {
    match command {
        CommandView::Put { key, value } => ReplyView::Done,
        CommandView::Get { key } => if contents.dom().contains(key) {
            ReplyView::Found(contents[key])
        } else {
            ReplyView::Missing
        },
        CommandView::Delete { key } => ReplyView::Done,
    }
}

} // verus!
