//! What the library asks of a mail session and what it gets back. The
//! library decides; the caller holds the session, performs each command on
//! it in turn and hands back the reply.

use vstd::prelude::*;

verus! {

/// One request to the mail session. Each names one operation of the session
/// and carries its arguments as they go over the wire.
#[derive(Debug, PartialEq, Eq)]
pub enum Command {
    /// List the folders whose name matches `pattern`.
    List { pattern: String },
    /// Create the folder `mailbox`.
    Create { mailbox: String },
    /// Add `content` as a new message to `mailbox`.
    Append { mailbox: String, content: String },
    /// Make `mailbox` the folder that later commands act on.
    Select { mailbox: String },
    /// Fetch `query` of the messages `sequence_set` of the selected folder.
    Fetch { sequence_set: String, query: String },
    /// Fetch `query` of the messages at the locations `uid_set`.
    UidFetch { uid_set: String, query: String },
    /// Change the flags of the messages at the locations `uid_set`.
    UidStore { uid_set: String, query: String },
    /// Purge every message of the selected folder that is flagged deleted.
    Expunge,
    /// Search the selected folder and report the locations that match.
    UidSearch { query: String },
}

/// The mathematical model of a `Command`.
pub enum CommandView {
    List { pattern: Seq<char> },
    Create { mailbox: Seq<char> },
    Append { mailbox: Seq<char>, content: Seq<char> },
    Select { mailbox: Seq<char> },
    Fetch { sequence_set: Seq<char>, query: Seq<char> },
    UidFetch { uid_set: Seq<char>, query: Seq<char> },
    UidStore { uid_set: Seq<char>, query: Seq<char> },
    Expunge,
    UidSearch { query: Seq<char> },
}

impl View for Command {
    type V = CommandView;

    open spec fn view(&self) -> CommandView {
        match self {
            Command::List { pattern } => CommandView::List { pattern: pattern@ },
            Command::Create { mailbox } => CommandView::Create { mailbox: mailbox@ },
            Command::Append { mailbox, content } => CommandView::Append {
                mailbox: mailbox@,
                content: content@,
            },
            Command::Select { mailbox } => CommandView::Select { mailbox: mailbox@ },
            Command::Fetch { sequence_set, query } => CommandView::Fetch {
                sequence_set: sequence_set@,
                query: query@,
            },
            Command::UidFetch { uid_set, query } => CommandView::UidFetch {
                uid_set: uid_set@,
                query: query@,
            },
            Command::UidStore { uid_set, query } => CommandView::UidStore {
                uid_set: uid_set@,
                query: query@,
            },
            Command::Expunge => CommandView::Expunge,
            Command::UidSearch { query } => CommandView::UidSearch { query: query@ },
        }
    }
}

/// How a command failed.
#[derive(Clone, Copy, Debug, PartialEq, Eq, Structural)]
pub enum FailureKind {
    /// The server understood the command and refused it.
    Refused,
    /// Anything else: the connection broke, or the exchange went wrong.
    Broken,
}

/// A failure of the mail session, as the session reported it.
#[derive(Debug, PartialEq, Eq)]
pub struct TransportError {
    pub kind: FailureKind,
    /// The session's own words.
    pub detail: String,
}

/// The mathematical model of a `TransportError`.
pub struct TransportErrorView {
    pub kind: FailureKind,
    pub detail: Seq<char>,
}

impl View for TransportError {
    type V = TransportErrorView;

    open spec fn view(&self) -> TransportErrorView {
        TransportErrorView { kind: self.kind, detail: self.detail@ }
    }
}

impl Clone for TransportError {
    fn clone(&self) -> (copy: Self)
        ensures
            copy@ == self@,
    {
        TransportError { kind: self.kind, detail: self.detail.clone() }
    }
}

/// One message as a fetch returned it: the parts that were asked for and
/// came back.
#[derive(Debug, PartialEq, Eq)]
pub struct FetchedMessage {
    /// The raw header block.
    pub header: Option<Vec<u8>>,
    /// The raw message, headers and content.
    pub body: Option<Vec<u8>>,
    /// The message's location in its folder.
    pub uid: Option<u32>,
}

/// The mathematical model of a `FetchedMessage`.
pub struct FetchedMessageView {
    pub header: Option<Seq<u8>>,
    pub body: Option<Seq<u8>>,
    pub uid: Option<u32>,
}

impl View for FetchedMessage {
    type V = FetchedMessageView;

    open spec fn view(&self) -> FetchedMessageView {
        FetchedMessageView {
            header: match self.header {
                Some(bytes) => Some(bytes@),
                None => None,
            },
            body: match self.body {
                Some(bytes) => Some(bytes@),
                None => None,
            },
            uid: self.uid,
        }
    }
}

/// What the session answered to a command.
#[derive(Debug, PartialEq, Eq)]
pub enum Reply {
    /// The command succeeded; what it returned, if anything, is not needed.
    Done,
    /// The locations that a search matched or that an expunge purged.
    Uids(Vec<u32>),
    /// The names of the folders that a listing found.
    Names(Vec<String>),
    /// The messages that a fetch returned.
    Messages(Vec<FetchedMessage>),
    /// The command failed.
    Failed(TransportError),
}

/// The mathematical model of a `Reply`.
pub enum ReplyView {
    Done,
    Uids(Seq<u32>),
    Names(Seq<Seq<char>>),
    Messages(Seq<FetchedMessageView>),
    Failed(TransportErrorView),
}

impl View for Reply {
    type V = ReplyView;

    open spec fn view(&self) -> ReplyView {
        match self {
            Reply::Done => ReplyView::Done,
            Reply::Uids(uids) => ReplyView::Uids(uids@),
            Reply::Names(names) => ReplyView::Names(names.deep_view()),
            Reply::Messages(messages) => ReplyView::Messages(
                messages@.map_values(|m: FetchedMessage| m@),
            ),
            Reply::Failed(error) => ReplyView::Failed(error@),
        }
    }
}

} // verus!
