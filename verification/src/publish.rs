//! Publishing one local note: the ordered sequence of session commands that
//! replaces the note's copy on the server and removes the copies that earlier
//! conflicting edits left behind.
//!
//! The sequence is a state machine. `Publish::start` checks the note and
//! gives the first state; `Publish::command` says what the session must do
//! in a state; `Publish::advance` takes the session's reply and gives the
//! next state, the published location, or the error that ends the attempt.
//! Nothing is retried and nothing is rolled back: a failure ends the attempt
//! where it stands, and the next discovery finds what it left.

use crate::headers::{HeaderSeq, NoteHeaders};
use crate::note::{LocalNote, LocalNoteView, NoteError};
use crate::profile::{Profile, ProfileView};
use crate::session::{
    Command, CommandView, FailureKind, Reply, ReplyView, TransportError, TransportErrorView,
};
use crate::text::{decimal_text, i64_to_string};
use vstd::prelude::*;

verus! {

/// One header as a line of a message: key, colon, space, value.
pub open spec fn header_line(header: (Seq<char>, Seq<char>)) -> Seq<char> {
    header.0 + ": "@ + header.1
}

/// The header block of a message: one line per header, joined by line feeds.
pub open spec fn header_block(headers: HeaderSeq) -> Seq<char>
    decreases headers.len(),
{
    if headers.len() == 0 {
        Seq::<char>::empty()
    } else if headers.len() == 1 {
        header_line(headers[0])
    } else {
        header_block(headers.drop_last()) + "\n"@ + header_line(headers.last())
    }
}

/// A message as it goes over the wire: the header block, one blank line, and
/// the content.
pub open spec fn rendered_message(headers: HeaderSeq, content: Seq<char>) -> Seq<char> {
    header_block(headers) + "\n\n"@ + content
}

/// Renders a message for the wire from its headers and its content, which
/// the caller has rendered as HTML.
pub fn render_message(headers: &NoteHeaders, content: &str) -> (message: String)
    ensures
        message@ == rendered_message(headers.deep_view(), content@),
{
    let mut message = String::new();
    let mut i: usize = 0;
    while i < headers.len()
        invariant
            i <= headers.len(),
            message@ == header_block(headers.deep_view().take(i as int)),
        decreases headers.len() - i,
    {
        proof {
            let before = headers.deep_view().take(i as int);
            let after = headers.deep_view().take(i + 1);
            assert(after.drop_last() =~= before);
            assert(after.last() == headers.deep_view()[i as int]);
        }
        if i > 0 {
            message.append("\n");
        }
        message.append(headers[i].0.as_str());
        message.append(": ");
        message.append(headers[i].1.as_str());
        assert(message@ =~= header_block(headers.deep_view().take(i + 1)));
        i += 1;
    }
    assert(headers.deep_view().take(headers.len() as int) =~= headers.deep_view());
    message.append("\n\n");
    message.append(content);
    message
}

/// The flag change that marks a message as read and as deleted.
pub open spec fn flag_seen_deleted() -> Seq<char> {
    "+FLAGS.SILENT (\\Seen \\Deleted)"@
}

/// The flag change that marks a message as read.
pub open spec fn flag_seen() -> Seq<char> {
    "+FLAGS.SILENT (\\Seen)"@
}

/// The search for the messages whose version token is `message_id`.
pub open spec fn search_by_message_id(message_id: Seq<char>) -> Seq<char> {
    "HEADER Message-ID "@ + message_id
}

/// The search for the messages that carry the stable identity `uuid`.
pub open spec fn search_by_uuid(uuid: Seq<char>) -> Seq<char> {
    "HEADER X-Universally-Unique-Identifier "@ + uuid
}

/// Why a note was not published.
#[derive(Debug, PartialEq, Eq)]
pub enum PublishError {
    /// The note is in no state to be published; no command was issued.
    Rejected(NoteError),
    /// A command failed; the commands after it were not issued.
    Transport(TransportError),
    /// The message that was appended is not found under its version token.
    NoMatchingMessage,
    /// More than one message carries the new version token.
    AmbiguousMatch,
    /// The reply is none that the command can have.
    UnexpectedReply,
}

/// The mathematical model of a `PublishError`.
pub enum PublishErrorView {
    Rejected(NoteError),
    Transport(TransportErrorView),
    NoMatchingMessage,
    AmbiguousMatch,
    UnexpectedReply,
}

impl View for PublishError {
    type V = PublishErrorView;

    open spec fn view(&self) -> PublishErrorView {
        match self {
            PublishError::Rejected(e) => PublishErrorView::Rejected(*e),
            PublishError::Transport(e) => PublishErrorView::Transport(e@),
            PublishError::NoMatchingMessage => PublishErrorView::NoMatchingMessage,
            PublishError::AmbiguousMatch => PublishErrorView::AmbiguousMatch,
            PublishError::UnexpectedReply => PublishErrorView::UnexpectedReply,
        }
    }
}

/// Where a publishing attempt stands: the command that is due next.
#[derive(Debug, PartialEq, Eq)]
pub enum PublishStep {
    /// Make sure that the target folder exists.
    CreateFolder,
    /// Append the message to the target folder.
    Append,
    /// Select the target folder.
    Select,
    /// Flag the superseded version at `previous` as deleted.
    FlagPrevious { previous: i64 },
    /// Purge what is flagged deleted.
    Expunge,
    /// Find the appended message by its version token.
    FindPublished,
    /// Flag the appended message at `uid` as read.
    MarkSeen { uid: u32 },
    /// Find the other messages of the same note.
    FindDuplicates { uid: u32 },
    /// Flag the duplicate at `current` as deleted; those in `rest` follow.
    FlagDuplicates { uid: u32, current: u32, rest: Vec<u32> },
    /// Purge the flagged duplicates.
    ExpungeDuplicates { uid: u32 },
}

/// The mathematical model of a `PublishStep`.
pub enum PublishStepView {
    CreateFolder,
    Append,
    Select,
    FlagPrevious { previous: i64 },
    Expunge,
    FindPublished,
    MarkSeen { uid: u32 },
    FindDuplicates { uid: u32 },
    FlagDuplicates { uid: u32, current: u32, rest: Seq<u32> },
    ExpungeDuplicates { uid: u32 },
}

impl View for PublishStep {
    type V = PublishStepView;

    open spec fn view(&self) -> PublishStepView {
        match self {
            PublishStep::CreateFolder => PublishStepView::CreateFolder,
            PublishStep::Append => PublishStepView::Append,
            PublishStep::Select => PublishStepView::Select,
            PublishStep::FlagPrevious { previous } => PublishStepView::FlagPrevious {
                previous: *previous,
            },
            PublishStep::Expunge => PublishStepView::Expunge,
            PublishStep::FindPublished => PublishStepView::FindPublished,
            PublishStep::MarkSeen { uid } => PublishStepView::MarkSeen { uid: *uid },
            PublishStep::FindDuplicates { uid } => PublishStepView::FindDuplicates { uid: *uid },
            PublishStep::FlagDuplicates { uid, current, rest } => PublishStepView::FlagDuplicates {
                uid: *uid,
                current: *current,
                rest: rest@,
            },
            PublishStep::ExpungeDuplicates { uid } => PublishStepView::ExpungeDuplicates {
                uid: *uid,
            },
        }
    }
}

/// A publishing attempt in progress.
#[derive(Debug, PartialEq, Eq)]
pub struct Publish {
    pub step: PublishStep,
    /// The folder that the note is published to.
    pub mailbox: String,
    /// The message that publishes the note.
    pub content: String,
    /// Where the server holds the version that this one supersedes; absent
    /// for a note that was never published.
    pub previous: Option<i64>,
    /// The version token of the version that is published.
    pub message_id: String,
    /// The note's stable identity.
    pub uuid: String,
}

/// The mathematical model of a `Publish`.
pub struct PublishView {
    pub step: PublishStepView,
    pub mailbox: Seq<char>,
    pub content: Seq<char>,
    pub previous: Option<i64>,
    pub message_id: Seq<char>,
    pub uuid: Seq<char>,
}

impl View for Publish {
    type V = PublishView;

    open spec fn view(&self) -> PublishView {
        PublishView {
            step: self.step@,
            mailbox: self.mailbox@,
            content: self.content@,
            previous: self.previous,
            message_id: self.message_id@,
            uuid: self.uuid@,
        }
    }
}

/// How a publishing attempt goes on after a reply.
#[derive(Debug, PartialEq, Eq)]
pub enum Progress {
    /// Another command is due.
    Continue(Publish),
    /// The note is published at this location, which the caller records as
    /// the location of the published version.
    Published(u32),
    /// The attempt has ended without success.
    Aborted(PublishError),
}

/// The mathematical model of a `Progress`.
pub enum ProgressView {
    Continue(PublishView),
    Published(u32),
    Aborted(PublishErrorView),
}

impl View for Progress {
    type V = ProgressView;

    open spec fn view(&self) -> ProgressView {
        match self {
            Progress::Continue(state) => ProgressView::Continue(state@),
            Progress::Published(uid) => ProgressView::Published(*uid),
            Progress::Aborted(error) => ProgressView::Aborted(error@),
        }
    }
}

/// The predicate that holds of every location but `keep`.
pub open spec fn is_other_than(keep: u32) -> spec_fn(u32) -> bool {
    |uid: u32| uid != keep
}

/// The locations of `found` other than `keep`, in their order.
pub open spec fn stale_copies(found: Seq<u32>, keep: u32) -> Seq<u32> {
    found.filter(is_other_than(keep))
}

/// The first state of the attempt to publish `note` with the content
/// `content`, or the reason why the note cannot be published: it has no
/// version, it has several, or it was published before and its version has
/// no location.
pub open spec fn spec_start(note: LocalNoteView, profile: ProfileView, content: Seq<char>) -> Result<
    PublishView,
    PublishErrorView,
> {
    if note.body.len() == 0 {
        Err(PublishErrorView::Rejected(NoteError::Empty))
    } else if note.body.len() > 1 {
        Err(PublishErrorView::Rejected(NoteError::NeedsMerge))
    } else if !note.metadata.new && note.body[0].uid is None {
        Err(PublishErrorView::Rejected(NoteError::NotPublished))
    } else {
        Ok(
            PublishView {
                step: PublishStepView::CreateFolder,
                mailbox: note.metadata.subfolder,
                content: rendered_message(note.header_seq(profile), content),
                previous: if note.metadata.new {
                    None
                } else {
                    note.body[0].uid
                },
                message_id: note.body[0].message_id,
                uuid: note.metadata.uuid,
            },
        )
    }
}

impl PublishView {
    /// The same attempt at another step.
    pub open spec fn at(self, step: PublishStepView) -> PublishView {
        PublishView { step, ..self }
    }

    /// The command that is due in this state.
    pub open spec fn command(self) -> CommandView {
        match self.step {
            PublishStepView::CreateFolder => CommandView::Create { mailbox: self.mailbox },
            PublishStepView::Append => CommandView::Append {
                mailbox: self.mailbox,
                content: self.content,
            },
            PublishStepView::Select => CommandView::Select { mailbox: self.mailbox },
            PublishStepView::FlagPrevious { previous } => CommandView::UidStore {
                uid_set: decimal_text(previous as int),
                query: flag_seen_deleted(),
            },
            PublishStepView::Expunge => CommandView::Expunge,
            PublishStepView::FindPublished => CommandView::UidSearch {
                query: search_by_message_id(self.message_id),
            },
            PublishStepView::MarkSeen { uid } => CommandView::UidStore {
                uid_set: decimal_text(uid as int),
                query: flag_seen(),
            },
            PublishStepView::FindDuplicates { uid } => CommandView::UidSearch {
                query: search_by_uuid(self.uuid),
            },
            PublishStepView::FlagDuplicates { uid, current, rest } => CommandView::UidStore {
                uid_set: decimal_text(current as int),
                query: flag_seen_deleted(),
            },
            PublishStepView::ExpungeDuplicates { uid } => CommandView::Expunge,
        }
    }

    /// The step that flags the first of `stale`, or the final purge where
    /// nothing is stale.
    pub open spec fn flag_next(uid: u32, stale: Seq<u32>) -> PublishStepView {
        if stale.len() == 0 {
            PublishStepView::ExpungeDuplicates { uid }
        } else {
            PublishStepView::FlagDuplicates { uid, current: stale[0], rest: stale.skip(1) }
        }
    }

    /// What follows when the command of this state succeeded with `reply`.
    pub open spec fn succeed(self, reply: ReplyView) -> ProgressView {
        match self.step {
            PublishStepView::CreateFolder => ProgressView::Continue(
                self.at(PublishStepView::Append),
            ),
            PublishStepView::Append => ProgressView::Continue(self.at(PublishStepView::Select)),
            PublishStepView::Select => ProgressView::Continue(
                self.at(
                    match self.previous {
                        Some(previous) => PublishStepView::FlagPrevious { previous },
                        None => PublishStepView::Expunge,
                    },
                ),
            ),
            PublishStepView::FlagPrevious { previous } => ProgressView::Continue(
                self.at(PublishStepView::Expunge),
            ),
            PublishStepView::Expunge => ProgressView::Continue(
                self.at(PublishStepView::FindPublished),
            ),
            PublishStepView::FindPublished => match reply {
                ReplyView::Uids(found) => if found.len() == 0 {
                    ProgressView::Aborted(PublishErrorView::NoMatchingMessage)
                } else if found.len() == 1 {
                    ProgressView::Continue(self.at(PublishStepView::MarkSeen { uid: found[0] }))
                } else {
                    ProgressView::Aborted(PublishErrorView::AmbiguousMatch)
                },
                _ => ProgressView::Aborted(PublishErrorView::UnexpectedReply),
            },
            PublishStepView::MarkSeen { uid } => ProgressView::Continue(
                self.at(PublishStepView::FindDuplicates { uid }),
            ),
            PublishStepView::FindDuplicates { uid } => match reply {
                ReplyView::Uids(found) => ProgressView::Continue(
                    self.at(Self::flag_next(uid, stale_copies(found, uid))),
                ),
                _ => ProgressView::Aborted(PublishErrorView::UnexpectedReply),
            },
            PublishStepView::FlagDuplicates { uid, current, rest } => ProgressView::Continue(
                self.at(Self::flag_next(uid, rest)),
            ),
            PublishStepView::ExpungeDuplicates { uid } => ProgressView::Published(uid),
        }
    }

    /// What follows the reply `reply` to the command of this state. A failure
    /// ends the attempt with the session's error, with one exception: where
    /// the server refuses to create the folder, the folder is taken to exist.
    pub open spec fn advance(self, reply: ReplyView) -> ProgressView {
        match reply {
            ReplyView::Failed(error) => if self.step is CreateFolder && error.kind
                == FailureKind::Refused {
                ProgressView::Continue(self.at(PublishStepView::Append))
            } else {
                ProgressView::Aborted(PublishErrorView::Transport(error))
            },
            _ => self.succeed(reply),
        }
    }
}

/// Whether the folder is there after the attempt to create it that was
/// answered by `reply`: it is, unless the session is broken. A refusal is
/// taken to mean that the folder exists already.
pub open spec fn folder_is_there(reply: ReplyView) -> Result<(), TransportErrorView> {
    match reply {
        ReplyView::Failed(error) => if error.kind == FailureKind::Refused {
            Ok(())
        } else {
            Err(error)
        },
        _ => Ok(()),
    }
}

/// Says whether the folder is there after the attempt to create it that was
/// answered by `reply`.
pub fn create_mailbox_result(reply: Reply) -> (outcome: Result<(), TransportError>)
    ensures
        match outcome {
            Ok(()) => folder_is_there(reply@) == Ok::<(), TransportErrorView>(()),
            Err(e) => folder_is_there(reply@) == Err::<(), TransportErrorView>(e@),
        },
{
    match reply {
        Reply::Failed(error) => match error.kind {
            FailureKind::Refused => Ok(()),
            FailureKind::Broken => Err(error),
        },
        _ => Ok(()),
    }
}

/// The locations of `found` other than `keep`, in their order.
pub fn without_uid(found: &Vec<u32>, keep: u32) -> (stale: Vec<u32>)
    ensures
        stale@ == stale_copies(found@, keep),
{
    let mut stale: Vec<u32> = Vec::new();
    let mut i: usize = 0;
    proof {
        assert(found@.take(0) =~= Seq::<u32>::empty());
        Seq::<u32>::empty().lemma_filter_len(is_other_than(keep));
    }
    while i < found.len()
        invariant
            i <= found.len(),
            stale@ == stale_copies(found@.take(i as int), keep),
        decreases found.len() - i,
    {
        proof {
            assert(found@.take(i + 1) =~= found@.take(i as int).push(found@[i as int]));
            found@.take(i as int).lemma_filter_push(found@[i as int], is_other_than(keep));
        }
        if found[i] != keep {
            stale.push(found[i]);
        }
        i += 1;
    }
    assert(found@.take(found.len() as int) =~= found@);
    stale
}

/// The step that flags the first of `stale`, or the final purge where
/// nothing is stale.
fn flag_next(uid: u32, stale: Vec<u32>) -> (step: PublishStep)
    ensures
        step@ == PublishView::flag_next(uid, stale@),
{
    let mut rest = stale;
    if rest.len() == 0 {
        PublishStep::ExpungeDuplicates { uid }
    } else {
        let current = rest.remove(0);
        assert(rest@ =~= stale@.skip(1));
        PublishStep::FlagDuplicates { uid, current, rest }
    }
}

/// The command that changes the flags of the message at `uid`.
fn store_flags(uid: i64, flags: &str) -> (command: Command)
    ensures
        command@ == (CommandView::UidStore { uid_set: decimal_text(uid as int), query: flags@ }),
{
    Command::UidStore { uid_set: i64_to_string(uid), query: flags.to_owned() }
}

impl Publish {
    /// Begins to publish `note` under `profile`. `content` is the note's
    /// text, rendered as HTML by the caller. The note is checked before any
    /// command is issued: it must have exactly one version, and that version
    /// must have a location unless the note is new.
    pub fn start(note: &LocalNote, profile: &Profile, content: &str) -> (state: Result<
        Publish,
        PublishError,
    >)
        ensures
            match state {
                Ok(s) => spec_start(note@, profile@, content@) == Ok::<
                    PublishView,
                    PublishErrorView,
                >(s@),
                Err(e) => spec_start(note@, profile@, content@) == Err::<
                    PublishView,
                    PublishErrorView,
                >(e@),
            },
    {
        if note.body.len() == 0 {
            return Err(PublishError::Rejected(NoteError::Empty));
        }
        if note.body.len() > 1 {
            return Err(PublishError::Rejected(NoteError::NeedsMerge));
        }
        let body = &note.body[0];
        assert(body@ == note@.body[0]);
        if !note.metadata.new && body.uid.is_none() {
            return Err(PublishError::Rejected(NoteError::NotPublished));
        }
        let headers = note.to_header_vector(profile);
        Ok(
            Publish {
                step: PublishStep::CreateFolder,
                mailbox: note.metadata.subfolder.clone(),
                content: render_message(&headers, content),
                previous: if note.metadata.new {
                    None
                } else {
                    body.uid
                },
                message_id: body.message_id.clone(),
                uuid: note.metadata.uuid.clone(),
            },
        )
    }

    /// The command that the session must perform next.
    pub fn command(&self) -> (command: Command)
        ensures
            command@ == self@.command(),
    {
        match &self.step {
            PublishStep::CreateFolder => Command::Create { mailbox: self.mailbox.clone() },
            PublishStep::Append => Command::Append {
                mailbox: self.mailbox.clone(),
                content: self.content.clone(),
            },
            PublishStep::Select => Command::Select { mailbox: self.mailbox.clone() },
            PublishStep::FlagPrevious { previous } => store_flags(
                *previous,
                "+FLAGS.SILENT (\\Seen \\Deleted)",
            ),
            PublishStep::Expunge => Command::Expunge,
            PublishStep::FindPublished => {
                let mut query = "HEADER Message-ID ".to_owned();
                query.append(self.message_id.as_str());
                Command::UidSearch { query }
            },
            PublishStep::MarkSeen { uid } => store_flags(*uid as i64, "+FLAGS.SILENT (\\Seen)"),
            PublishStep::FindDuplicates { uid } => {
                let mut query = "HEADER X-Universally-Unique-Identifier ".to_owned();
                query.append(self.uuid.as_str());
                Command::UidSearch { query }
            },
            PublishStep::FlagDuplicates { uid, current, rest } => store_flags(
                *current as i64,
                "+FLAGS.SILENT (\\Seen \\Deleted)",
            ),
            PublishStep::ExpungeDuplicates { uid } => Command::Expunge,
        }
    }

    /// The same attempt at another step.
    fn at(self, step: PublishStep) -> (state: Publish)
        ensures
            state@ == self@.at(step@),
    {
        Publish {
            step,
            mailbox: self.mailbox,
            content: self.content,
            previous: self.previous,
            message_id: self.message_id,
            uuid: self.uuid,
        }
    }

    /// Takes the session's reply to the command of this state and says how
    /// the attempt goes on.
    pub fn advance(self, reply: Reply) -> (progress: Progress)
        ensures
            progress@ == self@.advance(reply@),
    {
        let reply = match reply {
            Reply::Failed(error) => {
                let tolerated = match (&self.step, error.kind) {
                    (PublishStep::CreateFolder, FailureKind::Refused) => true,
                    _ => false,
                };
                if tolerated {
                    return Progress::Continue(self.at(PublishStep::Append));
                }
                return Progress::Aborted(PublishError::Transport(error));
            },
            other => other,
        };
        match self.step {
            PublishStep::CreateFolder => Progress::Continue(self.at(PublishStep::Append)),
            PublishStep::Append => Progress::Continue(self.at(PublishStep::Select)),
            PublishStep::Select => {
                let next = match self.previous {
                    Some(previous) => PublishStep::FlagPrevious { previous },
                    None => PublishStep::Expunge,
                };
                Progress::Continue(self.at(next))
            },
            PublishStep::FlagPrevious { previous } => Progress::Continue(
                self.at(PublishStep::Expunge),
            ),
            PublishStep::Expunge => Progress::Continue(self.at(PublishStep::FindPublished)),
            PublishStep::FindPublished => match reply {
                Reply::Uids(found) => {
                    if found.len() == 0 {
                        Progress::Aborted(PublishError::NoMatchingMessage)
                    } else if found.len() == 1 {
                        let uid = found[0];
                        Progress::Continue(self.at(PublishStep::MarkSeen { uid }))
                    } else {
                        Progress::Aborted(PublishError::AmbiguousMatch)
                    }
                },
                _ => Progress::Aborted(PublishError::UnexpectedReply),
            },
            PublishStep::MarkSeen { uid } => Progress::Continue(
                self.at(PublishStep::FindDuplicates { uid }),
            ),
            PublishStep::FindDuplicates { uid } => match reply {
                Reply::Uids(found) => {
                    let stale = without_uid(&found, uid);
                    Progress::Continue(self.at(flag_next(uid, stale)))
                },
                _ => Progress::Aborted(PublishError::UnexpectedReply),
            },
            PublishStep::FlagDuplicates { uid, current, rest } => {
                let next = flag_next(uid, rest);
                Progress::Continue(
                    Publish {
                        step: next,
                        mailbox: self.mailbox,
                        content: self.content,
                        previous: self.previous,
                        message_id: self.message_id,
                        uuid: self.uuid,
                    },
                )
            },
            PublishStep::ExpungeDuplicates { uid } => Progress::Published(uid),
        }
    }
}

impl PublishStepView {
    /// The place of the step in the sequence.
    pub open spec fn position(self) -> nat {
        match self {
            PublishStepView::CreateFolder => 0,
            PublishStepView::Append => 1,
            PublishStepView::Select => 2,
            PublishStepView::FlagPrevious { previous } => 3,
            PublishStepView::Expunge => 4,
            PublishStepView::FindPublished => 5,
            PublishStepView::MarkSeen { uid } => 6,
            PublishStepView::FindDuplicates { uid } => 7,
            PublishStepView::FlagDuplicates { uid, current, rest } => 8,
            PublishStepView::ExpungeDuplicates { uid } => 9,
        }
    }

    /// The location at which the appended message was found, once it was.
    pub open spec fn found(self) -> Option<u32> {
        match self {
            PublishStepView::MarkSeen { uid } => Some(uid),
            PublishStepView::FindDuplicates { uid } => Some(uid),
            PublishStepView::FlagDuplicates { uid, current, rest } => Some(uid),
            PublishStepView::ExpungeDuplicates { uid } => Some(uid),
            _ => None,
        }
    }

    /// The duplicates that are still to be flagged as deleted.
    pub open spec fn to_flag(self) -> Seq<u32> {
        match self {
            PublishStepView::FlagDuplicates { uid, current, rest } => seq![current] + rest,
            _ => Seq::<u32>::empty(),
        }
    }

    /// Whether the published message is safe from the cleanup: it is not
    /// among the duplicates that are still to be flagged as deleted.
    pub open spec fn spares_published(self) -> bool {
        forall|i: int|
            0 <= i < self.to_flag().len() ==> Some(#[trigger] self.to_flag()[i]) != self.found()
    }
}

/// Fail-fast: a failed command ends the attempt with the session's own
/// error, and no further command is due. The one failure that is tolerated
/// is the server's refusal to create the folder.
pub proof fn lemma_failure_ends_attempt(state: PublishView, error: TransportErrorView)
    requires
        !(state.step is CreateFolder && error.kind == FailureKind::Refused),
    ensures
        state.advance(ReplyView::Failed(error)) == ProgressView::Aborted(
            PublishErrorView::Transport(error),
        ),
{
}

/// The steps are taken in their order: each reply leads to a later step, and
/// only the flagging of duplicates repeats, once for each duplicate. What the
/// attempt publishes, and where, never changes on the way.
pub proof fn lemma_steps_in_order(state: PublishView, reply: ReplyView)
    ensures
        state.advance(reply) matches ProgressView::Continue(next) ==> {
            &&& next == state.at(next.step)
            &&& next.step.position() > state.step.position() || (state.step is FlagDuplicates
                && next.step is FlagDuplicates && next.step.to_flag().len()
                < state.step.to_flag().len())
        },
{
}

/// The location that is reported as published is the one at which the
/// appended message was found: the single match of the search by version
/// token, carried unchanged through the steps that follow.
pub proof fn lemma_published_is_found(state: PublishView, reply: ReplyView)
    ensures
        state.advance(reply) matches ProgressView::Published(uid) ==> state.step.found() == Some(
            uid,
        ),
        state.advance(reply) matches ProgressView::Continue(next) ==> {
            &&& state.step.found() is Some ==> next.step.found() == state.step.found()
            &&& state.step is FindPublished ==> reply == ReplyView::Uids(
                seq![next.step.found()->0],
            )
            &&& next.step.found() is Some ==> state.step.found() is Some || state.step
                is FindPublished
        },
{
    if state.step is FindPublished {
        if let ReplyView::Uids(found) = reply {
            if found.len() == 1 {
                assert(found =~= seq![found[0]]);
            }
        }
    }
}

/// The cleanup never flags the published message: the duplicates that are
/// flagged are the matches of the search by identity other than the
/// published location, each once and in the order of the reply.
pub proof fn lemma_cleanup_spares_published(state: PublishView, reply: ReplyView)
    requires
        state.step.spares_published(),
    ensures
        state.advance(reply) matches ProgressView::Continue(next) ==> {
            &&& next.step.spares_published()
            &&& (state.step matches PublishStepView::FindDuplicates { uid } ==> reply
                matches ReplyView::Uids(found) && next.step.to_flag() == stale_copies(found, uid))
            &&& state.step is FlagDuplicates ==> next.step.to_flag() == state.step.to_flag().skip(
                1,
            )
        },
{
    if let ProgressView::Continue(next) = state.advance(reply) {
        match state.step {
            PublishStepView::FindDuplicates { uid } => {
                if let ReplyView::Uids(found) = reply {
                    let stale = stale_copies(found, uid);
                    assert(next.step.to_flag() =~= stale);
                    assert forall|i: int| 0 <= i < stale.len() implies stale[i] != uid by {
                        found.lemma_filter_pred(is_other_than(uid), i);
                    }
                }
            },
            PublishStepView::FlagDuplicates { uid, current, rest } => {
                assert(next.step.to_flag() =~= state.step.to_flag().skip(1));
                assert forall|i: int| 0 <= i < next.step.to_flag().len() implies Some(
                    #[trigger] next.step.to_flag()[i],
                ) != next.step.found() by {
                    assert(next.step.to_flag()[i] == state.step.to_flag()[i + 1]);
                }
            },
            _ => {},
        }
    }
}

/// How an attempt that stands at `state` ends when the session answers its
/// commands with `replies` in turn: where the replies run out, it stands at
/// the state that it has reached.
pub open spec fn outcome(state: PublishView, replies: Seq<ReplyView>) -> ProgressView
    decreases replies.len(),
{
    if replies.len() == 0 {
        ProgressView::Continue(state)
    } else {
        match state.advance(replies[0]) {
            ProgressView::Continue(next) => outcome(next, replies.skip(1)),
            done => done,
        }
    }
}

/// The commands that an attempt issues from `state` on when the session
/// answers them with `replies` in turn.
pub open spec fn issued(state: PublishView, replies: Seq<ReplyView>) -> Seq<CommandView>
    decreases replies.len(),
{
    if replies.len() == 0 {
        Seq::<CommandView>::empty()
    } else {
        seq![state.command()] + match state.advance(replies[0]) {
            ProgressView::Continue(next) => issued(next, replies.skip(1)),
            _ => Seq::<CommandView>::empty(),
        }
    }
}

/// Whether none of the replies is a failure.
pub open spec fn all_succeed(replies: Seq<ReplyView>) -> bool {
    forall|i: int| 0 <= i < replies.len() ==> !((#[trigger] replies[i]) is Failed)
}

/// The cleanup runs to its end: once the duplicates are known, one reply
/// for each of them and one for the final purge complete the attempt, and
/// the location that was found is what it returns.
pub proof fn lemma_cleanup_completes(state: PublishView, replies: Seq<ReplyView>)
    requires
        state.step is FlagDuplicates || state.step is ExpungeDuplicates,
        replies.len() == state.step.to_flag().len() + 1,
        all_succeed(replies),
    ensures
        outcome(state, replies) == ProgressView::Published(state.step.found()->0),
    decreases replies.len(),
{
    let rest = replies.skip(1);
    assert(!(replies[0] is Failed));
    match state.step {
        PublishStepView::FlagDuplicates { uid, current, rest: stale } => {
            let next = state.at(PublishView::flag_next(uid, stale));
            assert(state.advance(replies[0]) == ProgressView::Continue(next));
            assert(next.step.to_flag() =~= stale);
            assert forall|i: int| 0 <= i < rest.len() implies !((#[trigger] rest[i]) is Failed) by {
                assert(rest[i] == replies[i + 1]);
            }
            lemma_cleanup_completes(next, rest);
        },
        _ => {
            assert(rest.len() == 0);
            assert(state.advance(replies[0]) == ProgressView::Published(state.step.found()->0));
        },
    }
}

/// An attempt whose commands all succeed publishes the note. With the
/// appended message found at `uid` alone, and the copies of the note found
/// at `copies`, the attempt ends after the replies to its commands: eight
/// of them, one more for a note that was published before, and one for each
/// copy other than the appended message. It returns `uid`.
pub proof fn lemma_publish_completes(
    state: PublishView,
    replies: Seq<ReplyView>,
    uid: u32,
    copies: Seq<u32>,
)
    requires
        state.step is CreateFolder,
        all_succeed(replies),
        replies.len() == 8 + (if state.previous is Some {
            1int
        } else {
            0int
        }) + stale_copies(copies, uid).len(),
        replies[if state.previous is Some {
            5int
        } else {
            4int
        }] == ReplyView::Uids(seq![uid]),
        replies[if state.previous is Some {
            7int
        } else {
            6int
        }] == ReplyView::Uids(copies),
    ensures
        outcome(state, replies) == ProgressView::Published(uid),
{
    let shift: int = if state.previous is Some {
        1
    } else {
        0
    };
    let s1 = state.at(PublishStepView::Append);
    let s2 = state.at(PublishStepView::Select);
    let s4 = state.at(PublishStepView::Expunge);
    let s5 = state.at(PublishStepView::FindPublished);
    let s6 = state.at(PublishStepView::MarkSeen { uid });
    let s7 = state.at(PublishStepView::FindDuplicates { uid });
    let s8 = state.at(PublishView::flag_next(uid, stale_copies(copies, uid)));
    assert(!(replies[0] is Failed));
    assert(!(replies[1] is Failed));
    assert(!(replies[2] is Failed));
    assert(!(replies[3] is Failed));
    assert(!(replies[4] is Failed));
    assert(!(replies[5] is Failed));
    assert(!(replies[6] is Failed));
    assert(!(replies[7] is Failed));
    lemma_outcome_step(state, replies, s1);
    lemma_outcome_step(s1, replies.skip(1), s2);
    assert(replies.skip(1).skip(1) =~= replies.skip(2));
    if state.previous is Some {
        let s3 = state.at(PublishStepView::FlagPrevious { previous: state.previous->0 });
        lemma_outcome_step(s2, replies.skip(2), s3);
        assert(replies.skip(2).skip(1) =~= replies.skip(3));
        lemma_outcome_step(s3, replies.skip(3), s4);
        assert(replies.skip(3).skip(1) =~= replies.skip(4));
    } else {
        lemma_outcome_step(s2, replies.skip(2), s4);
        assert(replies.skip(2).skip(1) =~= replies.skip(3));
    }
    let r4 = replies.skip(3 + shift);
    lemma_outcome_step(s4, r4, s5);
    let r5 = replies.skip(4 + shift);
    assert(r4.skip(1) =~= r5);
    assert(r5[0] == replies[4 + shift]);
    lemma_outcome_step(s5, r5, s6);
    let r6 = replies.skip(5 + shift);
    assert(r5.skip(1) =~= r6);
    assert(r6[0] == replies[5 + shift]);
    lemma_outcome_step(s6, r6, s7);
    let r7 = replies.skip(6 + shift);
    assert(r6.skip(1) =~= r7);
    assert(r7[0] == replies[6 + shift]);
    lemma_outcome_step(s7, r7, s8);
    let r8 = replies.skip(7 + shift);
    assert(r7.skip(1) =~= r8);
    assert(s8.step.to_flag() =~= stale_copies(copies, uid));
    assert forall|i: int| 0 <= i < r8.len() implies !((#[trigger] r8[i]) is Failed) by {
        assert(r8[i] == replies[i + 7 + shift]);
    }
    lemma_cleanup_completes(s8, r8);
}

/// One reply that leads on takes the attempt one state further.
pub proof fn lemma_outcome_step(state: PublishView, replies: Seq<ReplyView>, next: PublishView)
    requires
        replies.len() > 0,
        state.advance(replies[0]) == ProgressView::Continue(next),
    ensures
        outcome(state, replies) == outcome(next, replies.skip(1)),
        issued(state, replies) == seq![state.command()] + issued(next, replies.skip(1)),
{
}

/// Publishing a note that was published before, with no copy left behind:
/// the attempt creates the folder, appends the message, selects the folder,
/// flags the superseded version as deleted, purges, finds the appended
/// message by its version token, flags it as read, looks for copies by the
/// note's identity, and purges again, in this order and nothing else.
pub proof fn lemma_commands_of_republication(
    state: PublishView,
    replies: Seq<ReplyView>,
    uid: u32,
)
    requires
        state.step is CreateFolder,
        state.previous is Some,
        all_succeed(replies),
        replies.len() == 9,
        replies[5] == ReplyView::Uids(seq![uid]),
        replies[7] == ReplyView::Uids(seq![uid]),
    ensures
        outcome(state, replies) == ProgressView::Published(uid),
        issued(state, replies) == seq![
            CommandView::Create { mailbox: state.mailbox },
            CommandView::Append { mailbox: state.mailbox, content: state.content },
            CommandView::Select { mailbox: state.mailbox },
            CommandView::UidStore {
                uid_set: decimal_text(state.previous->0 as int),
                query: flag_seen_deleted(),
            },
            CommandView::Expunge,
            CommandView::UidSearch { query: search_by_message_id(state.message_id) },
            CommandView::UidStore { uid_set: decimal_text(uid as int), query: flag_seen() },
            CommandView::UidSearch { query: search_by_uuid(state.uuid) },
            CommandView::Expunge,
        ],
{
    let copies = seq![uid];
    assert(stale_copies(copies, uid) =~= Seq::<u32>::empty()) by {
        assert(copies =~= Seq::<u32>::empty().push(uid));
        Seq::<u32>::empty().lemma_filter_push(uid, is_other_than(uid));
        Seq::<u32>::empty().lemma_filter_len(is_other_than(uid));
    }
    lemma_publish_completes(state, replies, uid, copies);
    let s1 = state.at(PublishStepView::Append);
    let s2 = state.at(PublishStepView::Select);
    let s3 = state.at(PublishStepView::FlagPrevious { previous: state.previous->0 });
    let s4 = state.at(PublishStepView::Expunge);
    let s5 = state.at(PublishStepView::FindPublished);
    let s6 = state.at(PublishStepView::MarkSeen { uid });
    let s7 = state.at(PublishStepView::FindDuplicates { uid });
    let s8 = state.at(PublishStepView::ExpungeDuplicates { uid });
    assert(!(replies[0] is Failed));
    assert(!(replies[1] is Failed));
    assert(!(replies[2] is Failed));
    assert(!(replies[3] is Failed));
    assert(!(replies[4] is Failed));
    assert(!(replies[6] is Failed));
    assert(!(replies[8] is Failed));
    lemma_outcome_step(state, replies, s1);
    lemma_outcome_step(s1, replies.skip(1), s2);
    assert(replies.skip(1).skip(1) =~= replies.skip(2));
    lemma_outcome_step(s2, replies.skip(2), s3);
    assert(replies.skip(2).skip(1) =~= replies.skip(3));
    lemma_outcome_step(s3, replies.skip(3), s4);
    assert(replies.skip(3).skip(1) =~= replies.skip(4));
    lemma_outcome_step(s4, replies.skip(4), s5);
    assert(replies.skip(4).skip(1) =~= replies.skip(5));
    lemma_outcome_step(s5, replies.skip(5), s6);
    assert(replies.skip(5).skip(1) =~= replies.skip(6));
    lemma_outcome_step(s6, replies.skip(6), s7);
    assert(replies.skip(6).skip(1) =~= replies.skip(7));
    lemma_outcome_step(s7, replies.skip(7), s8);
    assert(replies.skip(7).skip(1) =~= replies.skip(8));
    let last = replies.skip(8);
    assert(last[0] == replies[8]);
    assert(s8.advance(last[0]) == ProgressView::Published(uid));
    assert(issued(s8, last) =~= seq![s8.command()]);
    assert(issued(state, replies) =~= seq![
        state.command(),
        s1.command(),
        s2.command(),
        s3.command(),
        s4.command(),
        s5.command(),
        s6.command(),
        s7.command(),
        s8.command(),
    ]);
}

} // verus!
