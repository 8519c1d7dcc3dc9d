//! Discovery: finding the note folders on the server and reading the headers
//! of every message in them, as the records that the merge analysis works
//! on. A folder that cannot be selected or fetched counts as empty; a
//! message that cannot be read is a violation of that message alone.

use crate::headers::{HeaderSeq, NoteHeaders};
use crate::note::{RemoteNoteMetaData, RemoteNoteMetaDataView};
use crate::session::{
    Command, CommandView, FetchedMessage, FetchedMessageView, Reply, ReplyView, TransportError,
    TransportErrorView,
};
use crate::text::{decimal_text, i64_to_string};
use vstd::prelude::*;

verus! {

/// The error of the mail parser, which is carried and never looked into.
#[verifier::external_type_specification]
#[verifier::external_body]
pub struct ExMailParseError(mailparse::MailParseError);

/// The headers that the mail parser reads from the raw header block `raw`,
/// each as its key and its decoded value, or nothing where the parser
/// rejects the block.
pub uninterp spec fn parsed_headers(raw: Seq<u8>) -> Option<HeaderSeq>;

/// The text that the mail parser reads as the content of the raw message
/// `raw`, or nothing where the parser rejects the message or its content.
pub uninterp spec fn decoded_body(raw: Seq<u8>) -> Option<Seq<char>>;

/// Parses a raw header block into its headers.
///
/// Trusted: wraps `mailparse::parse_headers`, and hands each header out by
/// `MailHeader::get_key` and `MailHeader::get_value`. What the parser reads
/// is a function of the bytes alone and is given a name; the contract says
/// no more than that the result is the named one.
#[verifier::external_body]
fn parse_header_block(raw: &[u8]) -> (headers: Result<NoteHeaders, mailparse::MailParseError>)
    ensures
        match headers {
            Ok(h) => parsed_headers(raw@) == Some(h.deep_view()),
            Err(_) => parsed_headers(raw@) is None,
        },
{
    match mailparse::parse_headers(raw) {
        Ok((headers, _)) => Ok(headers.iter().map(|h| (h.get_key(), h.get_value())).collect()),
        Err(e) => Err(e),
    }
}

/// Parses a raw message and decodes its content as text.
///
/// Trusted: wraps `mailparse::parse_mail` and `ParsedMail::get_body`, which
/// undoes the transfer encoding and the character set of the content. What
/// comes out is a function of the bytes alone and is given a name; the
/// contract says no more than that the result is the named one.
#[verifier::external_body]
fn decode_mail_body(raw: &[u8]) -> (text: Result<String, mailparse::MailParseError>)
    ensures
        match text {
            Ok(t) => decoded_body(raw@) == Some(t@),
            Err(_) => decoded_body(raw@) is None,
        },
{
    match mailparse::parse_mail(raw) {
        Ok(mail) => mail.get_body(),
        Err(e) => Err(e),
    }
}

/// Why a fetched message gives no record.
#[derive(Clone, Copy, Debug, PartialEq, Eq, Structural)]
pub enum RecordError {
    /// The message came back without its header block.
    MissingHeaderBlock,
    /// The header block cannot be parsed.
    MalformedHeaders,
    /// The message came back without its location.
    MissingUid,
}

/// The record of a message with the headers `headers`, found in `folder` at
/// the location `uid`.
pub open spec fn record_of_parts(headers: HeaderSeq, folder: Seq<char>, uid: Option<u32>) -> Result<
    RemoteNoteMetaDataView,
    RecordError,
> {
    match uid {
        None => Err(RecordError::MissingUid),
        Some(uid) => Ok(RemoteNoteMetaDataView { headers, folder, uid: uid as i64 }),
    }
}

/// The record of the fetched message `message`, found in `folder`.
pub open spec fn record_of_message(message: FetchedMessageView, folder: Seq<char>) -> Result<
    RemoteNoteMetaDataView,
    RecordError,
> {
    match message.header {
        None => Err(RecordError::MissingHeaderBlock),
        Some(raw) => match parsed_headers(raw) {
            None => Err(RecordError::MalformedHeaders),
            Some(headers) => record_of_parts(headers, folder, message.uid),
        },
    }
}

/// Whether a record was made as the model says: the same record, or the
/// same error.
pub open spec fn is_record_result(
    result: Result<RemoteNoteMetaData, RecordError>,
    expected: Result<RemoteNoteMetaDataView, RecordError>,
) -> bool {
    match result {
        Ok(record) => expected == Ok::<RemoteNoteMetaDataView, RecordError>(record@),
        Err(e) => expected == Err::<RemoteNoteMetaDataView, RecordError>(e),
    }
}

/// The model of a record that may have failed.
pub open spec fn record_result_view(result: Result<RemoteNoteMetaData, RecordError>) -> Result<
    RemoteNoteMetaDataView,
    RecordError,
> {
    match result {
        Ok(record) => Ok(record@),
        Err(e) => Err(e),
    }
}

/// Makes the record of a message from its parsed headers, the folder that
/// it was found in, and its location.
pub fn get_record(headers: NoteHeaders, foldername: String, uid: Option<u32>) -> (record: Result<
    RemoteNoteMetaData,
    RecordError,
>)
    ensures
        is_record_result(record, record_of_parts(headers.deep_view(), foldername@, uid)),
{
    match uid {
        None => Err(RecordError::MissingUid),
        Some(uid) => Ok(RemoteNoteMetaData { headers, folder: foldername, uid: uid as i64 }),
    }
}

/// Makes the record of a fetched message that was found in `foldername`.
pub fn get_headers(fetch: &FetchedMessage, foldername: String) -> (record: Result<
    RemoteNoteMetaData,
    RecordError,
>)
    ensures
        is_record_result(record, record_of_message(fetch@, foldername@)),
{
    match &fetch.header {
        None => Err(RecordError::MissingHeaderBlock),
        Some(raw) => match parse_header_block(raw.as_slice()) {
            Err(_) => Err(RecordError::MalformedHeaders),
            Ok(headers) => get_record(headers, foldername, fetch.uid),
        },
    }
}

/// Why the content of a note could not be read.
#[derive(Debug, PartialEq, Eq)]
pub enum ContentError {
    /// The fetch failed.
    Transport(TransportError),
    /// The fetch returned no message.
    NoMessage,
    /// The message came back without its content, or its content cannot be
    /// decoded.
    NoBody,
    /// The reply is none that a fetch can have.
    UnexpectedReply,
}

/// The mathematical model of a `ContentError`.
pub enum ContentErrorView {
    Transport(TransportErrorView),
    NoMessage,
    NoBody,
    UnexpectedReply,
}

impl View for ContentError {
    type V = ContentErrorView;

    open spec fn view(&self) -> ContentErrorView {
        match self {
            ContentError::Transport(e) => ContentErrorView::Transport(e@),
            ContentError::NoMessage => ContentErrorView::NoMessage,
            ContentError::NoBody => ContentErrorView::NoBody,
            ContentError::UnexpectedReply => ContentErrorView::UnexpectedReply,
        }
    }
}

/// The text of the message `message`.
pub open spec fn body_of_message(message: FetchedMessageView) -> Option<Seq<char>> {
    match message.body {
        None => None,
        Some(raw) => decoded_body(raw),
    }
}

/// The content of a note, from the reply to the fetch of its message: the
/// text of the first message that came back.
pub open spec fn spec_note_content(reply: ReplyView) -> Result<Seq<char>, ContentErrorView> {
    match reply {
        ReplyView::Failed(e) => Err(ContentErrorView::Transport(e)),
        ReplyView::Messages(messages) => if messages.len() == 0 {
            Err(ContentErrorView::NoMessage)
        } else {
            match body_of_message(messages[0]) {
                Some(text) => Ok(text),
                None => Err(ContentErrorView::NoBody),
            }
        },
        _ => Err(ContentErrorView::UnexpectedReply),
    }
}

/// The text of a fetched message.
pub fn get_body(fetch: &FetchedMessage) -> (text: Option<String>)
    ensures
        text.deep_view() == body_of_message(fetch@),
{
    match &fetch.body {
        None => None,
        Some(raw) => match decode_mail_body(raw.as_slice()) {
            Ok(text) => Some(text),
            Err(_) => None,
        },
    }
}

/// The content of a note, from the reply to the fetch of its message.
pub fn note_content(reply: Reply) -> (content: Result<String, ContentError>)
    ensures
        match content {
            Ok(text) => spec_note_content(reply@) == Ok::<Seq<char>, ContentErrorView>(text@),
            Err(e) => spec_note_content(reply@) == Err::<Seq<char>, ContentErrorView>(e@),
        },
{
    match reply {
        Reply::Failed(e) => Err(ContentError::Transport(e)),
        Reply::Messages(messages) => {
            if messages.len() == 0 {
                Err(ContentError::NoMessage)
            } else {
                assert(messages[0]@ == reply@->Messages_0[0]);
                match get_body(&messages[0]) {
                    Some(text) => Ok(text),
                    None => Err(ContentError::NoBody),
                }
            }
        },
        _ => Err(ContentError::UnexpectedReply),
    }
}

/// The fetch of everything of a message.
pub open spec fn query_whole_message() -> Seq<char> {
    "(RFC822 UID)"@
}

/// Fetching the content of one note: select its folder, then fetch the
/// message at its location.
#[derive(Debug, PartialEq, Eq)]
pub struct ContentFetch {
    /// Whether the folder was selected, so that the fetch is due.
    pub selected: bool,
    pub mailbox: String,
    pub uid: i64,
}

/// The mathematical model of a `ContentFetch`.
pub struct ContentFetchView {
    pub selected: bool,
    pub mailbox: Seq<char>,
    pub uid: i64,
}

impl View for ContentFetch {
    type V = ContentFetchView;

    open spec fn view(&self) -> ContentFetchView {
        ContentFetchView { selected: self.selected, mailbox: self.mailbox@, uid: self.uid }
    }
}

/// How the fetch of a note's content goes on after a reply.
#[derive(Debug, PartialEq, Eq)]
pub enum ContentProgress {
    /// Another command is due.
    Continue(ContentFetch),
    /// The note's content.
    Fetched(String),
    /// The fetch has ended without success.
    Aborted(ContentError),
}

/// The mathematical model of a `ContentProgress`.
pub enum ContentProgressView {
    Continue(ContentFetchView),
    Fetched(Seq<char>),
    Aborted(ContentErrorView),
}

impl View for ContentProgress {
    type V = ContentProgressView;

    open spec fn view(&self) -> ContentProgressView {
        match self {
            ContentProgress::Continue(state) => ContentProgressView::Continue(state@),
            ContentProgress::Fetched(text) => ContentProgressView::Fetched(text@),
            ContentProgress::Aborted(e) => ContentProgressView::Aborted(e@),
        }
    }
}

impl ContentFetchView {
    /// The command that is due in this state.
    pub open spec fn command(self) -> CommandView {
        if self.selected {
            CommandView::UidFetch {
                uid_set: decimal_text(self.uid as int),
                query: query_whole_message(),
            }
        } else {
            CommandView::Select { mailbox: self.mailbox }
        }
    }

    /// What follows the reply `reply` to the command of this state. The
    /// message is fetched only from the folder that was selected for it: a
    /// failed selection ends the fetch.
    pub open spec fn advance(self, reply: ReplyView) -> ContentProgressView {
        if self.selected {
            match spec_note_content(reply) {
                Ok(text) => ContentProgressView::Fetched(text),
                Err(e) => ContentProgressView::Aborted(e),
            }
        } else {
            match reply {
                ReplyView::Failed(e) => ContentProgressView::Aborted(
                    ContentErrorView::Transport(e),
                ),
                _ => ContentProgressView::Continue(ContentFetchView { selected: true, ..self }),
            }
        }
    }
}

impl ContentFetch {
    /// Begins to fetch the content of the note at `uid` in `subfolder`.
    pub fn start(subfolder: &str, uid: i64) -> (state: ContentFetch)
        ensures
            state@ == (ContentFetchView { selected: false, mailbox: subfolder@, uid }),
    {
        ContentFetch { selected: false, mailbox: subfolder.to_owned(), uid }
    }

    /// The command that the session must perform next.
    pub fn command(&self) -> (command: Command)
        ensures
            command@ == self@.command(),
    {
        if self.selected {
            Command::UidFetch { uid_set: i64_to_string(self.uid), query: "(RFC822 UID)".to_owned() }
        } else {
            Command::Select { mailbox: self.mailbox.clone() }
        }
    }

    /// Takes the session's reply to the command of this state and says how
    /// the fetch goes on.
    pub fn advance(self, reply: Reply) -> (progress: ContentProgress)
        ensures
            progress@ == self@.advance(reply@),
    {
        if self.selected {
            match note_content(reply) {
                Ok(text) => ContentProgress::Fetched(text),
                Err(e) => ContentProgress::Aborted(e),
            }
        } else {
            match reply {
                Reply::Failed(e) => ContentProgress::Aborted(ContentError::Transport(e)),
                _ => ContentProgress::Continue(
                    ContentFetch { selected: true, mailbox: self.mailbox, uid: self.uid },
                ),
            }
        }
    }
}

/// What discovery found in one folder.
#[derive(Debug)]
pub struct FolderScan {
    pub folder: String,
    /// Whether the folder could be selected.
    pub selected: bool,
    /// One entry for each message that was fetched, in their order: its
    /// record, or why it gives none. Empty where the folder could not be
    /// selected or fetched.
    pub messages: Vec<Result<RemoteNoteMetaData, RecordError>>,
}

/// The mathematical model of a `FolderScan`.
pub struct FolderScanView {
    pub folder: Seq<char>,
    pub selected: bool,
    pub messages: Seq<Result<RemoteNoteMetaDataView, RecordError>>,
}

impl View for FolderScan {
    type V = FolderScanView;

    open spec fn view(&self) -> FolderScanView {
        FolderScanView {
            folder: self.folder@,
            selected: self.selected,
            messages: self.messages@.map_values(
                |r: Result<RemoteNoteMetaData, RecordError>| record_result_view(r),
            ),
        }
    }
}

/// The models of the scans, in their order.
pub open spec fn scans_view(scans: Seq<FolderScan>) -> Seq<FolderScanView> {
    scans.map_values(|s: FolderScan| s@)
}

/// The entries of a scan for the messages `messages`, fetched in `folder`.
pub open spec fn records_of_messages(messages: Seq<FetchedMessageView>, folder: Seq<char>) -> Seq<
    Result<RemoteNoteMetaDataView, RecordError>,
> {
    messages.map_values(|m: FetchedMessageView| record_of_message(m, folder))
}

/// Makes the entries of a scan from the messages that were fetched in
/// `folder`.
pub fn read_messages(messages: &Vec<FetchedMessage>, folder: &String) -> (entries: Vec<
    Result<RemoteNoteMetaData, RecordError>,
>)
    ensures
        entries@.map_values(|r: Result<RemoteNoteMetaData, RecordError>| record_result_view(r))
            == records_of_messages(messages@.map_values(|m: FetchedMessage| m@), folder@),
{
    let mut entries: Vec<Result<RemoteNoteMetaData, RecordError>> = Vec::new();
    let mut i: usize = 0;
    while i < messages.len()
        invariant
            i <= messages.len(),
            entries@.len() == i,
            forall|j: int|
                0 <= j < i ==> record_result_view(#[trigger] entries@[j]) == record_of_message(
                    messages@[j]@,
                    folder@,
                ),
        decreases messages.len() - i,
    {
        let entry = get_headers(&messages[i], folder.clone());
        entries.push(entry);
        i += 1;
    }
    assert(entries@.map_values(|r: Result<RemoteNoteMetaData, RecordError>| record_result_view(r))
        =~= records_of_messages(messages@.map_values(|m: FetchedMessage| m@), folder@));
    entries
}

/// The pattern by which note folders are found.
pub open spec fn note_folder_pattern() -> Seq<char> {
    "Notes*"@
}

/// The messages of a folder, all of them.
pub open spec fn all_messages() -> Seq<char> {
    "1:*"@
}

/// The fetch of the header block and the location of a message.
pub open spec fn query_headers() -> Seq<char> {
    "(RFC822.HEADER UID)"@
}

/// Why discovery gave no result.
#[derive(Debug, PartialEq, Eq)]
pub enum DiscoveryError {
    /// The folders could not be listed.
    Transport(TransportError),
    /// Folders were listed and not one of them could be selected.
    NoFolderAvailable,
    /// The reply is none that the command can have.
    UnexpectedReply,
}

/// The mathematical model of a `DiscoveryError`.
pub enum DiscoveryErrorView {
    Transport(TransportErrorView),
    NoFolderAvailable,
    UnexpectedReply,
}

impl View for DiscoveryError {
    type V = DiscoveryErrorView;

    open spec fn view(&self) -> DiscoveryErrorView {
        match self {
            DiscoveryError::Transport(e) => DiscoveryErrorView::Transport(e@),
            DiscoveryError::NoFolderAvailable => DiscoveryErrorView::NoFolderAvailable,
            DiscoveryError::UnexpectedReply => DiscoveryErrorView::UnexpectedReply,
        }
    }
}

/// Where discovery stands: the command that is due next.
#[derive(Debug, PartialEq, Eq)]
pub enum DiscoveryStep {
    /// List the note folders.
    List,
    /// Select `folder`; the folders in `rest` follow.
    Select { folder: String, rest: Vec<String> },
    /// Fetch the headers of the messages of `folder`, which is selected.
    Fetch { folder: String, rest: Vec<String> },
}

/// The mathematical model of a `DiscoveryStep`.
pub enum DiscoveryStepView {
    List,
    Select { folder: Seq<char>, rest: Seq<Seq<char>> },
    Fetch { folder: Seq<char>, rest: Seq<Seq<char>> },
}

impl View for DiscoveryStep {
    type V = DiscoveryStepView;

    open spec fn view(&self) -> DiscoveryStepView {
        match self {
            DiscoveryStep::List => DiscoveryStepView::List,
            DiscoveryStep::Select { folder, rest } => DiscoveryStepView::Select {
                folder: folder@,
                rest: rest.deep_view(),
            },
            DiscoveryStep::Fetch { folder, rest } => DiscoveryStepView::Fetch {
                folder: folder@,
                rest: rest.deep_view(),
            },
        }
    }
}

/// A discovery in progress: the step that is due, and the scans of the
/// folders that are done.
#[derive(Debug)]
pub struct Discovery {
    pub step: DiscoveryStep,
    pub scans: Vec<FolderScan>,
}

/// The mathematical model of a `Discovery`.
pub struct DiscoveryView {
    pub step: DiscoveryStepView,
    pub scans: Seq<FolderScanView>,
}

impl View for Discovery {
    type V = DiscoveryView;

    open spec fn view(&self) -> DiscoveryView {
        DiscoveryView { step: self.step@, scans: scans_view(self.scans@) }
    }
}

/// How a discovery goes on after a reply.
#[derive(Debug)]
pub enum DiscoveryProgress {
    /// Another command is due.
    Continue(Discovery),
    /// Every folder is done: one scan for each, in the order of the listing.
    Finished(Vec<FolderScan>),
    /// The discovery has ended without a result.
    Aborted(DiscoveryError),
}

/// The mathematical model of a `DiscoveryProgress`.
pub enum DiscoveryProgressView {
    Continue(DiscoveryView),
    Finished(Seq<FolderScanView>),
    Aborted(DiscoveryErrorView),
}

impl View for DiscoveryProgress {
    type V = DiscoveryProgressView;

    open spec fn view(&self) -> DiscoveryProgressView {
        match self {
            DiscoveryProgress::Continue(state) => DiscoveryProgressView::Continue(state@),
            DiscoveryProgress::Finished(scans) => DiscoveryProgressView::Finished(
                scans_view(scans@),
            ),
            DiscoveryProgress::Aborted(e) => DiscoveryProgressView::Aborted(e@),
        }
    }
}

/// Whether none of the scans is of a folder that could be selected.
pub open spec fn none_selected(scans: Seq<FolderScanView>) -> bool {
    forall|i: int| 0 <= i < scans.len() ==> !(#[trigger] scans[i]).selected
}

/// The scan of a folder that could not be selected or fetched: no message.
pub open spec fn empty_scan(folder: Seq<char>, selected: bool) -> FolderScanView {
    FolderScanView {
        folder,
        selected,
        messages: Seq::<Result<RemoteNoteMetaDataView, RecordError>>::empty(),
    }
}

impl DiscoveryView {
    /// The command that is due in this state.
    pub open spec fn command(self) -> CommandView {
        match self.step {
            DiscoveryStepView::List => CommandView::List { pattern: note_folder_pattern() },
            DiscoveryStepView::Select { folder, rest } => CommandView::Select { mailbox: folder },
            DiscoveryStepView::Fetch { folder, rest } => CommandView::Fetch {
                sequence_set: all_messages(),
                query: query_headers(),
            },
        }
    }

    /// The end of a discovery with the scans `scans`. Where folders were
    /// listed and none could be selected, the session is taken to be broken.
    pub open spec fn finish(scans: Seq<FolderScanView>) -> DiscoveryProgressView {
        if scans.len() > 0 && none_selected(scans) {
            DiscoveryProgressView::Aborted(DiscoveryErrorView::NoFolderAvailable)
        } else {
            DiscoveryProgressView::Finished(scans)
        }
    }

    /// What follows once the scans `scans` are done and the folders `rest`
    /// are still to be scanned.
    pub open spec fn proceed(rest: Seq<Seq<char>>, scans: Seq<FolderScanView>) -> DiscoveryProgressView {
        if rest.len() == 0 {
            Self::finish(scans)
        } else {
            DiscoveryProgressView::Continue(
                DiscoveryView {
                    step: DiscoveryStepView::Select { folder: rest[0], rest: rest.skip(1) },
                    scans,
                },
            )
        }
    }

    /// What follows the reply `reply` to the command of this state. Only a
    /// failed listing ends the discovery; a folder that cannot be selected
    /// or fetched is scanned as empty, and the folders after it are scanned
    /// as if nothing had happened.
    pub open spec fn advance(self, reply: ReplyView) -> DiscoveryProgressView {
        match self.step {
            DiscoveryStepView::List => match reply {
                ReplyView::Names(names) => Self::proceed(names, self.scans),
                ReplyView::Failed(e) => DiscoveryProgressView::Aborted(
                    DiscoveryErrorView::Transport(e),
                ),
                _ => DiscoveryProgressView::Aborted(DiscoveryErrorView::UnexpectedReply),
            },
            DiscoveryStepView::Select { folder, rest } => match reply {
                ReplyView::Failed(e) => Self::proceed(
                    rest,
                    self.scans.push(empty_scan(folder, false)),
                ),
                _ => DiscoveryProgressView::Continue(
                    DiscoveryView { step: DiscoveryStepView::Fetch { folder, rest }, ..self },
                ),
            },
            DiscoveryStepView::Fetch { folder, rest } => match reply {
                ReplyView::Messages(messages) => Self::proceed(
                    rest,
                    self.scans.push(
                        FolderScanView {
                            folder,
                            selected: true,
                            messages: records_of_messages(messages, folder),
                        },
                    ),
                ),
                ReplyView::Failed(e) => Self::proceed(
                    rest,
                    self.scans.push(empty_scan(folder, true)),
                ),
                _ => DiscoveryProgressView::Aborted(DiscoveryErrorView::UnexpectedReply),
            },
        }
    }
}

/// Whether none of the scans is of a folder that could be selected.
fn is_none_selected(scans: &Vec<FolderScan>) -> (none: bool)
    ensures
        none == none_selected(scans_view(scans@)),
{
    let mut i: usize = 0;
    while i < scans.len()
        invariant
            i <= scans.len(),
            forall|j: int| 0 <= j < i ==> !(#[trigger] scans_view(scans@)[j]).selected,
        decreases scans.len() - i,
    {
        if scans[i].selected {
            assert(scans_view(scans@)[i as int].selected);
            return false;
        }
        i += 1;
    }
    true
}

/// What follows once the scans `scans` are done and the folders `rest` are
/// still to be scanned.
fn proceed(rest: Vec<String>, scans: Vec<FolderScan>) -> (progress: DiscoveryProgress)
    ensures
        progress@ == DiscoveryView::proceed(rest.deep_view(), scans_view(scans@)),
{
    let mut rest = rest;
    if rest.len() == 0 {
        if scans.len() > 0 && is_none_selected(&scans) {
            DiscoveryProgress::Aborted(DiscoveryError::NoFolderAvailable)
        } else {
            DiscoveryProgress::Finished(scans)
        }
    } else {
        let ghost all = rest.deep_view();
        let folder = rest.remove(0);
        assert(rest.deep_view() =~= all.skip(1));
        assert(folder@ == all[0]);
        DiscoveryProgress::Continue(
            Discovery { step: DiscoveryStep::Select { folder, rest }, scans },
        )
    }
}

/// Adds a scan to the scans that are done.
fn add_scan(scans: Vec<FolderScan>, scan: FolderScan) -> (all: Vec<FolderScan>)
    ensures
        scans_view(all@) == scans_view(scans@).push(scan@),
{
    let mut all = scans;
    all.push(scan);
    assert(scans_view(all@) =~= scans_view(scans@).push(scan@));
    all
}

impl Discovery {
    /// Begins a discovery.
    pub fn start() -> (state: Discovery)
        ensures
            state@ == (DiscoveryView {
                step: DiscoveryStepView::List,
                scans: Seq::<FolderScanView>::empty(),
            }),
    {
        let state = Discovery { step: DiscoveryStep::List, scans: Vec::new() };
        assert(state@.scans =~= Seq::<FolderScanView>::empty());
        state
    }

    /// The command that the session must perform next.
    pub fn command(&self) -> (command: Command)
        ensures
            command@ == self@.command(),
    {
        match &self.step {
            DiscoveryStep::List => Command::List { pattern: "Notes*".to_owned() },
            DiscoveryStep::Select { folder, rest } => Command::Select { mailbox: folder.clone() },
            DiscoveryStep::Fetch { folder, rest } => Command::Fetch {
                sequence_set: "1:*".to_owned(),
                query: "(RFC822.HEADER UID)".to_owned(),
            },
        }
    }

    /// Takes the session's reply to the command of this state and says how
    /// the discovery goes on.
    pub fn advance(self, reply: Reply) -> (progress: DiscoveryProgress)
        ensures
            progress@ == self@.advance(reply@),
    {
        match self.step {
            DiscoveryStep::List => match reply {
                Reply::Names(names) => proceed(names, self.scans),
                Reply::Failed(e) => DiscoveryProgress::Aborted(DiscoveryError::Transport(e)),
                _ => DiscoveryProgress::Aborted(DiscoveryError::UnexpectedReply),
            },
            DiscoveryStep::Select { folder, rest } => match reply {
                Reply::Failed(e) => {
                    let scan = FolderScan { folder, selected: false, messages: Vec::new() };
                    assert(scan@.messages =~= Seq::<
                        Result<RemoteNoteMetaDataView, RecordError>,
                    >::empty());
                    proceed(rest, add_scan(self.scans, scan))
                },
                _ => DiscoveryProgress::Continue(
                    Discovery { step: DiscoveryStep::Fetch { folder, rest }, scans: self.scans },
                ),
            },
            DiscoveryStep::Fetch { folder, rest } => match reply {
                Reply::Messages(messages) => {
                    let entries = read_messages(&messages, &folder);
                    let scan = FolderScan { folder, selected: true, messages: entries };
                    proceed(rest, add_scan(self.scans, scan))
                },
                Reply::Failed(e) => {
                    let scan = FolderScan { folder, selected: true, messages: Vec::new() };
                    assert(scan@.messages =~= Seq::<
                        Result<RemoteNoteMetaDataView, RecordError>,
                    >::empty());
                    proceed(rest, add_scan(self.scans, scan))
                },
                _ => DiscoveryProgress::Aborted(DiscoveryError::UnexpectedReply),
            },
        }
    }
}

impl DiscoveryStepView {
    /// The folders that are still to be scanned, the one at hand first.
    pub open spec fn pending(self) -> Seq<Seq<char>> {
        match self {
            DiscoveryStepView::List => Seq::<Seq<char>>::empty(),
            DiscoveryStepView::Select { folder, rest } => seq![folder] + rest,
            DiscoveryStepView::Fetch { folder, rest } => seq![folder] + rest,
        }
    }
}

/// The folders of the scans, in their order.
pub open spec fn scanned_folders(scans: Seq<FolderScanView>) -> Seq<Seq<char>> {
    scans.map_values(|s: FolderScanView| s.folder)
}

/// The folders that a discovery covers once it is done: those scanned so
/// far, then those still to be scanned.
pub open spec fn covered_folders(state: DiscoveryView) -> Seq<Seq<char>> {
    scanned_folders(state.scans) + state.step.pending()
}

/// Failures stay within their folder: whatever the reply, the scans that
/// are done stay as they are, and those of later folders are added behind
/// them.
pub proof fn lemma_scans_are_kept(state: DiscoveryView, reply: ReplyView)
    ensures
        state.advance(reply) matches DiscoveryProgressView::Continue(next) ==> state.scans
            == next.scans.take(state.scans.len() as int),
        state.advance(reply) matches DiscoveryProgressView::Finished(scans) ==> state.scans
            == scans.take(state.scans.len() as int),
{
    match state.advance(reply) {
        DiscoveryProgressView::Continue(next) => {
            assert(state.scans =~= next.scans.take(state.scans.len() as int));
        },
        DiscoveryProgressView::Finished(scans) => {
            assert(state.scans =~= scans.take(state.scans.len() as int));
        },
        _ => {},
    }
}

/// Every folder of the listing is scanned once, in the order of the
/// listing: after the listing, the folders that a discovery covers never
/// change, and at the end they are the folders of the scans.
pub proof fn lemma_every_folder_is_scanned(state: DiscoveryView, reply: ReplyView)
    ensures
        state.advance(reply) matches DiscoveryProgressView::Continue(next) ==> covered_folders(next)
            == if state.step is List {
            scanned_folders(state.scans) + reply->Names_0
        } else {
            covered_folders(state)
        },
        state.advance(reply) matches DiscoveryProgressView::Finished(scans) ==> scanned_folders(scans)
            == if state.step is List {
            scanned_folders(state.scans) + reply->Names_0
        } else {
            covered_folders(state)
        },
{
    match state.advance(reply) {
        DiscoveryProgressView::Continue(next) => {
            assert(covered_folders(next) =~= if state.step is List {
                scanned_folders(state.scans) + reply->Names_0
            } else {
                covered_folders(state)
            });
        },
        DiscoveryProgressView::Finished(scans) => {
            assert(scanned_folders(scans) =~= if state.step is List {
                scanned_folders(state.scans) + reply->Names_0
            } else {
                covered_folders(state)
            });
        },
        _ => {},
    }
}

/// The predicate that holds of the entries that are records.
pub open spec fn is_record() -> spec_fn(Result<RemoteNoteMetaDataView, RecordError>) -> bool {
    |entry: Result<RemoteNoteMetaDataView, RecordError>| entry is Ok
}

/// The predicate that holds of the entries that are violations.
pub open spec fn is_violation() -> spec_fn(Result<RemoteNoteMetaDataView, RecordError>) -> bool {
    |entry: Result<RemoteNoteMetaDataView, RecordError>| entry is Err
}

impl FolderScanView {
    /// The records of the messages that could be read, in their order.
    pub open spec fn records(self) -> Seq<RemoteNoteMetaDataView> {
        self.messages.filter(is_record()).map_values(
            |entry: Result<RemoteNoteMetaDataView, RecordError>| entry->Ok_0,
        )
    }

    /// Why the other messages could not be read, in their order.
    pub open spec fn violations(self) -> Seq<RecordError> {
        self.messages.filter(is_violation()).map_values(
            |entry: Result<RemoteNoteMetaDataView, RecordError>| entry->Err_0,
        )
    }
}

/// The records of all scans: those of the first folder, then those of the
/// second, and so on.
pub open spec fn scanned_records(scans: Seq<FolderScanView>) -> Seq<RemoteNoteMetaDataView>
    decreases scans.len(),
{
    if scans.len() == 0 {
        Seq::<RemoteNoteMetaDataView>::empty()
    } else {
        scanned_records(scans.drop_last()) + scans.last().records()
    }
}

impl FolderScan {
    /// The records of the messages that could be read, in their order.
    pub fn records(&self) -> (records: Vec<RemoteNoteMetaData>)
        ensures
            crate::note::records_view(records@) == self@.records(),
    {
        let mut records: Vec<RemoteNoteMetaData> = Vec::new();
        let mut i: usize = 0;
        proof {
            assert(self@.messages.take(0) =~= Seq::<
                Result<RemoteNoteMetaDataView, RecordError>,
            >::empty());
            Seq::<Result<RemoteNoteMetaDataView, RecordError>>::empty().lemma_filter_len(
                is_record(),
            );
            assert(crate::note::records_view(records@) =~= self@.messages.take(0).filter(
                is_record(),
            ).map_values(|entry: Result<RemoteNoteMetaDataView, RecordError>| entry->Ok_0));
        }
        while i < self.messages.len()
            invariant
                i <= self.messages.len(),
                crate::note::records_view(records@) == self@.messages.take(i as int).filter(
                    is_record(),
                ).map_values(|entry: Result<RemoteNoteMetaDataView, RecordError>| entry->Ok_0),
            decreases self.messages.len() - i,
        {
            let ghost seen = self@.messages.take(i as int);
            let ghost before = crate::note::records_view(records@);
            proof {
                assert(self@.messages.take(i + 1) =~= seen.push(self@.messages[i as int]));
                seen.lemma_filter_push(self@.messages[i as int], is_record());
            }
            match &self.messages[i] {
                Ok(record) => {
                    records.push(record.clone());
                    assert(crate::note::records_view(records@) =~= before.push(
                        self@.messages[i as int]->Ok_0,
                    ));
                    assert(crate::note::records_view(records@) =~= self@.messages.take(
                        i + 1,
                    ).filter(is_record()).map_values(
                        |entry: Result<RemoteNoteMetaDataView, RecordError>| entry->Ok_0,
                    ));
                },
                Err(_) => {},
            }
            i += 1;
        }
        assert(self@.messages.take(self.messages.len() as int) =~= self@.messages);
        records
    }

    /// Why the messages that gave no record could not be read, in their
    /// order.
    pub fn violations(&self) -> (violations: Vec<RecordError>)
        ensures
            violations@ == self@.violations(),
    {
        let mut violations: Vec<RecordError> = Vec::new();
        let mut i: usize = 0;
        proof {
            assert(self@.messages.take(0) =~= Seq::<
                Result<RemoteNoteMetaDataView, RecordError>,
            >::empty());
            Seq::<Result<RemoteNoteMetaDataView, RecordError>>::empty().lemma_filter_len(
                is_violation(),
            );
            assert(violations@ =~= self@.messages.take(0).filter(is_violation()).map_values(
                |entry: Result<RemoteNoteMetaDataView, RecordError>| entry->Err_0,
            ));
        }
        while i < self.messages.len()
            invariant
                i <= self.messages.len(),
                violations@ == self@.messages.take(i as int).filter(is_violation()).map_values(
                    |entry: Result<RemoteNoteMetaDataView, RecordError>| entry->Err_0,
                ),
            decreases self.messages.len() - i,
        {
            let ghost seen = self@.messages.take(i as int);
            let ghost before = violations@;
            proof {
                assert(self@.messages.take(i + 1) =~= seen.push(self@.messages[i as int]));
                seen.lemma_filter_push(self@.messages[i as int], is_violation());
            }
            match &self.messages[i] {
                Ok(_) => {},
                Err(e) => {
                    violations.push(*e);
                    assert(violations@ =~= self@.messages.take(i + 1).filter(
                        is_violation(),
                    ).map_values(
                        |entry: Result<RemoteNoteMetaDataView, RecordError>| entry->Err_0,
                    ));
                },
            }
            i += 1;
        }
        assert(self@.messages.take(self.messages.len() as int) =~= self@.messages);
        violations
    }
}

/// The records of all scans, folder after folder.
pub fn all_records(scans: &Vec<FolderScan>) -> (records: Vec<RemoteNoteMetaData>)
    ensures
        crate::note::records_view(records@) == scanned_records(scans_view(scans@)),
{
    let mut records: Vec<RemoteNoteMetaData> = Vec::new();
    let mut i: usize = 0;
    assert(scans_view(scans@).take(0) =~= Seq::<FolderScanView>::empty());
    assert(crate::note::records_view(records@) =~= Seq::<RemoteNoteMetaDataView>::empty());
    while i < scans.len()
        invariant
            i <= scans.len(),
            crate::note::records_view(records@) == scanned_records(
                scans_view(scans@).take(i as int),
            ),
        decreases scans.len() - i,
    {
        let ghost before = crate::note::records_view(records@);
        let mut found = scans[i].records();
        let ghost added = crate::note::records_view(found@);
        proof {
            let next = scans_view(scans@).take(i + 1);
            assert(next.drop_last() =~= scans_view(scans@).take(i as int));
            assert(next.last() == scans[i as int]@);
        }
        records.append(&mut found);
        assert(crate::note::records_view(records@) =~= before + added);
        i += 1;
    }
    assert(scans_view(scans@).take(scans.len() as int) =~= scans_view(scans@));
    records
}

} // verus!
