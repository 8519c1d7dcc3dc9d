//! A note as a whole, on either side: the local note with its versions, the
//! record of one server message, and the group of records that share one
//! identity; and the decisions that compare the two sides.

use crate::headers::{
    clone_headers, header_value, is_first_at, lemma_all_names_distinct, lemma_header_value_skip,
    lemma_with_header_at, push_header, required_header, with_header, HeaderKey, HeaderParser,
    HeaderSeq, MissingHeaderError, NoteHeaders,
};
use crate::model::{Body, BodyView, NotesMetadata, NotesMetadataView};
use crate::profile::{Profile, ProfileView};
use crate::util::{is_uuid_text, new_note_headers, HeaderBuilder};
use vstd::prelude::*;
use vstd::std_specs::cmp::PartialEqSpecImpl;

verus! {

/// A note in the local store: its metadata and its versions, in their order.
/// A note that is ready to be published has exactly one version; more than
/// one is a merge that is still to be made.
#[derive(Debug)]
pub struct LocalNote {
    pub metadata: NotesMetadata,
    pub body: Vec<Body>,
}

/// The mathematical model of a `LocalNote`.
pub struct LocalNoteView {
    pub metadata: NotesMetadataView,
    pub body: Seq<BodyView>,
}

impl View for LocalNote {
    type V = LocalNoteView;

    open spec fn view(&self) -> LocalNoteView {
        LocalNoteView { metadata: self.metadata@, body: self.body@.map_values(|b: Body| b@) }
    }
}

impl Clone for LocalNote {
    fn clone(&self) -> (copy: Self)
        ensures
            copy@ == self@,
    {
        let mut body: Vec<Body> = Vec::new();
        let mut i: usize = 0;
        while i < self.body.len()
            invariant
                i <= self.body.len(),
                body@.len() == i,
                forall|j: int| 0 <= j < i ==> body@[j]@ == self.body@[j]@,
            decreases self.body.len() - i,
        {
            body.push(self.body[i].clone());
            i += 1;
        }
        let copy = LocalNote { metadata: self.metadata.clone(), body };
        assert(copy@.body =~= self@.body);
        copy
    }
}

impl PartialEq for LocalNote {
    /// Two local notes are the same note where their identities agree.
    fn eq(&self, other: &Self) -> (same: bool) {
        self.metadata.uuid == other.metadata.uuid
    }
}

impl Eq for LocalNote {

}

impl PartialEqSpecImpl for LocalNote {
    open spec fn obeys_eq_spec() -> bool {
        true
    }

    open spec fn eq_spec(&self, other: &Self) -> bool {
        self@.metadata.uuid == other@.metadata.uuid
    }
}

/// Why a note or a group of records cannot answer a question about itself.
#[derive(Clone, Copy, Debug, PartialEq, Eq, Structural)]
pub enum NoteError {
    /// It has no member at all.
    Empty,
    /// It has more than one member and must be merged first.
    NeedsMerge,
    /// Its version was never published, so the server holds it nowhere.
    NotPublished,
    /// A message lacks a header that it should carry.
    MissingHeader(MissingHeaderError),
}

/// The type identifier that marks a message as a note.
pub open spec fn note_type_identifier() -> Seq<char> {
    "com.apple.mail-note"@
}

/// The content type of a note message.
pub open spec fn note_content_type() -> Seq<char> {
    "text/html; charset=utf-8"@
}

/// The transfer encoding of a note message.
pub open spec fn note_transfer_encoding() -> Seq<char> {
    "quoted-printable"@
}

/// The MIME version by which the publishing client signs a note message.
pub open spec fn note_mime_version() -> Seq<char> {
    "1.0 (Mac OS X Notes 4.6 \\(879.10\\))"@
}

impl LocalNoteView {
    /// The headers of the message that publishes this note, for a note with
    /// one version: ten headers in a fixed order.
    pub open spec fn header_seq(self, profile: ProfileView) -> HeaderSeq {
        seq![
            (HeaderKey::TypeIdentifier.spec_name(), note_type_identifier()),
            (HeaderKey::ContentType.spec_name(), note_content_type()),
            (HeaderKey::TransferEncoding.spec_name(), note_transfer_encoding()),
            (HeaderKey::MimeVersion.spec_name(), note_mime_version()),
            (HeaderKey::Date.spec_name(), self.metadata.date),
            (HeaderKey::CreatedDate.spec_name(), self.metadata.date),
            (HeaderKey::From.spec_name(), profile.email),
            (HeaderKey::MessageId.spec_name(), self.body[0].message_id),
            (HeaderKey::Uuid.spec_name(), self.metadata.uuid),
            (HeaderKey::Subject.spec_name(), self.body[0].subject()),
        ]
    }

    /// Whether the note holds an edit that was not published yet: a version
    /// that records which version token it supersedes.
    pub open spec fn content_changed_locally(self) -> bool {
        exists|i: int| 0 <= i < self.body.len() && (#[trigger] self.body[i]).old_remote_message_id is Some
    }

    /// The version tokens of the note's versions, in their order.
    pub open spec fn message_ids(self) -> Seq<Seq<char>> {
        self.body.map_values(|b: BodyView| b.message_id)
    }
}

impl LocalNote {
    /// Whether the note has more than one version, so that they must be
    /// merged before the note is published.
    pub fn needs_merge(&self) -> (needed: bool)
        ensures
            needed == (self@.body.len() > 1),
    {
        self.body.len() > 1
    }

    /// The headers of the message that publishes this note under `profile`.
    /// The note has exactly one version: one with more is merged first.
    pub fn to_header_vector(&self, profile: &Profile) -> (headers: NoteHeaders)
        requires
            self@.body.len() == 1,
        ensures
            headers.deep_view() == self@.header_seq(profile@),
    {
        let mut headers: NoteHeaders = Vec::new();
        assert(headers.deep_view() =~= Seq::<(Seq<char>, Seq<char>)>::empty());
        push_header(&mut headers, HeaderKey::TypeIdentifier, "com.apple.mail-note".to_owned());
        push_header(&mut headers, HeaderKey::ContentType, "text/html; charset=utf-8".to_owned());
        push_header(&mut headers, HeaderKey::TransferEncoding, "quoted-printable".to_owned());
        push_header(
            &mut headers,
            HeaderKey::MimeVersion,
            "1.0 (Mac OS X Notes 4.6 \\(879.10\\))".to_owned(),
        );
        push_header(&mut headers, HeaderKey::Date, self.metadata.date.clone());
        push_header(&mut headers, HeaderKey::CreatedDate, self.metadata.date.clone());
        push_header(&mut headers, HeaderKey::From, profile.email.clone());
        push_header(&mut headers, HeaderKey::MessageId, self.body[0].message_id.clone());
        push_header(&mut headers, HeaderKey::Uuid, self.metadata.uuid.clone());
        push_header(&mut headers, HeaderKey::Subject, self.body[0].subject());
        assert(headers.deep_view() =~= self@.header_seq(profile@));
        headers
    }

    /// Whether the note holds an edit that was not published yet.
    pub fn content_changed_locally(&self) -> (changed: bool)
        ensures
            changed == self@.content_changed_locally(),
    {
        let mut i: usize = 0;
        while i < self.body.len()
            invariant
                i <= self.body.len(),
                forall|j: int| 0 <= j < i ==> self@.body[j].old_remote_message_id is None,
            decreases self.body.len() - i,
        {
            if self.body[i].old_remote_message_id.is_some() {
                assert(self@.body[i as int].old_remote_message_id is Some);
                return true;
            }
            i += 1;
        }
        false
    }
}

/// What was fetched of one message on the server: its headers, the folder
/// that it was found in, and its location there.
#[derive(Debug)]
pub struct RemoteNoteMetaData {
    pub headers: NoteHeaders,
    pub folder: String,
    pub uid: i64,
}

/// The mathematical model of a `RemoteNoteMetaData`.
pub struct RemoteNoteMetaDataView {
    pub headers: HeaderSeq,
    pub folder: Seq<char>,
    pub uid: i64,
}

impl View for RemoteNoteMetaData {
    type V = RemoteNoteMetaDataView;

    open spec fn view(&self) -> RemoteNoteMetaDataView {
        RemoteNoteMetaDataView {
            headers: self.headers.deep_view(),
            folder: self.folder@,
            uid: self.uid,
        }
    }
}

impl RemoteNoteMetaDataView {
    /// The stable identity that the record's headers state.
    pub open spec fn uuid(self) -> Result<Seq<char>, MissingHeaderError> {
        required_header(self.headers, HeaderKey::Uuid)
    }

    /// The version token that the record's headers state.
    pub open spec fn message_id(self) -> Result<Seq<char>, MissingHeaderError> {
        required_header(self.headers, HeaderKey::MessageId)
    }
}

impl Clone for RemoteNoteMetaData {
    fn clone(&self) -> (copy: Self)
        ensures
            copy@ == self@,
    {
        RemoteNoteMetaData {
            headers: clone_headers(&self.headers),
            folder: self.folder.clone(),
            uid: self.uid,
        }
    }
}

impl PartialEq for RemoteNoteMetaData {
    /// Two records are records of the same note where their headers state
    /// the same identity, or both state none.
    fn eq(&self, other: &Self) -> (same: bool) {
        match (self.headers.uuid(), other.headers.uuid()) {
            (Ok(a), Ok(b)) => a == b,
            (Err(_), Err(_)) => true,
            _ => false,
        }
    }
}

impl Eq for RemoteNoteMetaData {

}

impl PartialEqSpecImpl for RemoteNoteMetaData {
    open spec fn obeys_eq_spec() -> bool {
        true
    }

    open spec fn eq_spec(&self, other: &Self) -> bool {
        self@.uuid() == other@.uuid()
    }
}

/// The records of the server messages that share one stable identity: the
/// server's view of one note. More than one record means that conflicting
/// edits exist on the server.
pub type RemoteNoteHeaderCollection = Vec<RemoteNoteMetaData>;

/// The models of the records of a group, in their order.
pub open spec fn records_view(records: Seq<RemoteNoteMetaData>) -> Seq<RemoteNoteMetaDataView> {
    records.map_values(|r: RemoteNoteMetaData| r@)
}

/// The version tokens of the records of a group, each as far as its headers
/// state one.
pub open spec fn remote_versions(records: Seq<RemoteNoteMetaDataView>) -> Seq<
    Result<Seq<char>, MissingHeaderError>,
> {
    records.map_values(|r: RemoteNoteMetaDataView| r.message_id())
}

/// The version tokens of `versions` in their order, or the first header that
/// is absent.
pub open spec fn all_versions(versions: Seq<Result<Seq<char>, MissingHeaderError>>) -> Result<
    Seq<Seq<char>>,
    MissingHeaderError,
>
    decreases versions.len(),
{
    if versions.len() == 0 {
        Ok(Seq::<Seq<char>>::empty())
    } else {
        match all_versions(versions.drop_last()) {
            Err(e) => Err(e),
            Ok(ids) => match versions.last() {
                Ok(id) => Ok(ids.push(id)),
                Err(e) => Err(e),
            },
        }
    }
}

/// The version token of a note that needs no merge: that of its only member.
/// A note with several members has none to give; one without members is in
/// no valid state, and that is an error.
pub open spec fn sole_version(versions: Seq<Result<Seq<char>, MissingHeaderError>>) -> Result<
    Option<Seq<char>>,
    NoteError,
> {
    if versions.len() == 0 {
        Err(NoteError::Empty)
    } else if versions.len() > 1 {
        Ok(None)
    } else {
        match versions[0] {
            Ok(id) => Ok(Some(id)),
            Err(e) => Err(NoteError::MissingHeader(e)),
        }
    }
}

/// Whether a text that was read from a note is what the model says: the same
/// text, or the same error.
pub open spec fn is_note_result(
    result: Result<String, NoteError>,
    expected: Result<Seq<char>, NoteError>,
) -> bool {
    match result {
        Ok(value) => expected == Ok::<Seq<char>, NoteError>(value@),
        Err(e) => expected == Err::<Seq<char>, NoteError>(e),
    }
}

/// A record that belongs to one note: it can say where the note is kept and
/// which note it is.
pub trait IdentifyableNote {
    /// The folder that holds the note.
    spec fn spec_folder(&self) -> Result<Seq<char>, NoteError>;

    /// The note's stable identity.
    spec fn spec_uuid(&self) -> Result<Seq<char>, NoteError>;

    /// The folder that holds the note.
    fn folder(&self) -> (folder: Result<String, NoteError>)
        ensures
            is_note_result(folder, self.spec_folder()),
    ;

    /// The note's stable identity.
    fn uuid(&self) -> (uuid: Result<String, NoteError>)
        ensures
            is_note_result(uuid, self.spec_uuid()),
    ;
}

/// A note as a collection of versions, of which there should be one.
pub trait MergeableNoteBody {
    /// The version token of each member, as far as it states one.
    spec fn versions(&self) -> Seq<Result<Seq<char>, MissingHeaderError>>;

    /// Whether the note has more than one member and must be merged.
    fn needs_local_merge(&self) -> (needed: bool)
        ensures
            needed == (self.versions().len() > 1),
    ;

    /// The version token of a note that needs no merge.
    fn get_message_id(&self) -> (id: Result<Option<String>, NoteError>)
        ensures
            match id {
                Ok(id) => sole_version(self.versions()) == Ok::<Option<Seq<char>>, NoteError>(
                    id.deep_view(),
                ),
                Err(e) => sole_version(self.versions()) == Err::<Option<Seq<char>>, NoteError>(e),
            },
    ;

    /// The version tokens of all members, in their order.
    fn all_message_ids(&self) -> (ids: Result<Vec<String>, MissingHeaderError>)
        ensures
            match ids {
                Ok(ids) => all_versions(self.versions()) == Ok::<
                    Seq<Seq<char>>,
                    MissingHeaderError,
                >(ids.deep_view()),
                Err(e) => all_versions(self.versions()) == Err::<
                    Seq<Seq<char>>,
                    MissingHeaderError,
                >(e),
            },
    ;
}

impl IdentifyableNote for NotesMetadata {
    open spec fn spec_folder(&self) -> Result<Seq<char>, NoteError> {
        Ok(self@.subfolder)
    }

    open spec fn spec_uuid(&self) -> Result<Seq<char>, NoteError> {
        Ok(self@.uuid)
    }

    fn folder(&self) -> (folder: Result<String, NoteError>) {
        Ok(self.subfolder.clone())
    }

    fn uuid(&self) -> (uuid: Result<String, NoteError>) {
        Ok(self.uuid.clone())
    }
}

impl IdentifyableNote for LocalNote {
    open spec fn spec_folder(&self) -> Result<Seq<char>, NoteError> {
        Ok(self@.metadata.subfolder)
    }

    open spec fn spec_uuid(&self) -> Result<Seq<char>, NoteError> {
        Ok(self@.metadata.uuid)
    }

    fn folder(&self) -> (folder: Result<String, NoteError>) {
        self.metadata.folder()
    }

    fn uuid(&self) -> (uuid: Result<String, NoteError>) {
        self.metadata.uuid()
    }
}

/// The version tokens of the versions of a local note, none of which can be
/// absent.
pub open spec fn local_versions(body: Seq<BodyView>) -> Seq<Result<Seq<char>, MissingHeaderError>> {
    body.map_values(|b: BodyView| Ok::<Seq<char>, MissingHeaderError>(b.message_id))
}

/// Where every version token is present, all of them are given.
pub proof fn lemma_all_versions_present(versions: Seq<Result<Seq<char>, MissingHeaderError>>)
    requires
        forall|i: int| 0 <= i < versions.len() ==> (#[trigger] versions[i]) is Ok,
    ensures
        all_versions(versions) == Ok::<Seq<Seq<char>>, MissingHeaderError>(
            versions.map_values(|v: Result<Seq<char>, MissingHeaderError>| v->Ok_0),
        ),
    decreases versions.len(),
{
    let ids = versions.map_values(|v: Result<Seq<char>, MissingHeaderError>| v->Ok_0);
    if versions.len() == 0 {
        assert(ids =~= Seq::<Seq<char>>::empty());
    } else {
        let front = versions.drop_last();
        lemma_all_versions_present(front);
        assert(versions.last() is Ok);
        assert(front.map_values(|v: Result<Seq<char>, MissingHeaderError>| v->Ok_0).push(
            versions.last()->Ok_0,
        ) =~= ids);
    }
}

impl MergeableNoteBody for LocalNote {
    open spec fn versions(&self) -> Seq<Result<Seq<char>, MissingHeaderError>> {
        local_versions(self@.body)
    }

    fn needs_local_merge(&self) -> (needed: bool) {
        self.body.len() > 1
    }

    fn get_message_id(&self) -> (id: Result<Option<String>, NoteError>) {
        if self.body.len() == 0 {
            Err(NoteError::Empty)
        } else if self.needs_merge() {
            Ok(None)
        } else {
            Ok(Some(self.body[0].message_id.clone()))
        }
    }

    fn all_message_ids(&self) -> (ids: Result<Vec<String>, MissingHeaderError>) {
        let mut ids: Vec<String> = Vec::new();
        let mut i: usize = 0;
        while i < self.body.len()
            invariant
                i <= self.body.len(),
                ids@.len() == i,
                forall|j: int| 0 <= j < i ==> ids@[j]@ == self@.body[j].message_id,
            decreases self.body.len() - i,
        {
            ids.push(self.body[i].message_id.clone());
            i += 1;
        }
        proof {
            lemma_all_versions_present(self.versions());
            assert(ids.deep_view() =~= self.versions().map_values(
                |v: Result<Seq<char>, MissingHeaderError>| v->Ok_0,
            ));
        }
        Ok(ids)
    }
}

/// What a header lookup gives as the answer of a note: the text, or the
/// error that names the absent header.
pub open spec fn as_note_result(value: Result<Seq<char>, MissingHeaderError>) -> Result<
    Seq<char>,
    NoteError,
> {
    match value {
        Ok(text) => Ok(text),
        Err(e) => Err(NoteError::MissingHeader(e)),
    }
}

/// The header `key` of the last record of a group, which speaks for the
/// group. A group without records has nothing to give.
pub open spec fn group_header(records: Seq<RemoteNoteMetaDataView>, key: HeaderKey) -> Result<
    Seq<char>,
    NoteError,
> {
    if records.len() == 0 {
        Err(NoteError::Empty)
    } else {
        as_note_result(required_header(records.last().headers, key))
    }
}

/// Reads the header `key` of the last record of a group.
fn read_group_header(records: &RemoteNoteHeaderCollection, key: HeaderKey) -> (value: Result<
    String,
    NoteError,
>)
    ensures
        is_note_result(value, group_header(records_view(records@), key)),
{
    if records.len() == 0 {
        return Err(NoteError::Empty);
    }
    let last = &records[records.len() - 1];
    assert(last@ == records_view(records@).last());
    match crate::headers::require_header(&last.headers, key) {
        Ok(value) => Ok(value),
        Err(e) => Err(NoteError::MissingHeader(e)),
    }
}

impl IdentifyableNote for RemoteNoteHeaderCollection {
    open spec fn spec_folder(&self) -> Result<Seq<char>, NoteError> {
        group_header(records_view(self@), HeaderKey::Folder)
    }

    open spec fn spec_uuid(&self) -> Result<Seq<char>, NoteError> {
        group_header(records_view(self@), HeaderKey::Uuid)
    }

    fn folder(&self) -> (folder: Result<String, NoteError>) {
        read_group_header(self, HeaderKey::Folder)
    }

    fn uuid(&self) -> (uuid: Result<String, NoteError>) {
        read_group_header(self, HeaderKey::Uuid)
    }
}

impl MergeableNoteBody for RemoteNoteHeaderCollection {
    open spec fn versions(&self) -> Seq<Result<Seq<char>, MissingHeaderError>> {
        remote_versions(records_view(self@))
    }

    fn needs_local_merge(&self) -> (needed: bool) {
        self.len() > 1
    }

    fn get_message_id(&self) -> (id: Result<Option<String>, NoteError>) {
        if self.len() == 0 {
            Err(NoteError::Empty)
        } else if self.needs_local_merge() {
            Ok(None)
        } else {
            assert(self[0]@ == records_view(self@)[0]);
            match self[0].headers.message_id() {
                Ok(id) => Ok(Some(id)),
                Err(e) => Err(NoteError::MissingHeader(e)),
            }
        }
    }

    fn all_message_ids(&self) -> (ids: Result<Vec<String>, MissingHeaderError>) {
        let mut ids: Vec<String> = Vec::new();
        let mut i: usize = 0;
        assert(self.versions().take(0) =~= Seq::<Result<Seq<char>, MissingHeaderError>>::empty());
        assert(ids.deep_view() =~= Seq::<Seq<char>>::empty());
        while i < self.len()
            invariant
                i <= self.len(),
                all_versions(self.versions().take(i as int)) == Ok::<
                    Seq<Seq<char>>,
                    MissingHeaderError,
                >(ids.deep_view()),
            decreases self.len() - i,
        {
            proof {
                let next = self.versions().take(i + 1);
                assert(next.drop_last() =~= self.versions().take(i as int));
                assert(next.last() == self.versions()[i as int]);
                assert(self[i as int]@ == records_view(self@)[i as int]);
                lemma_all_versions_fails(self.versions(), i as int);
            }
            match self[i].headers.message_id() {
                Ok(id) => {
                    let ghost before = ids.deep_view();
                    ids.push(id);
                    assert(ids.deep_view() =~= before.push(id@));
                },
                Err(e) => {
                    return Err(e);
                },
            }
            i += 1;
        }
        assert(self.versions().take(self.len() as int) =~= self.versions());
        Ok(ids)
    }
}

/// The first absent version token decides: where the tokens before the
/// `i`-th are all present and the `i`-th is absent, its error is the answer.
pub proof fn lemma_all_versions_fails(versions: Seq<Result<Seq<char>, MissingHeaderError>>, i: int)
    requires
        0 <= i < versions.len(),
        all_versions(versions.take(i)) is Ok,
    ensures
        versions[i] matches Err(e) ==> all_versions(versions) == Err::<
            Seq<Seq<char>>,
            MissingHeaderError,
        >(e),
    decreases versions.len(),
{
    if let Err(e) = versions[i] {
        if i == versions.len() - 1 {
            assert(versions.drop_last() =~= versions.take(i));
        } else {
            let front = versions.drop_last();
            assert(front.take(i) =~= versions.take(i));
            lemma_all_versions_fails(front, i);
        }
    }
}

/// Whether `list` holds the text `wanted`.
fn holds_text(list: &Vec<String>, wanted: &String) -> (found: bool)
    ensures
        found == list.deep_view().contains(wanted@),
{
    let mut i: usize = 0;
    while i < list.len()
        invariant
            i <= list.len(),
            forall|j: int| 0 <= j < i ==> list.deep_view()[j] != wanted@,
        decreases list.len() - i,
    {
        if list[i] == *wanted {
            assert(list.deep_view()[i as int] == wanted@);
            return true;
        }
        i += 1;
    }
    false
}

/// Whether every text of `part` is among those of `whole`.
fn all_held(part: &Vec<String>, whole: &Vec<String>) -> (held: bool)
    ensures
        held == part.deep_view().to_set().subset_of(whole.deep_view().to_set()),
{
    let mut i: usize = 0;
    while i < part.len()
        invariant
            i <= part.len(),
            forall|j: int| 0 <= j < i ==> whole.deep_view().contains(#[trigger] part.deep_view()[j]),
        decreases part.len() - i,
    {
        if !holds_text(whole, &part[i]) {
            assert(part.deep_view().to_set().contains(part.deep_view()[i as int]));
            return false;
        }
        i += 1;
    }
    true
}

/// Whether the server's copies of a note differ from the local versions:
/// they differ in number, or the version tokens on the two sides are not the
/// same set, whatever their order. A remote record without a version token
/// is an error.
pub open spec fn spec_changed_remotely(
    local: LocalNoteView,
    remote: Seq<RemoteNoteMetaDataView>,
) -> Result<bool, MissingHeaderError> {
    if remote.len() != local.body.len() {
        Ok(true)
    } else {
        match all_versions(remote_versions(remote)) {
            Err(e) => Err(e),
            Ok(ids) => Ok(ids.to_set() != local.message_ids().to_set()),
        }
    }
}

impl LocalNote {
    /// Whether the server's copies of this note differ from its local
    /// versions. Any difference counts as a change: the caller fetches the
    /// note anew.
    pub fn changed_remotely(&self, remote_metadata: &RemoteNoteHeaderCollection) -> (changed:
        Result<bool, MissingHeaderError>)
        ensures
            changed == spec_changed_remotely(self@, records_view(remote_metadata@)),
    {
        if remote_metadata.len() != self.body.len() {
            return Ok(true);
        }
        let remote_ids = match remote_metadata.all_message_ids() {
            Ok(ids) => ids,
            Err(e) => {
                return Err(e);
            },
        };
        let local_ids = match self.all_message_ids() {
            Ok(ids) => ids,
            Err(e) => {
                proof {
                    lemma_all_versions_present(self.versions());
                }
                return Err(e);
            },
        };
        proof {
            lemma_all_versions_present(self.versions());
            assert(local_ids.deep_view() =~= self@.message_ids());
        }
        let same = all_held(&local_ids, &remote_ids) && all_held(&remote_ids, &local_ids);
        proof {
            let l = local_ids.deep_view().to_set();
            let r = remote_ids.deep_view().to_set();
            if same {
                assert(l =~= r);
            }
        }
        Ok(!same)
    }

    /// The record that the server would hold of this note once published as
    /// it stands. The note must have one version, and that version a
    /// location.
    pub fn to_remote_metadata(&self, profile: &Profile) -> (record: Result<
        RemoteNoteMetaData,
        NoteError,
    >)
        ensures
            match record {
                Ok(r) => spec_remote_metadata(self@, profile@) == Ok::<
                    RemoteNoteMetaDataView,
                    NoteError,
                >(r@),
                Err(e) => spec_remote_metadata(self@, profile@) == Err::<
                    RemoteNoteMetaDataView,
                    NoteError,
                >(e),
            },
    {
        if self.body.len() == 0 {
            return Err(NoteError::Empty);
        }
        if self.body.len() > 1 {
            return Err(NoteError::NeedsMerge);
        }
        assert(self.body[0]@ == self@.body[0]);
        match self.body[0].uid {
            None => Err(NoteError::NotPublished),
            Some(uid) => Ok(
                RemoteNoteMetaData {
                    headers: self.to_header_vector(profile),
                    folder: self.metadata.subfolder.clone(),
                    uid,
                },
            ),
        }
    }
}

/// The record that the server would hold of `note`, or why there is none:
/// the note has no version, it has several, or its version has no location.
pub open spec fn spec_remote_metadata(note: LocalNoteView, profile: ProfileView) -> Result<
    RemoteNoteMetaDataView,
    NoteError,
> {
    if note.body.len() == 0 {
        Err(NoteError::Empty)
    } else if note.body.len() > 1 {
        Err(NoteError::NeedsMerge)
    } else {
        match note.body[0].uid {
            None => Err(NoteError::NotPublished),
            Some(uid) => Ok(
                RemoteNoteMetaDataView {
                    headers: note.header_seq(profile),
                    folder: note.metadata.subfolder,
                    uid,
                },
            ),
        }
    }
}

/// The headers of the record that stands for one version of a local note:
/// those of a note written at `date`, with the note's identity, the
/// version's token and its subject.
pub open spec fn record_headers(
    date: Seq<char>,
    uuid: Seq<char>,
    message_id: Seq<char>,
    subject: Seq<char>,
) -> HeaderSeq {
    seq![
        (HeaderKey::ContentType.spec_name(), crate::util::new_note_content_type()),
        (HeaderKey::TransferEncoding.spec_name(), note_transfer_encoding()),
        (HeaderKey::MimeVersion.spec_name(), note_mime_version()),
        (HeaderKey::Date.spec_name(), date),
        (HeaderKey::CreatedDate.spec_name(), date),
        (HeaderKey::Uuid.spec_name(), uuid),
        (HeaderKey::MessageId.spec_name(), message_id),
        (HeaderKey::Subject.spec_name(), subject),
    ]
}

/// The record that stands for the version `body` of the local note `note`,
/// where its headers were written at `date`.
pub open spec fn record_of_version(note: LocalNoteView, body: BodyView, date: Seq<char>, uid: i64) -> RemoteNoteMetaDataView {
    RemoteNoteMetaDataView {
        headers: record_headers(date, note.metadata.uuid, body.message_id, body.subject()),
        folder: note.metadata.subfolder,
        uid,
    }
}

/// Giving the headers of a new note a subject, then another identity and
/// another version token, leaves the header set of a record.
pub proof fn lemma_record_headers(
    date: Seq<char>,
    fresh_uuid: Seq<char>,
    token: Seq<char>,
    domain: Seq<char>,
    uuid: Seq<char>,
    message_id: Seq<char>,
    subject: Seq<char>,
)
    ensures
        with_header(
            with_header(
                new_note_headers(date, fresh_uuid, token, domain).push(
                    (HeaderKey::Subject.spec_name(), subject),
                ),
                HeaderKey::Uuid.spec_name(),
                uuid,
            ),
            HeaderKey::MessageId.spec_name(),
            message_id,
        ) == record_headers(date, uuid, message_id, subject),
{
    lemma_all_names_distinct();
    let first = new_note_headers(date, fresh_uuid, token, domain).push(
        (HeaderKey::Subject.spec_name(), subject),
    );
    assert(is_first_at(first, HeaderKey::Uuid.spec_name(), 5));
    lemma_with_header_at(first, HeaderKey::Uuid.spec_name(), uuid, 5);
    let second = first.update(5, (HeaderKey::Uuid.spec_name(), uuid));
    assert(is_first_at(second, HeaderKey::MessageId.spec_name(), 6));
    lemma_with_header_at(second, HeaderKey::MessageId.spec_name(), message_id, 6);
    assert(second.update(6, (HeaderKey::MessageId.spec_name(), message_id)) =~= record_headers(
        date,
        uuid,
        message_id,
        subject,
    ));
}

/// Whether `record` stands for the version `body` of `note`: the version
/// has a location, and the record is the one of that version, written at
/// some date.
pub open spec fn stands_for(record: RemoteNoteMetaDataView, note: LocalNoteView, body: BodyView) -> bool {
    &&& body.uid is Some
    &&& exists|date: Seq<char>| record == record_of_version(note, body, date, body.uid->0)
}

impl RemoteNoteMetaData {
    /// The records that stand for the versions of a local note, one for each
    /// version and in their order, as if each had been written now. Every
    /// version must have a location.
    pub fn new(local_note: &LocalNote, profile: &Profile) -> (records: Result<
        Vec<RemoteNoteMetaData>,
        NoteError,
    >)
        ensures
            match records {
                Ok(records) => {
                    &&& records@.len() == local_note@.body.len()
                    &&& forall|i: int|
                        0 <= i < records@.len() ==> #[trigger] stands_for(
                            records@[i]@,
                            local_note@,
                            local_note@.body[i],
                        )
                },
                Err(e) => e == NoteError::NotPublished && exists|i: int|
                    0 <= i < local_note@.body.len() && (#[trigger] local_note@.body[i]).uid is None,
            },
    {
        let mut records: Vec<RemoteNoteMetaData> = Vec::new();
        let mut i: usize = 0;
        while i < local_note.body.len()
            invariant
                i <= local_note.body.len(),
                records@.len() == i,
                forall|j: int|
                    0 <= j < i ==> #[trigger] stands_for(
                        records@[j]@,
                        local_note@,
                        local_note@.body[j],
                    ),
            decreases local_note.body.len() - i,
        {
            let body = &local_note.body[i];
            assert(body@ == local_note@.body[i as int]);
            let uid = match body.uid {
                Some(uid) => uid,
                None => {
                    return Err(NoteError::NotPublished);
                },
            };
            let fresh = HeaderBuilder::new(profile);
            let ghost (date, fresh_uuid, token) = choose|
                date: Seq<char>,
                uuid: Seq<char>,
                token: Seq<char>,
            |
                is_uuid_text(uuid) && is_uuid_text(token) && fresh@ == new_note_headers(
                    date,
                    uuid,
                    token,
                    profile@.domain,
                );
            let headers = fresh.with_subject(body.subject()).with_uuid(
                local_note.metadata.uuid.clone(),
            ).with_message_id(body.message_id.clone()).build();
            proof {
                lemma_record_headers(
                    date,
                    fresh_uuid,
                    token,
                    profile@.domain,
                    local_note@.metadata.uuid,
                    body@.message_id,
                    body@.subject(),
                );
            }
            let record = RemoteNoteMetaData {
                headers,
                folder: local_note.metadata.subfolder.clone(),
                uid,
            };
            assert(record@ == record_of_version(local_note@, body@, date, uid));
            assert(stands_for(record@, local_note@, body@));
            let ghost before = records@;
            records.push(record);
            assert forall|j: int| 0 <= j < i + 1 implies #[trigger] stands_for(
                records@[j]@,
                local_note@,
                local_note@.body[j],
            ) by {
                if j < i {
                    assert(records@[j] == before[j]);
                    assert(stands_for(before[j]@, local_note@, local_note@.body[j]));
                }
            }
            i += 1;
        }
        Ok(records)
    }
}

/// The header set of a note with one version holds all ten headers that a
/// note message needs, the subject is the first line of the version's text,
/// and the identity is that of the note's metadata.
pub proof fn lemma_header_set_complete(note: LocalNoteView, profile: ProfileView)
    requires
        note.body.len() == 1,
    ensures
        header_value(note.header_seq(profile), HeaderKey::TypeIdentifier.spec_name()) == Some(
            note_type_identifier(),
        ),
        header_value(note.header_seq(profile), HeaderKey::ContentType.spec_name()) == Some(
            note_content_type(),
        ),
        header_value(note.header_seq(profile), HeaderKey::TransferEncoding.spec_name()) == Some(
            note_transfer_encoding(),
        ),
        header_value(note.header_seq(profile), HeaderKey::MimeVersion.spec_name()) == Some(
            note_mime_version(),
        ),
        header_value(note.header_seq(profile), HeaderKey::Date.spec_name()) == Some(
            note.metadata.date,
        ),
        header_value(note.header_seq(profile), HeaderKey::CreatedDate.spec_name()) == Some(
            note.metadata.date,
        ),
        header_value(note.header_seq(profile), HeaderKey::From.spec_name()) == Some(profile.email),
        header_value(note.header_seq(profile), HeaderKey::MessageId.spec_name()) == Some(
            note.body[0].message_id,
        ),
        header_value(note.header_seq(profile), HeaderKey::Uuid.spec_name()) == Some(
            note.metadata.uuid,
        ),
        header_value(note.header_seq(profile), HeaderKey::Subject.spec_name()) == Some(
            note.body[0].subject(),
        ),
{
    lemma_all_names_distinct();
    let h = note.header_seq(profile);
    lemma_header_value_skip(h, HeaderKey::TypeIdentifier.spec_name(), 0);
    lemma_header_value_skip(h, HeaderKey::ContentType.spec_name(), 1);
    lemma_header_value_skip(h, HeaderKey::TransferEncoding.spec_name(), 2);
    lemma_header_value_skip(h, HeaderKey::MimeVersion.spec_name(), 3);
    lemma_header_value_skip(h, HeaderKey::Date.spec_name(), 4);
    lemma_header_value_skip(h, HeaderKey::CreatedDate.spec_name(), 5);
    lemma_header_value_skip(h, HeaderKey::From.spec_name(), 6);
    lemma_header_value_skip(h, HeaderKey::MessageId.spec_name(), 7);
    lemma_header_value_skip(h, HeaderKey::Uuid.spec_name(), 8);
    lemma_header_value_skip(h, HeaderKey::Subject.spec_name(), 9);
}

/// Round trip: the record that is built from a note with one version reads
/// back as the same note. Its headers state the note's identity, the
/// version's subject and the version's token, and the metadata that is read
/// from it has the note's identity, folder and date.
pub proof fn lemma_round_trip(note: LocalNoteView, profile: ProfileView)
    requires
        note.body.len() == 1,
        note.body[0].uid is Some,
    ensures
        spec_remote_metadata(note, profile) matches Ok(record) && {
            &&& record.uuid() == Ok::<Seq<char>, MissingHeaderError>(note.metadata.uuid)
            &&& record.message_id() == Ok::<Seq<char>, MissingHeaderError>(note.body[0].message_id)
            &&& required_header(record.headers, HeaderKey::Subject) == Ok::<
                Seq<char>,
                MissingHeaderError,
            >(note.body[0].subject())
            &&& crate::model::metadata_of_headers(record.headers, record.folder) matches Ok(read)
                && read.uuid == note.metadata.uuid && read.date == note.metadata.date
                && read.subfolder == note.metadata.subfolder
        },
{
    lemma_header_set_complete(note, profile);
}

/// Round trip for the records of the versions: each record's headers state
/// the note's identity, its version's subject and its version's token.
pub proof fn lemma_record_round_trip(note: LocalNoteView, body: BodyView, date: Seq<char>, uid: i64)
    ensures
        ({
            let record = record_of_version(note, body, date, uid);
            &&& record.uuid() == Ok::<Seq<char>, MissingHeaderError>(note.metadata.uuid)
            &&& record.message_id() == Ok::<Seq<char>, MissingHeaderError>(body.message_id)
            &&& required_header(record.headers, HeaderKey::Subject) == Ok::<
                Seq<char>,
                MissingHeaderError,
            >(body.subject())
        }),
{
    lemma_all_names_distinct();
    let h = record_of_version(note, body, date, uid).headers;
    lemma_header_value_skip(h, HeaderKey::Uuid.spec_name(), 5);
    lemma_header_value_skip(h, HeaderKey::MessageId.spec_name(), 6);
    lemma_header_value_skip(h, HeaderKey::Subject.spec_name(), 7);
}

/// A note needs a merge exactly where it has more than one member, on
/// either side.
pub proof fn lemma_needs_merge(local: LocalNoteView, remote: Seq<RemoteNoteMetaDataView>)
    ensures
        local_versions(local.body).len() > 1 <==> local.body.len() > 1,
        remote_versions(remote).len() > 1 <==> remote.len() > 1,
{
}

/// A difference in number is a change: where the server holds another
/// number of copies than the note has versions, the note has changed
/// remotely.
pub proof fn lemma_changed_by_count(local: LocalNoteView, remote: Seq<RemoteNoteMetaDataView>)
    requires
        remote.len() != local.body.len(),
    ensures
        spec_changed_remotely(local, remote) == Ok::<bool, MissingHeaderError>(true),
{
}

/// The version tokens that the records state, in their order, for records
/// that all state one.
pub open spec fn stated_tokens(remote: Seq<RemoteNoteMetaDataView>) -> Seq<Seq<char>> {
    remote_versions(remote).map_values(|v: Result<Seq<char>, MissingHeaderError>| v->Ok_0)
}

/// Where the two sides agree in number and every remote record states its
/// version token, the note is unchanged exactly where the version tokens on
/// the two sides are the same set, whatever their order and however often
/// each occurs.
pub proof fn lemma_unchanged_iff_same_tokens(
    local: LocalNoteView,
    remote: Seq<RemoteNoteMetaDataView>,
)
    requires
        remote.len() == local.body.len(),
        forall|i: int| 0 <= i < remote.len() ==> (#[trigger] remote[i]).message_id() is Ok,
    ensures
        spec_changed_remotely(local, remote) == Ok::<bool, MissingHeaderError>(
            stated_tokens(remote).to_set() != local.message_ids().to_set(),
        ),
{
    let versions = remote_versions(remote);
    assert forall|i: int| 0 <= i < versions.len() implies (#[trigger] versions[i]) is Ok by {
        assert(remote[i].message_id() is Ok);
    }
    lemma_all_versions_present(versions);
}

} // verus!
