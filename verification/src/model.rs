//! The local records of a note: its metadata, of which there is one per
//! stable identity, and its bodies, one per version.

use crate::headers::{
    required_header, HeaderKey, HeaderParser, HeaderSeq, MissingHeaderError, NoteHeaders,
};
use crate::note::{LocalNote, LocalNoteView, RemoteNoteMetaData};
use crate::profile::Profile;
use crate::text::{
    decimal_text, escape_for_filesystem, first_line, i64_to_string, spec_escaped, spec_first_line,
};
use crate::util::{generate_uuid, is_uuid_text};
use vstd::prelude::*;
use vstd::std_specs::cmp::PartialEqSpecImpl;

verus! {

/// What is known of a note whatever its version.
#[derive(Debug)]
pub struct NotesMetadata {
    /// The mailbox that holds the note.
    pub subfolder: String,
    pub locally_deleted: bool,
    pub locally_edited: bool,
    /// True until the note was published for the first time.
    pub new: bool,
    pub date: String,
    /// The note's stable identity, which never changes.
    pub uuid: String,
    pub mime_version: String,
}

/// The mathematical model of a `NotesMetadata`.
pub struct NotesMetadataView {
    pub subfolder: Seq<char>,
    pub locally_deleted: bool,
    pub locally_edited: bool,
    pub new: bool,
    pub date: Seq<char>,
    pub uuid: Seq<char>,
    pub mime_version: Seq<char>,
}

impl View for NotesMetadata {
    type V = NotesMetadataView;

    open spec fn view(&self) -> NotesMetadataView {
        NotesMetadataView {
            subfolder: self.subfolder@,
            locally_deleted: self.locally_deleted,
            locally_edited: self.locally_edited,
            new: self.new,
            date: self.date@,
            uuid: self.uuid@,
            mime_version: self.mime_version@,
        }
    }
}

impl Clone for NotesMetadata {
    fn clone(&self) -> (copy: Self)
        ensures
            copy@ == self@,
    {
        NotesMetadata {
            subfolder: self.subfolder.clone(),
            locally_deleted: self.locally_deleted,
            locally_edited: self.locally_edited,
            new: self.new,
            date: self.date.clone(),
            uuid: self.uuid.clone(),
            mime_version: self.mime_version.clone(),
        }
    }
}

impl PartialEq for NotesMetadata {
    /// Two metadata records are the same note where their identities agree.
    fn eq(&self, other: &Self) -> (same: bool) {
        self.uuid == other.uuid
    }
}

impl Eq for NotesMetadata {

}

impl PartialEqSpecImpl for NotesMetadata {
    open spec fn obeys_eq_spec() -> bool {
        true
    }

    open spec fn eq_spec(&self, other: &Self) -> bool {
        self.uuid@ == other.uuid@
    }
}

/// The metadata that the headers of a published message give for a note in
/// `subfolder`, or the first header that is absent among date, identity and
/// MIME version.
pub open spec fn metadata_of_headers(headers: HeaderSeq, subfolder: Seq<char>) -> Result<
    NotesMetadataView,
    MissingHeaderError,
> {
    match required_header(headers, HeaderKey::Date) {
        Err(e) => Err(e),
        Ok(date) => match required_header(headers, HeaderKey::Uuid) {
            Err(e) => Err(e),
            Ok(uuid) => match required_header(headers, HeaderKey::MimeVersion) {
                Err(e) => Err(e),
                Ok(mime_version) => Ok(
                    NotesMetadataView {
                        subfolder,
                        locally_deleted: false,
                        locally_edited: false,
                        new: false,
                        date,
                        uuid,
                        mime_version,
                    },
                ),
            },
        },
    }
}

/// Whether reading metadata gave what the model says: the same metadata, or
/// the same error.
pub open spec fn is_metadata_result(
    result: Result<NotesMetadata, MissingHeaderError>,
    expected: Result<NotesMetadataView, MissingHeaderError>,
) -> bool {
    match result {
        Ok(m) => expected == Ok::<NotesMetadataView, MissingHeaderError>(m@),
        Err(e) => expected == Err::<NotesMetadataView, MissingHeaderError>(e),
    }
}

impl NotesMetadata {
    /// The metadata of the note that the record `remote_metadata` is a copy
    /// of: in the record's folder, published, and neither edited nor deleted
    /// locally.
    pub fn from_remote_metadata(remote_metadata: &RemoteNoteMetaData) -> (metadata: Result<
        Self,
        MissingHeaderError,
    >)
        ensures
            is_metadata_result(
                metadata,
                metadata_of_headers(remote_metadata@.headers, remote_metadata@.folder),
            ),
    {
        NotesMetadata::new(&remote_metadata.headers, remote_metadata.folder.clone())
    }

    /// The metadata of a note that was found on the server in `subfolder` with
    /// the headers `header`: published, and neither edited nor deleted locally.
    pub fn new(header: &NoteHeaders, subfolder: String) -> (metadata: Result<
        Self,
        MissingHeaderError,
    >)
        ensures
            is_metadata_result(metadata, metadata_of_headers(header.deep_view(), subfolder@)),
    {
        let date = match header.date() {
            Ok(date) => date,
            Err(e) => {
                return Err(e);
            },
        };
        let uuid = match header.uuid() {
            Ok(uuid) => uuid,
            Err(e) => {
                return Err(e);
            },
        };
        let mime_version = match header.mime_version() {
            Ok(mime_version) => mime_version,
            Err(e) => {
                return Err(e);
            },
        };
        Ok(
            NotesMetadata {
                subfolder,
                locally_deleted: false,
                locally_edited: false,
                new: false,
                date,
                uuid,
                mime_version,
            },
        )
    }
}

/// One version of a note.
#[derive(Debug)]
pub struct Body {
    /// The version token that this body supersedes, present while the edit
    /// that made this body has not been published.
    pub old_remote_message_id: Option<String>,
    /// The version token, which changes with every edit.
    pub message_id: String,
    pub text: Option<String>,
    /// Where the server holds this version, absent while it is unpublished.
    pub uid: Option<i64>,
    /// The identity of the note that this is a version of.
    pub metadata_uuid: String,
}

/// The mathematical model of a `Body`.
pub struct BodyView {
    pub old_remote_message_id: Option<Seq<char>>,
    pub message_id: Seq<char>,
    pub text: Option<Seq<char>>,
    pub uid: Option<i64>,
    pub metadata_uuid: Seq<char>,
}

impl View for Body {
    type V = BodyView;

    open spec fn view(&self) -> BodyView {
        BodyView {
            old_remote_message_id: self.old_remote_message_id.deep_view(),
            message_id: self.message_id@,
            text: self.text.deep_view(),
            uid: self.uid,
            metadata_uuid: self.metadata_uuid@,
        }
    }
}

/// Copies a text that may be absent.
pub fn clone_text(text: &Option<String>) -> (copy: Option<String>)
    ensures
        copy.deep_view() == text.deep_view(),
{
    match text {
        Some(t) => Some(t.clone()),
        None => None,
    }
}

impl Clone for Body {
    fn clone(&self) -> (copy: Self)
        ensures
            copy@ == self@,
    {
        Body {
            old_remote_message_id: clone_text(&self.old_remote_message_id),
            message_id: self.message_id.clone(),
            text: clone_text(&self.text),
            uid: self.uid,
            metadata_uuid: self.metadata_uuid.clone(),
        }
    }
}

impl BodyView {
    /// Whether two bodies are the same version of the same note.
    pub open spec fn same_version(self, other: BodyView) -> bool {
        self.message_id == other.message_id && self.metadata_uuid == other.metadata_uuid
    }

    /// The subject of the version: the first line of its text, empty where it
    /// has no text.
    pub open spec fn subject(self) -> Seq<char> {
        match self.text {
            Some(text) => spec_first_line(text),
            None => Seq::<char>::empty(),
        }
    }

    /// The name under which the version is filed: its location, or `new`
    /// where it has none, then an underscore and the escaped subject.
    pub open spec fn subject_with_identifier(self) -> Seq<char> {
        let prefix = match self.uid {
            Some(uid) => decimal_text(uid as int),
            None => "new"@,
        };
        prefix + "_"@ + spec_escaped(self.subject())
    }
}

/// The predicate that holds of the bodies that are the same version as
/// `body`.
pub open spec fn same_version_as(body: BodyView) -> spec_fn(BodyView) -> bool {
    |other: BodyView| other.same_version(body)
}

impl BodyView {
    /// Whether this body is a version of `note`: the note has this body's
    /// identity, and exactly one of its versions is the same version as this
    /// body.
    pub open spec fn is_inside(self, note: LocalNoteView) -> bool {
        note.metadata.uuid == self.metadata_uuid && note.body.filter(same_version_as(self)).len()
            == 1
    }
}

impl PartialEq for Body {
    /// Two bodies are the same where version token and note identity agree.
    fn eq(&self, other: &Self) -> (same: bool) {
        self.message_id == other.message_id && self.metadata_uuid == other.metadata_uuid
    }
}

impl Eq for Body {

}

impl PartialEqSpecImpl for Body {
    open spec fn obeys_eq_spec() -> bool {
        true
    }

    open spec fn eq_spec(&self, other: &Self) -> bool {
        self@.same_version(other@)
    }
}

/// The version that the record with the headers `headers` at the location
/// `uid` is a copy of, with the content `text`: published, so that it
/// supersedes nothing. The first header that is absent among version token
/// and identity is the error.
pub open spec fn body_of_record(headers: HeaderSeq, uid: i64, text: Option<Seq<char>>) -> Result<
    BodyView,
    MissingHeaderError,
> {
    match required_header(headers, HeaderKey::MessageId) {
        Err(e) => Err(e),
        Ok(message_id) => match required_header(headers, HeaderKey::Uuid) {
            Err(e) => Err(e),
            Ok(uuid) => Ok(
                BodyView {
                    old_remote_message_id: None,
                    message_id,
                    text,
                    uid: Some(uid),
                    metadata_uuid: uuid,
                },
            ),
        },
    }
}

/// The version token that is minted from the fresh identity `token` under
/// `domain`.
pub open spec fn minted_message_id(token: Seq<char>, domain: Seq<char>) -> Seq<char> {
    "<"@ + token + "@"@ + domain
}

/// The unpublished body of the note `metadata_reference` whose version token
/// is minted from `token` under `domain`.
pub open spec fn minted_body(
    uid: Option<i64>,
    metadata_reference: Seq<char>,
    token: Seq<char>,
    domain: Seq<char>,
) -> BodyView {
    BodyView {
        old_remote_message_id: None,
        message_id: minted_message_id(token, domain),
        text: None,
        uid,
        metadata_uuid: metadata_reference,
    }
}

impl Body {
    /// A body without text for the note `metadata_reference`, under a fresh
    /// version token of this profile's domain.
    pub fn new(uid: Option<i64>, metadata_reference: String, profile: &Profile) -> (body: Body)
        ensures
            exists|token: Seq<char>|
                is_uuid_text(token) && body@ == minted_body(
                    uid,
                    metadata_reference@,
                    token,
                    profile@.domain,
                ),
    {
        let token = generate_uuid();
        Body::with_token(uid, metadata_reference, token.as_str(), profile.domain.as_str())
    }

    /// The version that the record `remote_metadata` is a copy of, with the
    /// content `text` that was fetched for it.
    pub fn from_remote_metadata(remote_metadata: &RemoteNoteMetaData, text: Option<String>) -> (body:
        Result<Body, MissingHeaderError>)
        ensures
            match body {
                Ok(b) => body_of_record(
                    remote_metadata@.headers,
                    remote_metadata@.uid,
                    text.deep_view(),
                ) == Ok::<BodyView, MissingHeaderError>(b@),
                Err(e) => body_of_record(
                    remote_metadata@.headers,
                    remote_metadata@.uid,
                    text.deep_view(),
                ) == Err::<BodyView, MissingHeaderError>(e),
            },
    {
        let message_id = match remote_metadata.headers.message_id() {
            Ok(message_id) => message_id,
            Err(e) => {
                return Err(e);
            },
        };
        let uuid = match remote_metadata.headers.uuid() {
            Ok(uuid) => uuid,
            Err(e) => {
                return Err(e);
            },
        };
        Ok(
            Body {
                old_remote_message_id: None,
                message_id,
                text,
                uid: Some(remote_metadata.uid),
                metadata_uuid: uuid,
            },
        )
    }

    /// A body without text for the note `metadata_reference`, whose version
    /// token is minted from `token` under `domain`.
    pub fn with_token(uid: Option<i64>, metadata_reference: String, token: &str, domain: &str) -> (body:
        Body)
        ensures
            body@ == minted_body(uid, metadata_reference@, token@, domain@),
    {
        let mut message_id = "<".to_owned();
        message_id.append(token);
        message_id.append("@");
        message_id.append(domain);
        Body {
            old_remote_message_id: None,
            message_id,
            text: None,
            uid,
            metadata_uuid: metadata_reference,
        }
    }

    /// The subject of the version: the first line of its text.
    pub fn subject(&self) -> (subject: String)
        ensures
            subject@ == self@.subject(),
    {
        match &self.text {
            Some(text) => first_line(text.as_str()),
            None => String::new(),
        }
    }

    /// The name under which the version is filed.
    pub fn subject_with_identifier(&self) -> (name: String)
        ensures
            name@ == self@.subject_with_identifier(),
    {
        let mut name = match self.uid {
            Some(uid) => i64_to_string(uid),
            None => "new".to_owned(),
        };
        name.append("_");
        name.append(self.subject_escaped().as_str());
        name
    }

    /// Whether this body is a version of `local_note`: the note has this
    /// body's identity, and exactly one of its versions is the same version
    /// as this body.
    pub fn is_inside_localnote(&self, local_note: &LocalNote) -> (inside: bool)
        ensures
            inside == self@.is_inside(local_note@),
    {
        if local_note.metadata.uuid != self.metadata_uuid {
            return false;
        }
        let mut count: usize = 0;
        let mut i: usize = 0;
        proof {
            assert(local_note@.body.take(0) =~= Seq::<BodyView>::empty());
            Seq::<BodyView>::empty().lemma_filter_len(same_version_as(self@));
        }
        while i < local_note.body.len()
            invariant
                i <= local_note.body.len(),
                count <= i,
                count == local_note@.body.take(i as int).filter(same_version_as(self@)).len(),
            decreases local_note.body.len() - i,
        {
            proof {
                let seen = local_note@.body.take(i as int);
                assert(local_note@.body.take(i + 1) =~= seen.push(local_note@.body[i as int]));
                seen.lemma_filter_push(local_note@.body[i as int], same_version_as(self@));
            }
            if local_note.body[i] == *self {
                count += 1;
            }
            i += 1;
        }
        assert(local_note@.body.take(local_note.body.len() as int) =~= local_note@.body);
        count == 1
    }

    /// The subject in its file-system safe form.
    pub fn subject_escaped(&self) -> (subject: String)
        ensures
            subject@ == spec_escaped(self@.subject()),
    {
        escape_for_filesystem(self.subject().as_str())
    }
}

} // verus!
