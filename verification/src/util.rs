//! Fresh identities and the header set of a note that was never published.

use crate::headers::{push_header, set_header, with_header, HeaderKey, HeaderSeq, NoteHeaders};
use crate::model::{Body, BodyView, NotesMetadata, NotesMetadataView};
use crate::profile::Profile;
use vstd::prelude::*;

verus! {

/// Whether `c` is a digit of a lower-case hexadecimal number.
pub open spec fn is_lower_hex(c: char) -> bool {
    ('0' <= c && c <= '9') || ('a' <= c && c <= 'f')
}

/// Whether `text` has the shape of an identity in its hyphenated form: 36
/// characters, hyphens after the 8th, 12th, 16th and 20th digit, and
/// lower-case hexadecimal digits elsewhere.
pub open spec fn is_uuid_text(text: Seq<char>) -> bool {
    &&& text.len() == 36
    &&& forall|i: int|
        0 <= i < 36 ==> if i == 8 || i == 13 || i == 18 || i == 23 {
            #[trigger] text[i] == '-'
        } else {
            is_lower_hex(text[i])
        }
}

/// A fresh random identity in its hyphenated form.
///
/// Trusted: wraps `uuid::Uuid::new_v4` and the `Display` impl of `Uuid`,
/// which writes the hyphenated form in lower case. Which identity comes out
/// is left open: two calls differ.
#[verifier::external_body]
pub fn generate_uuid() -> (uuid: String)
    ensures
        is_uuid_text(uuid@),
{
    uuid::Uuid::new_v4().to_string()
}

/// The time of the call, as a date of a mail header.
///
/// Trusted: wraps `chrono::Utc::now` and `DateTime::to_rfc2822`, which
/// writes the date in the form `Tue, 1 Jul 2003 10:52:37 +0000`. Nothing is
/// promised of the result, which depends on the clock. The two functions
/// panic where the clock stands before 1970 or after the year 9999.
#[verifier::external_body]
fn current_date() -> (date: String) {
    chrono::Utc::now().to_rfc2822()
}

/// The content type that a new note states.
pub open spec fn new_note_content_type() -> Seq<char> {
    "text/html;\ncharset=utf-8"@
}

/// The version token of a new note, made of the fresh identity `token` under
/// `domain`.
pub open spec fn new_message_id(token: Seq<char>, domain: Seq<char>) -> Seq<char> {
    "<"@ + token + "@"@ + domain + ">"@
}

/// The headers of a note that was never published, written at `date` with
/// the identity `uuid` and a version token made of `token` under `domain`:
/// seven headers in a fixed order, still without a subject.
pub open spec fn new_note_headers(
    date: Seq<char>,
    uuid: Seq<char>,
    token: Seq<char>,
    domain: Seq<char>,
) -> HeaderSeq {
    seq![
        (HeaderKey::ContentType.spec_name(), new_note_content_type()),
        (HeaderKey::TransferEncoding.spec_name(), crate::note::note_transfer_encoding()),
        (HeaderKey::MimeVersion.spec_name(), crate::note::note_mime_version()),
        (HeaderKey::Date.spec_name(), date),
        (HeaderKey::CreatedDate.spec_name(), date),
        (HeaderKey::Uuid.spec_name(), uuid),
        (HeaderKey::MessageId.spec_name(), new_message_id(token, domain)),
    ]
}

/// Builds the header set of a note step by step.
pub struct HeaderBuilder {
    headers: NoteHeaders,
}

impl View for HeaderBuilder {
    type V = HeaderSeq;

    closed spec fn view(&self) -> HeaderSeq {
        self.headers.deep_view()
    }
}

impl HeaderBuilder {
    /// The headers of a note that is written now and was never published:
    /// the time of the call in both date headers, a fresh identity, and a
    /// fresh version token under the profile's domain.
    pub fn new(profile: &Profile) -> (builder: HeaderBuilder)
        ensures
            exists|date: Seq<char>, uuid: Seq<char>, token: Seq<char>|
                is_uuid_text(uuid) && is_uuid_text(token) && builder@ == new_note_headers(
                    date,
                    uuid,
                    token,
                    profile@.domain,
                ),
    {
        let date = current_date();
        let uuid = generate_uuid();
        let token = generate_uuid();
        let ghost (d, u) = (date@, uuid@);
        let builder = HeaderBuilder::with_identity(
            date,
            uuid,
            token.as_str(),
            profile.domain.as_str(),
        );
        assert(is_uuid_text(u) && is_uuid_text(token@) && builder@ == new_note_headers(
            d,
            u,
            token@,
            profile@.domain,
        ));
        builder
    }

    /// The headers of a note that was never published, written at `date`
    /// with the identity `uuid` and a version token made of `token` under
    /// `domain`.
    pub fn with_identity(date: String, uuid: String, token: &str, domain: &str) -> (builder:
        HeaderBuilder)
        ensures
            builder@ == new_note_headers(date@, uuid@, token@, domain@),
    {
        let mut message_id = "<".to_owned();
        message_id.append(token);
        message_id.append("@");
        message_id.append(domain);
        message_id.append(">");
        let mut headers: NoteHeaders = Vec::new();
        assert(headers.deep_view() =~= Seq::<(Seq<char>, Seq<char>)>::empty());
        push_header(&mut headers, HeaderKey::ContentType, "text/html;\ncharset=utf-8".to_owned());
        push_header(&mut headers, HeaderKey::TransferEncoding, "quoted-printable".to_owned());
        push_header(
            &mut headers,
            HeaderKey::MimeVersion,
            "1.0 (Mac OS X Notes 4.6 \\(879.10\\))".to_owned(),
        );
        push_header(&mut headers, HeaderKey::Date, date.clone());
        push_header(&mut headers, HeaderKey::CreatedDate, date);
        push_header(&mut headers, HeaderKey::Uuid, uuid);
        push_header(&mut headers, HeaderKey::MessageId, message_id);
        assert(headers.deep_view() =~= new_note_headers(date@, uuid@, token@, domain@));
        HeaderBuilder { headers }
    }

    /// Appends the subject.
    pub fn with_subject(self, subject: String) -> (builder: Self)
        ensures
            builder@ == self@.push((HeaderKey::Subject.spec_name(), subject@)),
    {
        let mut headers = self.headers;
        push_header(&mut headers, HeaderKey::Subject, subject);
        HeaderBuilder { headers }
    }

    /// Sets the stable identity in place of the one that is there.
    pub fn with_uuid(self, uuid: String) -> (builder: Self)
        ensures
            builder@ == with_header(self@, HeaderKey::Uuid.spec_name(), uuid@),
    {
        let mut headers = self.headers;
        set_header(&mut headers, HeaderKey::Uuid, uuid);
        HeaderBuilder { headers }
    }

    /// Sets the version token in place of the one that is there.
    pub fn with_message_id(self, message_id: String) -> (builder: Self)
        ensures
            builder@ == with_header(self@, HeaderKey::MessageId.spec_name(), message_id@),
    {
        let mut headers = self.headers;
        set_header(&mut headers, HeaderKey::MessageId, message_id);
        HeaderBuilder { headers }
    }

    /// The headers that were built.
    pub fn build(self) -> (headers: Vec<(String, String)>)
        ensures
            headers.deep_view() == self@,
    {
        self.headers
    }
}

/// The headers of a new note with the subject `subject`, written now under
/// `profile`: those of a note that was never published, then the subject.
pub fn generate_mail_headers(subject: String, profile: &Profile) -> (headers: Vec<(String, String)>)
    ensures
        exists|date: Seq<char>, uuid: Seq<char>, token: Seq<char>|
            is_uuid_text(uuid) && is_uuid_text(token) && headers.deep_view() == new_note_headers(
                date,
                uuid,
                token,
                profile@.domain,
            ).push((HeaderKey::Subject.spec_name(), subject@)),
{
    let fresh = HeaderBuilder::new(profile);
    let ghost (date, uuid, token) = choose|date: Seq<char>, uuid: Seq<char>, token: Seq<char>|
        is_uuid_text(uuid) && is_uuid_text(token) && fresh@ == new_note_headers(
            date,
            uuid,
            token,
            profile@.domain,
        );
    let headers = fresh.with_subject(subject).build();
    assert(is_uuid_text(uuid) && is_uuid_text(token) && headers.deep_view() == new_note_headers(
        date,
        uuid,
        token,
        profile@.domain,
    ).push((HeaderKey::Subject.spec_name(), subject@)));
    headers
}

/// The path of the file that keeps the hash of the file `file_name` in the
/// directory `parent`: in the same directory, under the file's name between
/// a leading dot and the ending `_hash`.
pub open spec fn spec_hash_path(parent: Seq<char>, file_name: Seq<char>) -> Seq<char> {
    parent + "/."@ + file_name + "_hash"@
}

/// The directory part of the path `path`: the path without its last
/// component, as the platform that the library is built for splits paths.
/// Nothing where the path ends in a root or is empty.
pub uninterp spec fn parent_of_path(path: Seq<char>) -> Option<Seq<char>>;

/// The file name of the path `path`: its last component, as the platform
/// that the library is built for splits paths. Nothing where the path ends
/// in `..` or has no component.
pub uninterp spec fn file_name_of_path(path: Seq<char>) -> Option<Seq<char>>;

/// The directory part of a path.
///
/// Trusted: wraps `std::path::Path::parent`, whose result is written with
/// `to_string_lossy`. What it gives is a function of the path alone and is
/// given a name; the contract says no more than that the result is the
/// named one.
#[verifier::external_body]
fn path_parent(path: &str) -> (parent: Option<String>)
    ensures
        match parent {
            Some(p) => parent_of_path(path@) == Some(p@),
            None => parent_of_path(path@) is None,
        },
{
    std::path::Path::new(path).parent().map(|p| p.to_string_lossy().into_owned())
}

/// The last component of a path.
///
/// Trusted: wraps `std::path::Path::file_name`, whose result is written
/// with `to_string_lossy`. What it gives is a function of the path alone
/// and is given a name; the contract says no more than that the result is
/// the named one.
#[verifier::external_body]
fn path_file_name(path: &str) -> (name: Option<String>)
    ensures
        match name {
            Some(n) => file_name_of_path(path@) == Some(n@),
            None => file_name_of_path(path@) is None,
        },
{
    std::path::Path::new(path).file_name().map(|n| n.to_string_lossy().into_owned())
}

/// The path of the file that keeps the hash of a file, from the two parts
/// of the file's path.
pub fn hash_path_of(parent: &str, file_name: &str) -> (path: String)
    ensures
        path@ == spec_hash_path(parent@, file_name@),
{
    let mut path = parent.to_owned();
    path.append("/.");
    path.append(file_name);
    path.append("_hash");
    path
}

/// The path of the file that keeps the hash of the file at `path`: made of
/// the path's directory part and its file name, and nothing where the path
/// lacks one of the two.
pub open spec fn hash_path_of_path(path: Seq<char>) -> Option<Seq<char>> {
    match (parent_of_path(path), file_name_of_path(path)) {
        (Some(parent), Some(file_name)) => Some(spec_hash_path(parent, file_name)),
        _ => None,
    }
}

/// The path of the file that keeps the hash of the file at `path`. There is
/// one exactly where the path has a directory part and a file name.
pub fn get_hash_path(path: &str) -> (hash_path: Option<String>)
    ensures
        match hash_path {
            Some(p) => hash_path_of_path(path@) == Some(p@),
            None => hash_path_of_path(path@) is None,
        },
{
    match (path_parent(path), path_file_name(path)) {
        (Some(parent), Some(file_name)) => Some(
            hash_path_of(parent.as_str(), file_name.as_str()),
        ),
        _ => None,
    }
}

/// The path of the file that holds a version of a note: under the notes
/// directory, in the note's folder, named by the version.
pub open spec fn spec_notes_file(
    notes_dir: Seq<char>,
    metadata: NotesMetadataView,
    body: BodyView,
) -> Seq<char> {
    notes_dir + "/"@ + metadata.subfolder + "/"@ + body.subject_with_identifier()
}

/// The path of the file that holds the version `body` of the note
/// `metadata` under the directory `notes_dir`.
pub fn get_notes_file_from_metadata(notes_dir: &str, metadata: &NotesMetadata, body: &Body) -> (path:
    String)
    ensures
        path@ == spec_notes_file(notes_dir@, metadata@, body@),
{
    let mut path = notes_dir.to_owned();
    path.append("/");
    path.append(metadata.subfolder.as_str());
    path.append("/");
    path.append(body.subject_with_identifier().as_str());
    path
}

} // verus!
