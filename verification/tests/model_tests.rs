use apple_notes_rs_lib::headers::{HeaderKey, MissingHeaderError, NoteHeaders};
use apple_notes_rs_lib::model::{clone_text, Body, NotesMetadata};
use apple_notes_rs_lib::note::{LocalNote, RemoteNoteMetaData};
use apple_notes_rs_lib::profile::Profile;

fn pair(key: &str, value: &str) -> (String, String) {
    (key.to_string(), value.to_string())
}

fn profile() -> Profile {
    Profile {
        email: "me@example.org".to_string(),
        domain: "example.org".to_string(),
        imap_server: "imap.example.org".to_string(),
    }
}

fn metadata(uuid: &str) -> NotesMetadata {
    NotesMetadata {
        subfolder: "Notes".to_string(),
        locally_deleted: false,
        locally_edited: false,
        new: false,
        date: "Tue, 1 Jul 2003 10:52:37 +0000".to_string(),
        uuid: uuid.to_string(),
        mime_version: "1.0".to_string(),
    }
}

fn body(message_id: &str, uuid: &str, text: Option<&str>, uid: Option<i64>) -> Body {
    Body {
        old_remote_message_id: None,
        message_id: message_id.to_string(),
        text: text.map(|t| t.to_string()),
        uid,
        metadata_uuid: uuid.to_string(),
    }
}

fn remote_headers() -> NoteHeaders {
    vec![
        pair("Date", "Wed, 2 Jul 2003 09:00:00 +0000"),
        pair("X-Universally-Unique-Identifier", "U1"),
        pair("Mime-Version", "1.0 (Mac OS X Notes 4.6 \\(879.10\\))"),
        pair("Subject", "Shopping list"),
    ]
}

#[test]
fn metadata_new_reads_date_identity_and_mime_version() {
    let m = NotesMetadata::new(&remote_headers(), "Notes/Work".to_string()).unwrap();
    assert_eq!(m.subfolder, "Notes/Work");
    assert_eq!(m.date, "Wed, 2 Jul 2003 09:00:00 +0000");
    assert_eq!(m.uuid, "U1");
    assert_eq!(m.mime_version, "1.0 (Mac OS X Notes 4.6 \\(879.10\\))");
    assert!(!m.locally_deleted);
    assert!(!m.locally_edited);
    assert!(!m.new);
}

#[test]
fn metadata_new_names_the_first_absent_header() {
    let none: NoteHeaders = Vec::new();
    assert_eq!(
        NotesMetadata::new(&none, "Notes".to_string()).unwrap_err(),
        MissingHeaderError { key: HeaderKey::Date }
    );
    let only_date = vec![pair("Date", "d")];
    assert_eq!(
        NotesMetadata::new(&only_date, "Notes".to_string()).unwrap_err(),
        MissingHeaderError { key: HeaderKey::Uuid }
    );
    let no_mime = vec![pair("Date", "d"), pair("X-Universally-Unique-Identifier", "U")];
    assert_eq!(
        NotesMetadata::new(&no_mime, "Notes".to_string()).unwrap_err(),
        MissingHeaderError { key: HeaderKey::MimeVersion }
    );
}

#[test]
fn metadata_from_remote_metadata_takes_the_record_folder() {
    let record =
        RemoteNoteMetaData { headers: remote_headers(), folder: "Notes/Home".to_string(), uid: 7 };
    let m = NotesMetadata::from_remote_metadata(&record).unwrap();
    assert_eq!(m.subfolder, "Notes/Home");
    assert_eq!(m.uuid, "U1");
    assert_eq!(m.date, "Wed, 2 Jul 2003 09:00:00 +0000");
    assert!(!m.new);
}

#[test]
fn metadata_from_remote_metadata_fails_without_identity() {
    let record = RemoteNoteMetaData {
        headers: vec![pair("Date", "d"), pair("Mime-Version", "1.0")],
        folder: "Notes".to_string(),
        uid: 7,
    };
    assert_eq!(
        NotesMetadata::from_remote_metadata(&record).unwrap_err(),
        MissingHeaderError { key: HeaderKey::Uuid }
    );
}

#[test]
fn metadata_equality_is_by_identity() {
    let mut a = metadata("U1");
    let b = metadata("U1");
    a.subfolder = "Elsewhere".to_string();
    a.new = true;
    assert!(a == b);
    assert!(a != metadata("U2"));
}

#[test]
fn metadata_clone_keeps_every_field() {
    let mut a = metadata("U1");
    a.locally_deleted = true;
    a.new = true;
    let c = a.clone();
    assert_eq!(c.subfolder, a.subfolder);
    assert_eq!(c.locally_deleted, true);
    assert_eq!(c.locally_edited, false);
    assert_eq!(c.new, true);
    assert_eq!(c.date, a.date);
    assert_eq!(c.uuid, a.uuid);
    assert_eq!(c.mime_version, a.mime_version);
}

#[test]
fn body_with_token_mints_the_version_token() {
    let b = Body::with_token(Some(5), "U1".to_string(), "tok", "example.org");
    assert_eq!(b.message_id, "<tok@example.org");
    assert_eq!(b.old_remote_message_id, None);
    assert_eq!(b.text, None);
    assert_eq!(b.uid, Some(5));
    assert_eq!(b.metadata_uuid, "U1");
}

#[test]
fn body_new_mints_a_fresh_token_under_the_domain() {
    let a = Body::new(None, "U1".to_string(), &profile());
    let b = Body::new(None, "U1".to_string(), &profile());
    assert!(a.message_id.starts_with('<'));
    assert!(a.message_id.ends_with("@example.org"));
    assert_eq!(a.message_id.len(), 1 + 36 + 1 + "example.org".len());
    assert_ne!(a.message_id, b.message_id);
    assert_eq!(a.uid, None);
    assert_eq!(a.text, None);
    assert_eq!(a.metadata_uuid, "U1");
}

#[test]
fn body_subject_is_the_first_line() {
    assert_eq!(body("m", "U", Some("Title\nrest"), None).subject(), "Title");
    assert_eq!(body("m", "U", Some("Title\r\nrest"), None).subject(), "Title");
    assert_eq!(body("m", "U", Some(""), None).subject(), "");
    assert_eq!(body("m", "U", None, None).subject(), "");
}

#[test]
fn body_subject_escaped_is_safe_for_files() {
    assert_eq!(body("m", "U", Some("To do: a/b?\nrest"), None).subject_escaped(), "To_do_a_b");
}

#[test]
fn body_subject_with_identifier_uses_location_or_new() {
    assert_eq!(
        body("m", "U", Some("My note\nrest"), Some(42)).subject_with_identifier(),
        "42_My_note"
    );
    assert_eq!(body("m", "U", Some("My note"), None).subject_with_identifier(), "new_My_note");
    assert_eq!(body("m", "U", None, Some(0)).subject_with_identifier(), "0_");
    assert_eq!(body("m", "U", Some("x"), Some(-17)).subject_with_identifier(), "-17_x");
    assert_eq!(
        body("m", "U", Some("x"), Some(9223372036854775807)).subject_with_identifier(),
        "9223372036854775807_x"
    );
    assert_eq!(
        body("m", "U", Some("x"), Some(i64::MIN)).subject_with_identifier(),
        "-9223372036854775808_x"
    );
    assert_eq!(body("m", "U", Some("x"), Some(1000)).subject_with_identifier(), "1000_x");
}

#[test]
fn body_equality_is_by_token_and_note() {
    let a = body("m1", "U1", Some("one"), Some(1));
    let b = body("m1", "U1", Some("two"), None);
    assert!(a == b);
    assert!(a != body("m2", "U1", Some("one"), Some(1)));
    assert!(a != body("m1", "U2", Some("one"), Some(1)));
}

#[test]
fn body_clone_keeps_every_field() {
    let mut a = body("m1", "U1", Some("text"), Some(3));
    a.old_remote_message_id = Some("m0".to_string());
    let c = a.clone();
    assert_eq!(c.old_remote_message_id, Some("m0".to_string()));
    assert_eq!(c.message_id, "m1");
    assert_eq!(c.text, Some("text".to_string()));
    assert_eq!(c.uid, Some(3));
    assert_eq!(c.metadata_uuid, "U1");
}

#[test]
fn clone_text_copies_present_and_absent() {
    assert_eq!(clone_text(&Some("abc".to_string())), Some("abc".to_string()));
    assert_eq!(clone_text(&None), None);
}

#[test]
fn body_is_inside_its_note() {
    let note = LocalNote {
        metadata: metadata("U1"),
        body: vec![body("m1", "U1", None, None), body("m2", "U1", None, None)],
    };
    assert!(body("m1", "U1", Some("other text"), Some(9)).is_inside_localnote(&note));
    assert!(body("m2", "U1", None, None).is_inside_localnote(&note));
}

#[test]
fn body_is_not_inside_another_note() {
    let note = LocalNote { metadata: metadata("U1"), body: vec![body("m1", "U1", None, None)] };
    assert!(!body("m1", "U2", None, None).is_inside_localnote(&note));
    assert!(!body("m3", "U1", None, None).is_inside_localnote(&note));
    let empty = LocalNote { metadata: metadata("U1"), body: vec![] };
    assert!(!body("m1", "U1", None, None).is_inside_localnote(&empty));
}

#[test]
fn body_is_not_inside_where_it_occurs_twice() {
    let note = LocalNote {
        metadata: metadata("U1"),
        body: vec![body("m1", "U1", None, None), body("m1", "U1", Some("again"), None)],
    };
    assert!(!body("m1", "U1", None, None).is_inside_localnote(&note));
}

#[test]
fn profile_domain_and_clone() {
    let p = profile();
    assert_eq!(p.domain(), "example.org");
    let c = p.clone();
    assert_eq!(c.email, "me@example.org");
    assert_eq!(c.domain, "example.org");
    assert_eq!(c.imap_server, "imap.example.org");
}

#[test]
fn body_from_remote_metadata_reads_token_and_identity() {
    let mut headers = remote_headers();
    headers.push(pair("Message-Id", "<m1@example.org>"));
    let record = RemoteNoteMetaData { headers, folder: "Notes".to_string(), uid: 7 };
    let b = Body::from_remote_metadata(&record, Some("Title\nrest".to_string())).unwrap();
    assert_eq!(b.message_id, "<m1@example.org>");
    assert_eq!(b.metadata_uuid, "U1");
    assert_eq!(b.uid, Some(7));
    assert_eq!(b.old_remote_message_id, None);
    assert_eq!(b.text, Some("Title\nrest".to_string()));
    assert_eq!(b.subject(), "Title");
}

#[test]
fn body_from_remote_metadata_names_the_first_absent_header() {
    let record = RemoteNoteMetaData { headers: vec![], folder: "Notes".to_string(), uid: 7 };
    assert_eq!(
        Body::from_remote_metadata(&record, None).unwrap_err(),
        MissingHeaderError { key: HeaderKey::MessageId }
    );
    let record = RemoteNoteMetaData {
        headers: vec![pair("Message-Id", "m")],
        folder: "Notes".to_string(),
        uid: 7,
    };
    assert_eq!(
        Body::from_remote_metadata(&record, None).unwrap_err(),
        MissingHeaderError { key: HeaderKey::Uuid }
    );
}
