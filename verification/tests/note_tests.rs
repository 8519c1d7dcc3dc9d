use apple_notes_rs_lib::headers::{HeaderKey, HeaderParser, MissingHeaderError, NoteHeaders};
use apple_notes_rs_lib::model::{Body, NotesMetadata};
use apple_notes_rs_lib::note::{
    IdentifyableNote, LocalNote, MergeableNoteBody, NoteError, RemoteNoteHeaderCollection,
    RemoteNoteMetaData,
};
use apple_notes_rs_lib::profile::Profile;

fn pair(key: &str, value: &str) -> (String, String) {
    (key.to_string(), value.to_string())
}

fn profile() -> Profile {
    Profile {
        email: "me@example.org".to_string(),
        domain: "example.org".to_string(),
        imap_server: "imap.example.org".to_string(),
    }
}

fn metadata(uuid: &str) -> NotesMetadata {
    NotesMetadata {
        subfolder: "Notes".to_string(),
        locally_deleted: false,
        locally_edited: false,
        new: false,
        date: "Tue, 1 Jul 2003 10:52:37 +0000".to_string(),
        uuid: uuid.to_string(),
        mime_version: "1.0".to_string(),
    }
}

fn body(message_id: &str, text: &str, uid: Option<i64>) -> Body {
    Body {
        old_remote_message_id: None,
        message_id: message_id.to_string(),
        text: Some(text.to_string()),
        uid,
        metadata_uuid: "U1".to_string(),
    }
}

fn note(bodies: Vec<Body>) -> LocalNote {
    LocalNote { metadata: metadata("U1"), body: bodies }
}

fn record(uuid: &str, message_id: &str, uid: i64) -> RemoteNoteMetaData {
    RemoteNoteMetaData {
        headers: vec![
            pair("X-Universally-Unique-Identifier", uuid),
            pair("Message-Id", message_id),
            pair("Folder", "Notes"),
        ],
        folder: "Notes".to_string(),
        uid,
    }
}

fn record_without_message_id(uid: i64) -> RemoteNoteMetaData {
    RemoteNoteMetaData {
        headers: vec![pair("X-Universally-Unique-Identifier", "U1")],
        folder: "Notes".to_string(),
        uid,
    }
}

#[test]
fn needs_merge_is_true_iff_more_than_one_version() {
    assert!(!note(vec![]).needs_merge());
    assert!(!note(vec![body("m1", "a", None)]).needs_merge());
    assert!(note(vec![body("m1", "a", None), body("m2", "b", None)]).needs_merge());
    assert!(note(vec![body("m1", "a", None), body("m2", "b", None), body("m3", "c", None)])
        .needs_merge());
}

#[test]
fn needs_local_merge_is_true_iff_more_than_one_member() {
    assert!(!note(vec![]).needs_local_merge());
    assert!(!note(vec![body("m1", "a", None)]).needs_local_merge());
    assert!(note(vec![body("m1", "a", None), body("m2", "b", None)]).needs_local_merge());
    let none: RemoteNoteHeaderCollection = vec![];
    assert!(!none.needs_local_merge());
    assert!(!vec![record("U1", "m1", 1)].needs_local_merge());
    assert!(vec![record("U1", "m1", 1), record("U1", "m2", 2)].needs_local_merge());
}

#[test]
fn to_header_vector_yields_the_ten_headers_in_order() {
    let n = note(vec![body("<m1@example.org>", "Shopping list\nmilk\neggs", Some(4))]);
    let headers = n.to_header_vector(&profile());
    let expected: NoteHeaders = vec![
        pair("X-Uniform-Type-Identifier", "com.apple.mail-note"),
        pair("Content-Type", "text/html; charset=utf-8"),
        pair("Content-Transfer-Encoding", "quoted-printable"),
        pair("Mime-Version", "1.0 (Mac OS X Notes 4.6 \\(879.10\\))"),
        pair("Date", "Tue, 1 Jul 2003 10:52:37 +0000"),
        pair("X-Mail-Created-Date", "Tue, 1 Jul 2003 10:52:37 +0000"),
        pair("From", "me@example.org"),
        pair("Message-Id", "<m1@example.org>"),
        pair("X-Universally-Unique-Identifier", "U1"),
        pair("Subject", "Shopping list"),
    ];
    assert_eq!(headers, expected);
}

#[test]
fn to_header_vector_holds_every_required_key() {
    let n = note(vec![body("<m1@example.org>", "Title", None)]);
    let headers = n.to_header_vector(&profile());
    let keys = [
        HeaderKey::TypeIdentifier,
        HeaderKey::ContentType,
        HeaderKey::TransferEncoding,
        HeaderKey::MimeVersion,
        HeaderKey::Date,
        HeaderKey::CreatedDate,
        HeaderKey::From,
        HeaderKey::MessageId,
        HeaderKey::Uuid,
        HeaderKey::Subject,
    ];
    for key in keys.iter() {
        assert!(headers.get_header_value(key.name()).is_some());
    }
    assert_eq!(headers.subject(), Ok("Title".to_string()));
    assert_eq!(headers.uuid(), Ok("U1".to_string()));
}

#[test]
fn to_header_vector_of_body_without_text_has_empty_subject() {
    let mut b = body("m1", "", None);
    b.text = None;
    let headers = note(vec![b]).to_header_vector(&profile());
    assert_eq!(headers.subject(), Ok("".to_string()));
}

#[test]
fn content_changed_locally_iff_a_version_supersedes_another() {
    assert!(!note(vec![]).content_changed_locally());
    assert!(!note(vec![body("m1", "a", None), body("m2", "b", None)]).content_changed_locally());
    let mut edited = body("m2", "b", None);
    edited.old_remote_message_id = Some("m0".to_string());
    assert!(note(vec![body("m1", "a", None), edited.clone()]).content_changed_locally());
    assert!(note(vec![edited]).content_changed_locally());
}

#[test]
fn changed_remotely_when_counts_differ() {
    let n = note(vec![body("m1", "a", None)]);
    assert_eq!(n.changed_remotely(&vec![]), Ok(true));
    assert_eq!(n.changed_remotely(&vec![record("U1", "m1", 1), record("U1", "m2", 2)]), Ok(true));
    assert_eq!(note(vec![]).changed_remotely(&vec![record("U1", "m1", 1)]), Ok(true));
}

#[test]
fn changed_remotely_when_counts_differ_even_without_tokens() {
    let n = note(vec![body("m1", "a", None)]);
    assert_eq!(
        n.changed_remotely(&vec![record_without_message_id(1), record_without_message_id(2)]),
        Ok(true)
    );
}

#[test]
fn unchanged_remotely_when_tokens_are_the_same_set() {
    let one = note(vec![body("m1", "a", None)]);
    assert_eq!(one.changed_remotely(&vec![record("U1", "m1", 1)]), Ok(false));
    let two = note(vec![body("m1", "a", None), body("m2", "b", None)]);
    assert_eq!(
        two.changed_remotely(&vec![record("U1", "m2", 2), record("U1", "m1", 1)]),
        Ok(false)
    );
    assert_eq!(note(vec![]).changed_remotely(&vec![]), Ok(false));
}

#[test]
fn changed_remotely_when_a_token_differs() {
    let one = note(vec![body("m1", "a", None)]);
    assert_eq!(one.changed_remotely(&vec![record("U1", "m9", 1)]), Ok(true));
    let two = note(vec![body("m1", "a", None), body("m2", "b", None)]);
    assert_eq!(
        two.changed_remotely(&vec![record("U1", "m1", 1), record("U1", "m3", 3)]),
        Ok(true)
    );
}

#[test]
fn changed_remotely_compares_sets_in_both_directions() {
    let local_twice = note(vec![body("m1", "a", None), body("m1", "a", None)]);
    assert_eq!(
        local_twice.changed_remotely(&vec![record("U1", "m1", 1), record("U1", "m2", 2)]),
        Ok(true)
    );
    let local_two = note(vec![body("m1", "a", None), body("m2", "b", None)]);
    assert_eq!(
        local_two.changed_remotely(&vec![record("U1", "m1", 1), record("U1", "m1", 2)]),
        Ok(true)
    );
    assert_eq!(
        local_twice.changed_remotely(&vec![record("U1", "m1", 1), record("U1", "m1", 2)]),
        Ok(false)
    );
}

#[test]
fn changed_remotely_fails_on_record_without_token() {
    let one = note(vec![body("m1", "a", None)]);
    assert_eq!(
        one.changed_remotely(&vec![record_without_message_id(1)]),
        Err(MissingHeaderError { key: HeaderKey::MessageId })
    );
}

#[test]
fn to_remote_metadata_of_published_note() {
    let n = note(vec![body("<m1@example.org>", "Title\nrest", Some(12))]);
    let r = n.to_remote_metadata(&profile()).unwrap();
    assert_eq!(r.folder, "Notes");
    assert_eq!(r.uid, 12);
    assert_eq!(r.headers, n.to_header_vector(&profile()));
}

#[test]
fn to_remote_metadata_rejects_other_notes() {
    assert_eq!(note(vec![]).to_remote_metadata(&profile()).unwrap_err(), NoteError::Empty);
    assert_eq!(
        note(vec![body("m1", "a", Some(1)), body("m2", "b", Some(2))])
            .to_remote_metadata(&profile())
            .unwrap_err(),
        NoteError::NeedsMerge
    );
    assert_eq!(
        note(vec![body("m1", "a", None)]).to_remote_metadata(&profile()).unwrap_err(),
        NoteError::NotPublished
    );
}

#[test]
fn round_trip_through_remote_metadata() {
    let n = note(vec![body("<m1@example.org>", "Shopping list\nmilk", Some(3))]);
    let r = n.to_remote_metadata(&profile()).unwrap();
    assert_eq!(r.headers.uuid(), Ok("U1".to_string()));
    assert_eq!(r.headers.subject(), Ok("Shopping list".to_string()));
    assert_eq!(r.headers.message_id(), Ok("<m1@example.org>".to_string()));
    let m = NotesMetadata::from_remote_metadata(&r).unwrap();
    assert_eq!(m.uuid, "U1");
    assert_eq!(m.subfolder, "Notes");
    assert_eq!(m.date, "Tue, 1 Jul 2003 10:52:37 +0000");
}

#[test]
fn remote_records_of_local_versions() {
    let n = note(vec![body("<m1@x>", "One\nrest", Some(3)), body("<m2@x>", "Two", Some(4))]);
    let records = RemoteNoteMetaData::new(&n, &profile()).unwrap();
    assert_eq!(records.len(), 2);
    assert_eq!(records[0].uid, 3);
    assert_eq!(records[1].uid, 4);
    assert_eq!(records[0].folder, "Notes");
    assert_eq!(records[0].headers.uuid(), Ok("U1".to_string()));
    assert_eq!(records[1].headers.uuid(), Ok("U1".to_string()));
    assert_eq!(records[0].headers.message_id(), Ok("<m1@x>".to_string()));
    assert_eq!(records[1].headers.message_id(), Ok("<m2@x>".to_string()));
    assert_eq!(records[0].headers.subject(), Ok("One".to_string()));
    assert_eq!(records[1].headers.subject(), Ok("Two".to_string()));
    let keys: Vec<String> = records[0].headers.iter().map(|h| h.0.clone()).collect();
    assert_eq!(
        keys,
        vec![
            "Content-Type",
            "Content-Transfer-Encoding",
            "Mime-Version",
            "Date",
            "X-Mail-Created-Date",
            "X-Universally-Unique-Identifier",
            "Message-Id",
            "Subject"
        ]
    );
    assert_eq!(records[0].headers[3].1, records[0].headers[4].1);
}

#[test]
fn remote_records_need_a_location_for_each_version() {
    let n = note(vec![body("<m1@x>", "One", Some(3)), body("<m2@x>", "Two", None)]);
    assert_eq!(RemoteNoteMetaData::new(&n, &profile()).unwrap_err(), NoteError::NotPublished);
    assert_eq!(RemoteNoteMetaData::new(&note(vec![]), &profile()).unwrap().len(), 0);
}

#[test]
fn get_message_id_of_local_note() {
    assert_eq!(note(vec![body("m1", "a", None)]).get_message_id(), Ok(Some("m1".to_string())));
    assert_eq!(
        note(vec![body("m1", "a", None), body("m2", "b", None)]).get_message_id(),
        Ok(None)
    );
    assert_eq!(note(vec![]).get_message_id(), Err(NoteError::Empty));
}

#[test]
fn get_message_id_of_remote_group() {
    assert_eq!(vec![record("U1", "m1", 1)].get_message_id(), Ok(Some("m1".to_string())));
    assert_eq!(vec![record("U1", "m1", 1), record("U1", "m2", 2)].get_message_id(), Ok(None));
    let none: RemoteNoteHeaderCollection = vec![];
    assert_eq!(none.get_message_id(), Err(NoteError::Empty));
    assert_eq!(
        vec![record_without_message_id(1)].get_message_id(),
        Err(NoteError::MissingHeader(MissingHeaderError { key: HeaderKey::MessageId }))
    );
}

#[test]
fn all_message_ids_in_order() {
    assert_eq!(
        note(vec![body("m1", "a", None), body("m2", "b", None)]).all_message_ids(),
        Ok(vec!["m1".to_string(), "m2".to_string()])
    );
    assert_eq!(note(vec![]).all_message_ids(), Ok(vec![]));
    assert_eq!(
        vec![record("U1", "m2", 2), record("U1", "m1", 1)].all_message_ids(),
        Ok(vec!["m2".to_string(), "m1".to_string()])
    );
    assert_eq!(
        vec![record("U1", "m2", 2), record_without_message_id(3), record("U1", "m1", 1)]
            .all_message_ids(),
        Err(MissingHeaderError { key: HeaderKey::MessageId })
    );
}

#[test]
fn folder_and_uuid_of_local_records() {
    let m = metadata("U1");
    assert_eq!(m.folder(), Ok("Notes".to_string()));
    assert_eq!(m.uuid(), Ok("U1".to_string()));
    let n = note(vec![]);
    assert_eq!(n.folder(), Ok("Notes".to_string()));
    assert_eq!(n.uuid(), Ok("U1".to_string()));
}

#[test]
fn folder_and_uuid_of_remote_group_come_from_last_record() {
    let mut last = record("U2", "m2", 2);
    last.headers[2].1 = "Notes/Work".to_string();
    let group = vec![record("U1", "m1", 1), last];
    assert_eq!(group.folder(), Ok("Notes/Work".to_string()));
    assert_eq!(group.uuid(), Ok("U2".to_string()));
    let none: RemoteNoteHeaderCollection = vec![];
    assert_eq!(none.folder(), Err(NoteError::Empty));
    assert_eq!(none.uuid(), Err(NoteError::Empty));
    assert_eq!(
        vec![record_without_message_id(1)].folder(),
        Err(NoteError::MissingHeader(MissingHeaderError { key: HeaderKey::Folder }))
    );
}

#[test]
fn local_note_equality_is_by_identity() {
    let a = note(vec![body("m1", "a", None)]);
    let mut b = note(vec![]);
    assert!(a == b);
    b.metadata.uuid = "U2".to_string();
    assert!(a != b);
}

#[test]
fn remote_record_equality_is_by_stated_identity() {
    assert!(record("U1", "m1", 1) == record("U1", "m2", 2));
    assert!(record("U1", "m1", 1) != record("U2", "m1", 1));
    let no_id = RemoteNoteMetaData { headers: vec![], folder: "Notes".to_string(), uid: 1 };
    assert!(no_id != record("U1", "m1", 1));
    assert!(no_id == no_id.clone());
}

#[test]
fn clones_keep_everything() {
    let n = note(vec![body("m1", "a\nb", Some(1)), body("m2", "c", None)]);
    let c = n.clone();
    assert_eq!(c.metadata.uuid, "U1");
    assert_eq!(c.body.len(), 2);
    assert_eq!(c.body[0].text, Some("a\nb".to_string()));
    assert_eq!(c.body[1].message_id, "m2");
    let r = record("U1", "m1", 7);
    let rc = r.clone();
    assert_eq!(rc.headers, r.headers);
    assert_eq!(rc.folder, "Notes");
    assert_eq!(rc.uid, 7);
}
