use apple_notes_rs_lib::headers::{HeaderParser, NoteHeaders};
use apple_notes_rs_lib::model::{Body, NotesMetadata};
use apple_notes_rs_lib::profile::Profile;
use apple_notes_rs_lib::util::{
    generate_mail_headers, generate_uuid, get_hash_path, get_notes_file_from_metadata,
    hash_path_of, HeaderBuilder,
};

fn pair(key: &str, value: &str) -> (String, String) {
    (key.to_string(), value.to_string())
}

fn profile() -> Profile {
    Profile {
        email: "me@example.org".to_string(),
        domain: "example.org".to_string(),
        imap_server: "imap.example.org".to_string(),
    }
}

fn has_uuid_shape(text: &str) -> bool {
    let chars: Vec<char> = text.chars().collect();
    chars.len() == 36
        && chars.iter().enumerate().all(|(i, c)| {
            if i == 8 || i == 13 || i == 18 || i == 23 {
                *c == '-'
            } else {
                ('0'..='9').contains(c) || ('a'..='f').contains(c)
            }
        })
}

#[test]
fn generated_uuid_has_hyphenated_lower_case_shape() {
    for _ in 0..20 {
        assert!(has_uuid_shape(&generate_uuid()));
    }
}

#[test]
fn generated_uuids_differ() {
    assert_ne!(generate_uuid(), generate_uuid());
}

#[test]
fn builder_with_identity_builds_the_fixed_headers() {
    let headers = HeaderBuilder::with_identity(
        "Tue, 1 Jul 2003 10:52:37 +0000".to_string(),
        "U1".to_string(),
        "tok",
        "example.org",
    )
    .build();
    let expected: NoteHeaders = vec![
        pair("Content-Type", "text/html;\ncharset=utf-8"),
        pair("Content-Transfer-Encoding", "quoted-printable"),
        pair("Mime-Version", "1.0 (Mac OS X Notes 4.6 \\(879.10\\))"),
        pair("Date", "Tue, 1 Jul 2003 10:52:37 +0000"),
        pair("X-Mail-Created-Date", "Tue, 1 Jul 2003 10:52:37 +0000"),
        pair("X-Universally-Unique-Identifier", "U1"),
        pair("Message-Id", "<tok@example.org>"),
    ];
    assert_eq!(headers, expected);
}

#[test]
fn builder_new_uses_fresh_identity_and_one_date() {
    let headers = HeaderBuilder::new(&profile()).build();
    assert_eq!(headers.len(), 7);
    assert_eq!(headers[3].0, "Date");
    assert_eq!(headers[4].0, "X-Mail-Created-Date");
    assert_eq!(headers[3].1, headers[4].1);
    assert!(!headers[3].1.is_empty());
    assert!(has_uuid_shape(&headers.uuid().unwrap()));
    let message_id = headers.message_id().unwrap();
    assert!(message_id.starts_with('<'));
    assert!(message_id.ends_with("@example.org>"));
    assert!(has_uuid_shape(&message_id[1..37]));
    assert_ne!(&message_id[1..37], headers.uuid().unwrap());
}

#[test]
fn builder_with_subject_appends_the_subject() {
    let headers = HeaderBuilder::with_identity("d".to_string(), "U1".to_string(), "t", "x")
        .with_subject("Shopping list".to_string())
        .build();
    assert_eq!(headers.len(), 8);
    assert_eq!(headers[7], pair("Subject", "Shopping list"));
}

#[test]
fn builder_with_uuid_and_message_id_replace_in_place() {
    let headers = HeaderBuilder::with_identity("d".to_string(), "U1".to_string(), "t", "x")
        .with_uuid("U2".to_string())
        .with_message_id("<m2@x>".to_string())
        .build();
    assert_eq!(headers.len(), 7);
    assert_eq!(headers[5], pair("X-Universally-Unique-Identifier", "U2"));
    assert_eq!(headers[6], pair("Message-Id", "<m2@x>"));
}

#[test]
fn generate_mail_headers_ends_with_the_subject() {
    let headers = generate_mail_headers("Shopping list".to_string(), &profile());
    assert_eq!(headers.len(), 8);
    assert_eq!(headers.subject(), Ok("Shopping list".to_string()));
    assert_eq!(headers[7], pair("Subject", "Shopping list"));
    assert_eq!(headers[0], pair("Content-Type", "text/html;\ncharset=utf-8"));
    assert_eq!(headers.date().unwrap(), headers[4].1);
}

#[test]
fn hash_path_of_parts() {
    assert_eq!(hash_path_of("/tmp/notes", "list.txt"), "/tmp/notes/.list.txt_hash");
    assert_eq!(hash_path_of("", "x"), "/.x_hash");
}

#[test]
fn get_hash_path_of_file_in_directory() {
    assert_eq!(get_hash_path("/tmp/notes/list.txt"), Some("/tmp/notes/.list.txt_hash".to_string()));
    assert_eq!(get_hash_path("notes/list"), Some("notes/.list_hash".to_string()));
    assert_eq!(get_hash_path("list.txt"), Some("/.list.txt_hash".to_string()));
}

#[test]
fn get_hash_path_of_path_without_parts_is_none() {
    assert_eq!(get_hash_path("/"), None);
    assert_eq!(get_hash_path(""), None);
    assert_eq!(get_hash_path("/tmp/.."), None);
}

#[test]
fn notes_file_is_under_folder_and_named_by_version() {
    let metadata = NotesMetadata {
        subfolder: "Notes".to_string(),
        locally_deleted: false,
        locally_edited: false,
        new: false,
        date: "d".to_string(),
        uuid: "U1".to_string(),
        mime_version: "1.0".to_string(),
    };
    let body = Body {
        old_remote_message_id: None,
        message_id: "m1".to_string(),
        text: Some("My note: one\nrest".to_string()),
        uid: Some(17),
        metadata_uuid: "U1".to_string(),
    };
    assert_eq!(
        get_notes_file_from_metadata("/home/me/notes", &metadata, &body),
        "/home/me/notes/Notes/17_My_note_one"
    );
}
