use apple_notes_rs_lib::headers::{
    clone_headers, push_header, require_header, set_header, HeaderKey, HeaderParser,
    MissingHeaderError, NoteHeaders, UidError,
};

fn pair(key: &str, value: &str) -> (String, String) {
    (key.to_string(), value.to_string())
}

fn sample_headers() -> NoteHeaders {
    vec![
        pair("Subject", "Shopping list"),
        pair("X-Universally-Unique-Identifier", "U1"),
        pair("Message-Id", "<m1@example.org>"),
        pair("Date", "Tue, 1 Jul 2003 10:52:37 +0000"),
        pair("Mime-Version", "1.0"),
        pair("Folder", "Notes"),
        pair("Uid", "42"),
    ]
}

fn missing(key: HeaderKey) -> MissingHeaderError {
    MissingHeaderError { key }
}

#[test]
fn header_names_are_the_wire_names() {
    assert_eq!(HeaderKey::TypeIdentifier.name(), "X-Uniform-Type-Identifier");
    assert_eq!(HeaderKey::ContentType.name(), "Content-Type");
    assert_eq!(HeaderKey::TransferEncoding.name(), "Content-Transfer-Encoding");
    assert_eq!(HeaderKey::MimeVersion.name(), "Mime-Version");
    assert_eq!(HeaderKey::Date.name(), "Date");
    assert_eq!(HeaderKey::CreatedDate.name(), "X-Mail-Created-Date");
    assert_eq!(HeaderKey::From.name(), "From");
    assert_eq!(HeaderKey::MessageId.name(), "Message-Id");
    assert_eq!(HeaderKey::Uuid.name(), "X-Universally-Unique-Identifier");
    assert_eq!(HeaderKey::Subject.name(), "Subject");
    assert_eq!(HeaderKey::Folder.name(), "Folder");
    assert_eq!(HeaderKey::Uid.name(), "Uid");
}

#[test]
fn get_header_value_finds_the_value() {
    let headers = sample_headers();
    assert_eq!(headers.get_header_value("Folder"), Some("Notes".to_string()));
}

#[test]
fn get_header_value_of_absent_key_is_none() {
    let headers = sample_headers();
    assert_eq!(headers.get_header_value("From"), None);
    let empty: NoteHeaders = Vec::new();
    assert_eq!(empty.get_header_value("Subject"), None);
}

#[test]
fn get_header_value_takes_the_first_of_several() {
    let headers = vec![pair("Subject", "first"), pair("Other", "x"), pair("Subject", "second")];
    assert_eq!(headers.get_header_value("Subject"), Some("first".to_string()));
}

#[test]
fn get_header_value_compares_keys_exactly() {
    let headers = vec![pair("subject", "lower"), pair("Subject ", "spaced")];
    assert_eq!(headers.get_header_value("Subject"), None);
    assert_eq!(headers.get_header_value("subject"), Some("lower".to_string()));
}

#[test]
fn accessors_read_their_headers() {
    let headers = sample_headers();
    assert_eq!(headers.subject(), Ok("Shopping list".to_string()));
    assert_eq!(headers.uuid(), Ok("U1".to_string()));
    assert_eq!(headers.message_id(), Ok("<m1@example.org>".to_string()));
    assert_eq!(headers.date(), Ok("Tue, 1 Jul 2003 10:52:37 +0000".to_string()));
    assert_eq!(headers.mime_version(), Ok("1.0".to_string()));
    assert_eq!(headers.folder(), Ok("Notes".to_string()));
    assert_eq!(headers.imap_uid(), Ok(42));
}

#[test]
fn accessors_name_the_absent_header() {
    let headers: NoteHeaders = vec![pair("Unrelated", "x")];
    assert_eq!(headers.subject(), Err(missing(HeaderKey::Subject)));
    assert_eq!(headers.uuid(), Err(missing(HeaderKey::Uuid)));
    assert_eq!(headers.subject_escaped(), Err(missing(HeaderKey::Subject)));
    assert_eq!(headers.message_id(), Err(missing(HeaderKey::MessageId)));
    assert_eq!(headers.date(), Err(missing(HeaderKey::Date)));
    assert_eq!(headers.mime_version(), Err(missing(HeaderKey::MimeVersion)));
    assert_eq!(headers.folder(), Err(missing(HeaderKey::Folder)));
    assert_eq!(headers.imap_uid(), Err(UidError::Missing(missing(HeaderKey::Uid))));
}

#[test]
fn missing_header_error_names_its_key() {
    assert_eq!(missing(HeaderKey::MessageId).key_name(), "Message-Id");
    assert_eq!(missing(HeaderKey::Uuid).key_name(), "X-Universally-Unique-Identifier");
}

#[test]
fn subject_escaped_escapes_the_subject_header() {
    let headers = vec![pair("Subject", "Plan: v1.2 / draft?")];
    assert_eq!(headers.subject_escaped(), Ok("Plan_v12___draft".to_string()));
}

#[test]
fn imap_uid_reads_signed_decimal_numbers() {
    assert_eq!(vec![pair("Uid", "0")].imap_uid(), Ok(0));
    assert_eq!(vec![pair("Uid", "007")].imap_uid(), Ok(7));
    assert_eq!(vec![pair("Uid", "+15")].imap_uid(), Ok(15));
    assert_eq!(vec![pair("Uid", "-3")].imap_uid(), Ok(-3));
    assert_eq!(vec![pair("Uid", "9223372036854775807")].imap_uid(), Ok(i64::MAX));
    assert_eq!(vec![pair("Uid", "-9223372036854775808")].imap_uid(), Ok(i64::MIN));
}

#[test]
fn imap_uid_rejects_what_is_no_number() {
    assert_eq!(vec![pair("Uid", "")].imap_uid(), Err(UidError::NotANumber));
    assert_eq!(vec![pair("Uid", "-")].imap_uid(), Err(UidError::NotANumber));
    assert_eq!(vec![pair("Uid", "+")].imap_uid(), Err(UidError::NotANumber));
    assert_eq!(vec![pair("Uid", "12a")].imap_uid(), Err(UidError::NotANumber));
    assert_eq!(vec![pair("Uid", " 12")].imap_uid(), Err(UidError::NotANumber));
    assert_eq!(vec![pair("Uid", "1_000")].imap_uid(), Err(UidError::NotANumber));
    assert_eq!(vec![pair("Uid", "9223372036854775808")].imap_uid(), Err(UidError::NotANumber));
    assert_eq!(vec![pair("Uid", "-9223372036854775809")].imap_uid(), Err(UidError::NotANumber));
}

#[test]
fn require_header_gives_value_or_error() {
    let headers = sample_headers();
    assert_eq!(require_header(&headers, HeaderKey::Subject), Ok("Shopping list".to_string()));
    assert_eq!(require_header(&headers, HeaderKey::From), Err(missing(HeaderKey::From)));
}

#[test]
fn push_header_appends_at_the_end() {
    let mut headers = vec![pair("Subject", "one")];
    push_header(&mut headers, HeaderKey::Subject, "two".to_string());
    push_header(&mut headers, HeaderKey::Date, "today".to_string());
    assert_eq!(
        headers,
        vec![pair("Subject", "one"), pair("Subject", "two"), pair("Date", "today")]
    );
}

#[test]
fn set_header_replaces_the_first_occurrence_in_place() {
    let mut headers = vec![pair("Date", "d"), pair("Subject", "one"), pair("Subject", "two")];
    set_header(&mut headers, HeaderKey::Subject, "new".to_string());
    assert_eq!(
        headers,
        vec![pair("Date", "d"), pair("Subject", "new"), pair("Subject", "two")]
    );
    assert_eq!(headers.subject(), Ok("new".to_string()));
    assert_eq!(headers.date(), Ok("d".to_string()));
}

#[test]
fn set_header_appends_where_the_key_is_absent() {
    let mut headers = vec![pair("Date", "d")];
    set_header(&mut headers, HeaderKey::Uuid, "U9".to_string());
    assert_eq!(headers, vec![pair("Date", "d"), pair("X-Universally-Unique-Identifier", "U9")]);
    let mut empty: NoteHeaders = Vec::new();
    set_header(&mut empty, HeaderKey::Subject, "s".to_string());
    assert_eq!(empty, vec![pair("Subject", "s")]);
}

#[test]
fn clone_headers_copies_every_pair() {
    let headers = sample_headers();
    assert_eq!(clone_headers(&headers), headers);
    let empty: NoteHeaders = Vec::new();
    assert_eq!(clone_headers(&empty), empty);
}
