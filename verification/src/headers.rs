//! The header codec: the ordered key/value pairs that a note carries inside a
//! mail message, the names of the headers that a note uses, and lookup.

use vstd::prelude::*;

verus! {

/// The headers of one message, in the order in which the message holds them.
pub type NoteHeaders = Vec<(String, String)>;

/// The mathematical model of a header list: the pairs of key and value, each
/// as a sequence of characters.
pub type HeaderSeq = Seq<(Seq<char>, Seq<char>)>;

/// The headers that a note message uses.
#[derive(Clone, Copy, Debug, PartialEq, Eq, Structural)]
pub enum HeaderKey {
    TypeIdentifier,
    ContentType,
    TransferEncoding,
    MimeVersion,
    Date,
    CreatedDate,
    From,
    MessageId,
    Uuid,
    Subject,
    Folder,
    Uid,
}

impl HeaderKey {
    /// The header's name as it stands in a message.
    pub open spec fn spec_name(self) -> Seq<char> {
        match self {
            HeaderKey::TypeIdentifier => "X-Uniform-Type-Identifier"@,
            HeaderKey::ContentType => "Content-Type"@,
            HeaderKey::TransferEncoding => "Content-Transfer-Encoding"@,
            HeaderKey::MimeVersion => "Mime-Version"@,
            HeaderKey::Date => "Date"@,
            HeaderKey::CreatedDate => "X-Mail-Created-Date"@,
            HeaderKey::From => "From"@,
            HeaderKey::MessageId => "Message-Id"@,
            HeaderKey::Uuid => "X-Universally-Unique-Identifier"@,
            HeaderKey::Subject => "Subject"@,
            HeaderKey::Folder => "Folder"@,
            HeaderKey::Uid => "Uid"@,
        }
    }

    /// The header's name as it stands in a message.
    pub fn name(self) -> (name: &'static str)
        ensures
            name@ == self.spec_name(),
    {
        match self {
            HeaderKey::TypeIdentifier => "X-Uniform-Type-Identifier",
            HeaderKey::ContentType => "Content-Type",
            HeaderKey::TransferEncoding => "Content-Transfer-Encoding",
            HeaderKey::MimeVersion => "Mime-Version",
            HeaderKey::Date => "Date",
            HeaderKey::CreatedDate => "X-Mail-Created-Date",
            HeaderKey::From => "From",
            HeaderKey::MessageId => "Message-Id",
            HeaderKey::Uuid => "X-Universally-Unique-Identifier",
            HeaderKey::Subject => "Subject",
            HeaderKey::Folder => "Folder",
            HeaderKey::Uid => "Uid",
        }
    }

    /// No two headers share a name.
    pub proof fn lemma_names_distinct(a: HeaderKey, b: HeaderKey)
        ensures
            a.spec_name() == b.spec_name() <==> a == b,
    {
        reveal_strlit("X-Uniform-Type-Identifier");
        reveal_strlit("Content-Type");
        reveal_strlit("Content-Transfer-Encoding");
        reveal_strlit("Mime-Version");
        reveal_strlit("Date");
        reveal_strlit("X-Mail-Created-Date");
        reveal_strlit("From");
        reveal_strlit("Message-Id");
        reveal_strlit("X-Universally-Unique-Identifier");
        reveal_strlit("Subject");
        reveal_strlit("Folder");
        reveal_strlit("Uid");
        if a != b && a.spec_name().len() == b.spec_name().len() {
            assert(a.spec_name()[0] != b.spec_name()[0]);
        }
    }
}

/// No two headers share a name, whichever two are taken.
pub proof fn lemma_all_names_distinct()
    ensures
        forall|a: HeaderKey, b: HeaderKey|
            #![trigger a.spec_name(), b.spec_name()]
            a.spec_name() == b.spec_name() <==> a == b,
{
    assert forall|a: HeaderKey, b: HeaderKey|
        #![trigger a.spec_name(), b.spec_name()]
        a.spec_name() == b.spec_name() <==> a == b by {
        HeaderKey::lemma_names_distinct(a, b);
    }
}

/// The value of the first header of `headers` whose key is `key`.
pub open spec fn header_value(headers: HeaderSeq, key: Seq<char>) -> Option<Seq<char>>
    decreases headers.len(),
{
    if headers.len() == 0 {
        None
    } else if headers[0].0 == key {
        Some(headers[0].1)
    } else {
        header_value(headers.skip(1), key)
    }
}

/// A header that a message should carry is absent from it.
#[derive(Clone, Copy, Debug, PartialEq, Eq, Structural)]
pub struct MissingHeaderError {
    /// The header that was looked for.
    pub key: HeaderKey,
}

impl MissingHeaderError {
    /// The name of the absent header.
    pub fn key_name(&self) -> (name: &'static str)
        ensures
            name@ == self.key.spec_name(),
    {
        self.key.name()
    }
}

/// Why a message's location could not be read from its headers.
#[derive(Clone, Copy, Debug, PartialEq, Eq, Structural)]
pub enum UidError {
    /// The header is absent.
    Missing(MissingHeaderError),
    /// The header's value is no number that fits the location's type.
    NotANumber,
}

/// The value of the header `key` of `headers`, or the error that names it.
pub open spec fn required_header(headers: HeaderSeq, key: HeaderKey) -> Result<
    Seq<char>,
    MissingHeaderError,
> {
    match header_value(headers, key.spec_name()) {
        Some(value) => Ok(value),
        None => Err(MissingHeaderError { key }),
    }
}

/// The location that the headers give for their message.
pub open spec fn spec_imap_uid(headers: HeaderSeq) -> Result<i64, UidError> {
    match header_value(headers, HeaderKey::Uid.spec_name()) {
        None => Err(UidError::Missing(MissingHeaderError { key: HeaderKey::Uid })),
        Some(value) => match crate::text::parsed_i64(value) {
            Some(uid) => Ok(uid),
            None => Err(UidError::NotANumber),
        },
    }
}

/// Whether an accessor's result is what the model says: the same text, or
/// the same error.
pub open spec fn is_header_result(
    result: Result<String, MissingHeaderError>,
    expected: Result<Seq<char>, MissingHeaderError>,
) -> bool {
    match result {
        Ok(value) => expected == Ok::<Seq<char>, MissingHeaderError>(value@),
        Err(e) => expected == Err::<Seq<char>, MissingHeaderError>(e),
    }
}

/// A header that holds `key` leads the search to its value, and any other
/// header leaves the search to the headers behind it.
pub proof fn lemma_header_value_skip(headers: HeaderSeq, key: Seq<char>, i: int)
    requires
        0 <= i < headers.len(),
        forall|j: int| 0 <= j < i ==> headers[j].0 != key,
    ensures
        header_value(headers, key) == if headers[i].0 == key {
            Some(headers[i].1)
        } else {
            header_value(headers.skip(i + 1), key)
        },
    decreases i,
{
    if i == 0 {
    } else {
        let rest = headers.skip(1);
        assert forall|j: int| 0 <= j < i - 1 implies rest[j].0 != key by {
            assert(rest[j] == headers[j + 1]);
        }
        lemma_header_value_skip(rest, key, i - 1);
        assert(rest.skip(i) =~= headers.skip(i + 1));
    }
}

/// Where no header holds `key`, the search finds nothing.
pub proof fn lemma_header_value_absent(headers: HeaderSeq, key: Seq<char>)
    requires
        forall|j: int| 0 <= j < headers.len() ==> headers[j].0 != key,
    ensures
        header_value(headers, key) is None,
    decreases headers.len(),
{
    if headers.len() > 0 {
        let rest = headers.skip(1);
        assert forall|j: int| 0 <= j < rest.len() implies rest[j].0 != key by {
            assert(rest[j] == headers[j + 1]);
        }
        lemma_header_value_absent(rest, key);
    }
}

/// Appends the header `key` with `value` to `headers`.
pub fn push_header(headers: &mut NoteHeaders, key: HeaderKey, value: String)
    ensures
        final(headers).deep_view() == old(headers).deep_view().push((key.spec_name(), value@)),
{
    let ghost before = headers.deep_view();
    headers.push((key.name().to_owned(), value));
    assert(headers.deep_view() =~= before.push((key.spec_name(), value@)));
}

/// Whether the first header of `headers` with the key `key` stands at `i`.
pub open spec fn is_first_at(headers: HeaderSeq, key: Seq<char>, i: int) -> bool {
    &&& 0 <= i < headers.len()
    &&& headers[i].0 == key
    &&& forall|j: int| 0 <= j < i ==> headers[j].0 != key
}

/// `headers` with the header `key` set to `value`: the first header with
/// that key gets the value, and where there is none, the header is appended.
pub open spec fn with_header(headers: HeaderSeq, key: Seq<char>, value: Seq<char>) -> HeaderSeq {
    if exists|i: int| is_first_at(headers, key, i) {
        headers.update(choose|i: int| is_first_at(headers, key, i), (key, value))
    } else {
        headers.push((key, value))
    }
}

/// Setting a header makes it the value that a lookup of its key finds, and
/// leaves the lookup of every other key as it was.
pub proof fn lemma_with_header(headers: HeaderSeq, key: Seq<char>, value: Seq<char>, other: Seq<char>)
    ensures
        header_value(with_header(headers, key, value), key) == Some(value),
        other != key ==> header_value(with_header(headers, key, value), other) == header_value(
            headers,
            other,
        ),
{
    let set = with_header(headers, key, value);
    lemma_header_value_spec(headers, other);
    lemma_header_value_spec(set, other);
    lemma_header_value_spec(set, key);
    if exists|i: int| is_first_at(headers, key, i) {
        let at = choose|i: int| is_first_at(headers, key, i);
        assert(is_first_at(set, key, at));
        if other != key {
            if exists|i: int| is_first_at(headers, other, i) {
                let o = choose|i: int| is_first_at(headers, other, i);
                assert(is_first_at(set, other, o));
            } else {
                assert forall|i: int| !is_first_at(set, other, i) by {
                    if is_first_at(set, other, i) {
                        assert(i != at);
                        assert(headers[i].0 == other);
                        assert forall|j: int| 0 <= j < i implies headers[j].0 != other by {
                            assert(set[j].0 != other);
                        }
                        assert(is_first_at(headers, other, i));
                    }
                }
            }
        }
    } else {
        let n = headers.len() as int;
        assert forall|j: int| 0 <= j < n implies headers[j].0 != key by {
            if headers[j].0 == key {
                lemma_first_exists(headers, key, j);
            }
        }
        assert(is_first_at(set, key, n));
        if other != key {
            if exists|i: int| is_first_at(headers, other, i) {
                let o = choose|i: int| is_first_at(headers, other, i);
                assert(is_first_at(set, other, o));
            } else {
                assert forall|i: int| !is_first_at(set, other, i) by {
                    if is_first_at(set, other, i) {
                        assert(i != n);
                        assert(headers[i].0 == other);
                        assert forall|j: int| 0 <= j < i implies headers[j].0 != other by {
                            assert(set[j].0 != other);
                        }
                        assert(is_first_at(headers, other, i));
                    }
                }
            }
        }
    }
}

/// Where some header before or at `i` holds `key`, a first such header
/// exists.
pub proof fn lemma_first_exists(headers: HeaderSeq, key: Seq<char>, i: int)
    requires
        0 <= i < headers.len(),
        headers[i].0 == key,
    ensures
        exists|f: int| is_first_at(headers, key, f),
    decreases i,
{
    if forall|j: int| 0 <= j < i ==> headers[j].0 != key {
        assert(is_first_at(headers, key, i));
    } else {
        let j = choose|j: int| 0 <= j < i && headers[j].0 == key;
        lemma_first_exists(headers, key, j);
    }
}

/// A lookup finds the value of the first header with the key, and nothing
/// where no header has the key.
pub proof fn lemma_header_value_spec(headers: HeaderSeq, key: Seq<char>)
    ensures
        forall|i: int| is_first_at(headers, key, i) ==> header_value(headers, key) == Some(
            headers[i].1,
        ),
        !(exists|i: int| is_first_at(headers, key, i)) ==> header_value(headers, key) is None,
{
    assert forall|i: int| is_first_at(headers, key, i) implies header_value(headers, key) == Some(
        headers[i].1,
    ) by {
        lemma_header_value_skip(headers, key, i);
    }
    if !(exists|i: int| is_first_at(headers, key, i)) {
        assert forall|j: int| 0 <= j < headers.len() implies headers[j].0 != key by {
            if headers[j].0 == key {
                lemma_first_exists(headers, key, j);
            }
        }
        lemma_header_value_absent(headers, key);
    }
}

/// Setting a header whose first occurrence stands at `i` changes the value
/// there and nothing else.
pub proof fn lemma_with_header_at(headers: HeaderSeq, key: Seq<char>, value: Seq<char>, i: int)
    requires
        is_first_at(headers, key, i),
    ensures
        with_header(headers, key, value) == headers.update(i, (key, value)),
{
    let chosen = choose|f: int| is_first_at(headers, key, f);
    assert(is_first_at(headers, key, chosen));
    assert(chosen == i);
}

/// Sets the header `key` of `headers` to `value`.
pub fn set_header(headers: &mut NoteHeaders, key: HeaderKey, value: String)
    ensures
        final(headers).deep_view() == with_header(old(headers).deep_view(), key.spec_name(), value@),
{
    let ghost before = headers.deep_view();
    let wanted = key.name().to_owned();
    let mut i: usize = 0;
    while i < headers.len()
        invariant
            i <= headers.len(),
            headers.deep_view() == before,
            before == old(headers).deep_view(),
            wanted@ == key.spec_name(),
            forall|j: int| 0 <= j < i ==> before[j].0 != key.spec_name(),
        decreases headers.len() - i,
    {
        if headers[i].0 == wanted {
            headers.set(i, (wanted, value));
            proof {
                assert(is_first_at(before, key.spec_name(), i as int));
                let chosen = choose|f: int| is_first_at(before, key.spec_name(), f);
                assert(is_first_at(before, key.spec_name(), chosen));
                assert(chosen == i);
                assert(headers.deep_view() =~= before.update(i as int, (key.spec_name(), value@)));
            }
            return ;
        }
        i += 1;
    }
    proof {
        assert forall|f: int| !is_first_at(before, key.spec_name(), f) by {}
    }
    headers.push((wanted, value));
    assert(headers.deep_view() =~= before.push((key.spec_name(), value@)));
}

/// Copies a header list.
pub fn clone_headers(headers: &NoteHeaders) -> (copy: NoteHeaders)
    ensures
        copy.deep_view() == headers.deep_view(),
{
    let mut copy: NoteHeaders = Vec::new();
    let mut i: usize = 0;
    while i < headers.len()
        invariant
            i <= headers.len(),
            copy@.len() == i,
            forall|j: int| 0 <= j < i ==> copy.deep_view()[j] == headers.deep_view()[j],
        decreases headers.len() - i,
    {
        let ghost before = copy.deep_view();
        copy.push((headers[i].0.clone(), headers[i].1.clone()));
        assert(copy.deep_view() =~= before.push(headers.deep_view()[i as int]));
        i += 1;
    }
    assert(copy.deep_view() =~= headers.deep_view());
    copy
}

/// Reading the headers that a note needs out of a header list.
pub trait HeaderParser {
    /// The headers as pairs of key and value, in their order.
    spec fn entries(&self) -> HeaderSeq;

    /// The value of the first header whose key is `search_string`, compared
    /// character by character.
    fn get_header_value(&self, search_string: &str) -> (value: Option<String>)
        ensures
            value.deep_view() == header_value(self.entries(), search_string@),
    ;

    /// The note's subject.
    fn subject(&self) -> (subject: Result<String, MissingHeaderError>)
        ensures
            is_header_result(subject, required_header(self.entries(), HeaderKey::Subject)),
    ;

    /// The note's stable identity.
    fn uuid(&self) -> (uuid: Result<String, MissingHeaderError>)
        ensures
            is_header_result(uuid, required_header(self.entries(), HeaderKey::Uuid)),
    ;

    /// The note's subject in its file-system safe form.
    fn subject_escaped(&self) -> (subject: Result<String, MissingHeaderError>)
        ensures
            is_header_result(
                subject,
                match required_header(self.entries(), HeaderKey::Subject) {
                    Ok(subject) => Ok(crate::text::spec_escaped(subject)),
                    Err(e) => Err(e),
                },
            ),
    ;

    /// The version token of the message.
    fn message_id(&self) -> (message_id: Result<String, MissingHeaderError>)
        ensures
            is_header_result(message_id, required_header(self.entries(), HeaderKey::MessageId)),
    ;

    /// The note's date.
    fn date(&self) -> (date: Result<String, MissingHeaderError>)
        ensures
            is_header_result(date, required_header(self.entries(), HeaderKey::Date)),
    ;

    /// The MIME version that the message states.
    fn mime_version(&self) -> (mime_version: Result<String, MissingHeaderError>)
        ensures
            is_header_result(
                mime_version,
                required_header(self.entries(), HeaderKey::MimeVersion),
            ),
    ;

    /// The folder that the message was found in.
    fn folder(&self) -> (folder: Result<String, MissingHeaderError>)
        ensures
            is_header_result(folder, required_header(self.entries(), HeaderKey::Folder)),
    ;

    /// The message's location in its folder.
    fn imap_uid(&self) -> (uid: Result<i64, UidError>)
        ensures
            uid == spec_imap_uid(self.entries()),
    ;
}

/// Looks `key` up in `headers` and names it where it is absent.
pub fn require_header(headers: &NoteHeaders, key: HeaderKey) -> (value: Result<
    String,
    MissingHeaderError,
>)
    ensures
        is_header_result(value, required_header(headers.deep_view(), key)),
{
    match headers.get_header_value(key.name()) {
        Some(value) => Ok(value),
        None => Err(MissingHeaderError { key }),
    }
}

impl HeaderParser for NoteHeaders {
    open spec fn entries(&self) -> HeaderSeq {
        self.deep_view()
    }

    fn get_header_value(&self, search_string: &str) -> (value: Option<String>) {
        let wanted = search_string.to_owned();
        let mut i: usize = 0;
        while i < self.len()
            invariant
                i <= self.len(),
                wanted@ == search_string@,
                forall|j: int| 0 <= j < i ==> self.deep_view()[j].0 != search_string@,
            decreases self.len() - i,
        {
            proof {
                lemma_header_value_skip(self.deep_view(), search_string@, i as int);
            }
            if self[i].0 == wanted {
                return Some(self[i].1.clone());
            }
            i += 1;
        }
        proof {
            lemma_header_value_absent(self.deep_view(), search_string@);
        }
        None
    }

    fn subject(&self) -> (subject: Result<String, MissingHeaderError>) {
        require_header(self, HeaderKey::Subject)
    }

    fn uuid(&self) -> (uuid: Result<String, MissingHeaderError>) {
        require_header(self, HeaderKey::Uuid)
    }

    fn subject_escaped(&self) -> (subject: Result<String, MissingHeaderError>) {
        match require_header(self, HeaderKey::Subject) {
            Ok(subject) => Ok(crate::text::escape_for_filesystem(subject.as_str())),
            Err(e) => Err(e),
        }
    }

    fn message_id(&self) -> (message_id: Result<String, MissingHeaderError>) {
        require_header(self, HeaderKey::MessageId)
    }

    fn date(&self) -> (date: Result<String, MissingHeaderError>) {
        require_header(self, HeaderKey::Date)
    }

    fn mime_version(&self) -> (mime_version: Result<String, MissingHeaderError>) {
        require_header(self, HeaderKey::MimeVersion)
    }

    fn folder(&self) -> (folder: Result<String, MissingHeaderError>) {
        require_header(self, HeaderKey::Folder)
    }

    fn imap_uid(&self) -> (uid: Result<i64, UidError>) {
        match self.get_header_value(HeaderKey::Uid.name()) {
            None => Err(UidError::Missing(MissingHeaderError { key: HeaderKey::Uid })),
            Some(value) => match crate::text::parse_i64(value.as_str()) {
                Some(uid) => Ok(uid),
                None => Err(UidError::NotANumber),
            },
        }
    }
}

} // verus!
