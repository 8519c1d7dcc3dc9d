//! Text helpers shared by the note model: the first line of a note's text,
//! the file-system safe form of a subject, and decimal numbers as text.

use vstd::prelude::*;

verus! {

/// Appends one character to a string.
///
/// Trusted: wraps `String::push`, which the standard library documents as
/// appending the given `char` to the end of the string.
#[verifier::external_body]
pub(crate) fn push_char(s: &mut String, c: char)
    ensures
        final(s)@ == old(s)@.push(c),
{
    s.push(c)
}

/// `end` is where the first line of `text` stops: at the first line feed, or
/// at the end of the text where it holds none.
pub open spec fn is_line_end(text: Seq<char>, end: int) -> bool {
    &&& 0 <= end <= text.len()
    &&& forall|j: int| 0 <= j < end ==> text[j] != '\n'
    &&& end < text.len() ==> text[end] == '\n'
}

/// The position at which the first line of `text` stops.
pub open spec fn line_end(text: Seq<char>) -> int {
    choose|end: int| is_line_end(text, end)
}

/// The first line of `text`: everything before the first line feed, without
/// the carriage return of a `\r\n` break. A carriage return that no line feed
/// follows belongs to the line.
pub open spec fn spec_first_line(text: Seq<char>) -> Seq<char> {
    let end = line_end(text);
    if end < text.len() && end > 0 && text[end - 1] == '\r' {
        text.subrange(0, end - 1)
    } else {
        text.subrange(0, end)
    }
}

/// A text has exactly one line end.
pub proof fn lemma_line_end_unique(text: Seq<char>, end: int)
    requires
        is_line_end(text, end),
    ensures
        line_end(text) == end,
{
    let chosen = line_end(text);
    assert(is_line_end(text, chosen));
    if chosen < end {
        assert(text[chosen] == '\n');
    } else if end < chosen {
        assert(text[end] == '\n');
    }
}

/// Returns the first line of `text`, as `str::lines` would yield it, and the
/// empty string where the text is empty.
pub fn first_line(text: &str) -> (line: String)
    ensures
        line@ == spec_first_line(text@),
{
    let mut out = String::new();
    let mut pending_cr = false;
    let it = text.chars();
    proof {
        vstd::string::axiom_spec_iter(text);
    }
    for c in iter: it
        invariant
            iter.seq() == text@,
            forall|j: int| 0 <= j < iter.index() ==> text@[j] != '\n',
            pending_cr <==> iter.index() > 0 && text@[iter.index() - 1] == '\r',
            pending_cr ==> out@ == text@.subrange(0, iter.index() - 1),
            !pending_cr ==> out@ == text@.subrange(0, iter.index()),
    {
        let ghost i = iter.index();
        if c == '\n' {
            proof {
                lemma_line_end_unique(text@, i);
            }
            return out;
        }
        if pending_cr {
            push_char(&mut out, '\r');
            assert(out@ == text@.subrange(0, i));
        }
        if c == '\r' {
            pending_cr = true;
        } else {
            pending_cr = false;
            push_char(&mut out, c);
            assert(out@ == text@.subrange(0, i + 1));
        }
    }
    proof {
        lemma_line_end_unique(text@, text@.len() as int);
    }
    if pending_cr {
        push_char(&mut out, '\r');
        assert(out@ == text@.subrange(0, text@.len() as int));
    }
    out
}

/// Whether `c` separates words or path components in a subject; such a
/// character becomes an underscore in a file name.
pub open spec fn is_separator(c: char) -> bool {
    c == '/' || c == ' '
}

/// Whether `c` is dropped from a file name.
pub open spec fn is_stripped(c: char) -> bool {
    c == '.' || c == '<' || c == '>' || c == ':' || c == '"' || c == '\\' || c == '|' || c == '?'
        || c == '*'
}

/// Whether `c` may not stand in a file name: the separators and the stripped
/// characters together.
pub open spec fn is_unsafe_in_file_name(c: char) -> bool {
    is_separator(c) || is_stripped(c)
}

/// The character that stands for `c` before stripping.
pub open spec fn underscored(c: char) -> char {
    if is_separator(c) {
        '_'
    } else {
        c
    }
}

/// The predicate by which stripping keeps a character.
pub open spec fn kept() -> spec_fn(char) -> bool {
    |c: char| !is_stripped(c)
}

/// The file-system safe form of `subject`: every separator replaced by an
/// underscore, then every stripped character removed.
pub open spec fn spec_escaped(subject: Seq<char>) -> Seq<char> {
    subject.map_values(|c: char| underscored(c)).filter(kept())
}

/// Escaping a text that ends in `c` escapes what stands before it and then
/// appends `c`'s replacement, unless `c` is stripped.
pub proof fn lemma_escaped_push(subject: Seq<char>, c: char)
    ensures
        spec_escaped(subject.push(c)) == if is_stripped(c) {
            spec_escaped(subject)
        } else {
            spec_escaped(subject).push(underscored(c))
        },
{
    let replaced = subject.map_values(|c: char| underscored(c));
    assert(subject.push(c).map_values(|c: char| underscored(c)) =~= replaced.push(underscored(c)));
    replaced.lemma_filter_push(underscored(c), kept());
}

/// No character of an escaped subject is unsafe in a file name.
pub proof fn lemma_escaped_is_safe(subject: Seq<char>)
    ensures
        forall|i: int|
            0 <= i < spec_escaped(subject).len() ==> !is_unsafe_in_file_name(
                #[trigger] spec_escaped(subject)[i],
            ),
    decreases subject.len(),
{
    if subject.len() == 0 {
        assert(subject.map_values(|c: char| underscored(c)) =~= Seq::<char>::empty());
        Seq::<char>::empty().lemma_filter_len(kept());
    } else {
        let front = subject.drop_last();
        assert(subject =~= front.push(subject.last()));
        lemma_escaped_is_safe(front);
        lemma_escaped_push(front, subject.last());
    }
}

/// Escaping leaves a text unchanged in which no character is unsafe.
pub proof fn lemma_escaped_of_safe(text: Seq<char>)
    requires
        forall|i: int| 0 <= i < text.len() ==> !is_unsafe_in_file_name(#[trigger] text[i]),
    ensures
        spec_escaped(text) == text,
    decreases text.len(),
{
    if text.len() == 0 {
        assert(text.map_values(|c: char| underscored(c)) =~= Seq::<char>::empty());
        Seq::<char>::empty().lemma_filter_len(kept());
        assert(spec_escaped(text) =~= text);
    } else {
        let front = text.drop_last();
        assert(text =~= front.push(text.last()));
        assert forall|i: int| 0 <= i < front.len() implies !is_unsafe_in_file_name(
            #[trigger] front[i],
        ) by {
            assert(front[i] == text[i]);
        }
        lemma_escaped_of_safe(front);
        lemma_escaped_push(front, text.last());
        assert(!is_unsafe_in_file_name(text[text.len() - 1]));
    }
}

/// Escaping is idempotent: an escaped subject escapes to itself.
pub proof fn lemma_escaped_idempotent(subject: Seq<char>)
    ensures
        spec_escaped(spec_escaped(subject)) == spec_escaped(subject),
{
    lemma_escaped_is_safe(subject);
    lemma_escaped_of_safe(spec_escaped(subject));
}

/// Whether `c` is dropped from a file name.
fn strips(c: char) -> (b: bool)
    ensures
        b == is_stripped(c),
{
    c == '.' || c == '<' || c == '>' || c == ':' || c == '"' || c == '\\' || c == '|' || c == '?'
        || c == '*'
}

/// Makes a subject safe to use as a file name: `/` and the space become `_`,
/// and the characters `. < > : " \ | ? *` are removed. The result holds no
/// character that is unsafe in a file name.
pub fn escape_for_filesystem(subject: &str) -> (escaped: String)
    ensures
        escaped@ == spec_escaped(subject@),
        forall|i: int| 0 <= i < escaped@.len() ==> !is_unsafe_in_file_name(#[trigger] escaped@[i]),
{
    let mut out = String::new();
    let it = subject.chars();
    proof {
        vstd::string::axiom_spec_iter(subject);
        assert(subject@.take(0).map_values(|c: char| underscored(c)) =~= Seq::<char>::empty());
        Seq::<char>::empty().lemma_filter_len(kept());
    }
    for c in iter: it
        invariant
            iter.seq() == subject@,
            out@ == spec_escaped(subject@.take(iter.index())),
    {
        proof {
            let i = iter.index();
            assert(subject@.take(i + 1) =~= subject@.take(i).push(c));
            lemma_escaped_push(subject@.take(i), c);
        }
        if c == '/' || c == ' ' {
            push_char(&mut out, '_');
        } else if !strips(c) {
            push_char(&mut out, c);
        }
    }
    proof {
        assert(subject@.take(subject@.len() as int) =~= subject@);
        lemma_escaped_is_safe(subject@);
    }
    out
}

/// The decimal digit that stands for `d`, for `d` below ten.
pub open spec fn digit_char(d: int) -> char {
    if d == 0 {
        '0'
    } else if d == 1 {
        '1'
    } else if d == 2 {
        '2'
    } else if d == 3 {
        '3'
    } else if d == 4 {
        '4'
    } else if d == 5 {
        '5'
    } else if d == 6 {
        '6'
    } else if d == 7 {
        '7'
    } else if d == 8 {
        '8'
    } else {
        '9'
    }
}

/// The number that the decimal digit `c` stands for, if it is one.
pub open spec fn digit_value(c: char) -> Option<int> {
    if c == '0' {
        Some(0)
    } else if c == '1' {
        Some(1)
    } else if c == '2' {
        Some(2)
    } else if c == '3' {
        Some(3)
    } else if c == '4' {
        Some(4)
    } else if c == '5' {
        Some(5)
    } else if c == '6' {
        Some(6)
    } else if c == '7' {
        Some(7)
    } else if c == '8' {
        Some(8)
    } else if c == '9' {
        Some(9)
    } else {
        None
    }
}

/// The digits of `n` in base ten, most significant first, without leading
/// zeros.
pub open spec fn decimal_digits(n: nat) -> Seq<char>
    decreases n,
{
    if n < 10 {
        seq![digit_char(n as int)]
    } else {
        decimal_digits(n / 10).push(digit_char((n % 10) as int))
    }
}

/// `v` in base ten, with a leading minus sign where it is negative.
pub open spec fn decimal_text(v: int) -> Seq<char> {
    if v < 0 {
        seq!['-'] + decimal_digits((-v) as nat)
    } else {
        decimal_digits(v as nat)
    }
}

/// Whether every character of `s` is a decimal digit.
pub open spec fn all_digits(s: Seq<char>) -> bool {
    forall|i: int| 0 <= i < s.len() ==> digit_value(#[trigger] s[i]) is Some
}

/// The number that the digits of `s` denote in base ten.
pub open spec fn digits_value(s: Seq<char>) -> int
    decreases s.len(),
{
    if s.len() == 0 {
        0
    } else {
        digits_value(s.drop_last()) * 10 + match digit_value(s.last()) {
            Some(d) => d,
            None => 0,
        }
    }
}

/// The signed 64-bit number that `s` denotes: an optional `+` or `-`, then
/// one or more decimal digits, within the range of `i64`. `None` for any
/// other text.
pub open spec fn parsed_i64(s: Seq<char>) -> Option<i64> {
    let negative = s.len() > 0 && s[0] == '-';
    let signed = s.len() > 0 && (s[0] == '-' || s[0] == '+');
    let digits = if signed {
        s.skip(1)
    } else {
        s
    };
    let value = if negative {
        -digits_value(digits)
    } else {
        digits_value(digits)
    };
    if digits.len() > 0 && all_digits(digits) && i64::MIN <= value <= i64::MAX {
        Some(value as i64)
    } else {
        None
    }
}

/// The decimal digit that stands for `d`.
fn digit_of(d: u64) -> (c: char)
    requires
        d < 10,
    ensures
        c == digit_char(d as int),
{
    if d == 0 {
        '0'
    } else if d == 1 {
        '1'
    } else if d == 2 {
        '2'
    } else if d == 3 {
        '3'
    } else if d == 4 {
        '4'
    } else if d == 5 {
        '5'
    } else if d == 6 {
        '6'
    } else if d == 7 {
        '7'
    } else if d == 8 {
        '8'
    } else {
        '9'
    }
}

/// The number that the decimal digit `c` stands for, if it is one.
fn value_of_digit(c: char) -> (d: Option<u8>)
    ensures
        match d {
            Some(d) => digit_value(c) == Some(d as int),
            None => digit_value(c) is None,
        },
{
    if c == '0' {
        Some(0)
    } else if c == '1' {
        Some(1)
    } else if c == '2' {
        Some(2)
    } else if c == '3' {
        Some(3)
    } else if c == '4' {
        Some(4)
    } else if c == '5' {
        Some(5)
    } else if c == '6' {
        Some(6)
    } else if c == '7' {
        Some(7)
    } else if c == '8' {
        Some(8)
    } else if c == '9' {
        Some(9)
    } else {
        None
    }
}

/// Appends the digits of `n` in base ten.
fn push_digits(out: &mut String, n: u64)
    ensures
        final(out)@ == old(out)@ + decimal_digits(n as nat),
    decreases n,
{
    if n >= 10 {
        push_digits(out, n / 10);
    }
    push_char(out, digit_of(n % 10));
    assert(out@ =~= old(out)@ + decimal_digits(n as nat));
}

/// Writes `v` in base ten, with a leading minus sign where it is negative.
pub fn i64_to_string(v: i64) -> (text: String)
    ensures
        text@ == decimal_text(v as int),
{
    let mut out = String::new();
    if v < 0 {
        push_char(&mut out, '-');
        let magnitude: u64 = if v == i64::MIN {
            9223372036854775808u64
        } else {
            (-v) as u64
        };
        push_digits(&mut out, magnitude);
        assert(out@ =~= seq!['-'] + decimal_digits((-v) as nat));
    } else {
        push_digits(&mut out, v as u64);
        assert(out@ =~= decimal_digits(v as nat));
    }
    out
}

/// The value of digits that end in `c` is ten times the value of those
/// before it, and the digit's own value more.
pub proof fn lemma_digits_value_push(digits: Seq<char>, c: char)
    ensures
        digits_value(digits.push(c)) == digits_value(digits) * 10 + match digit_value(c) {
            Some(d) => d,
            None => 0,
        },
        digits_value(digits) >= 0,
    decreases digits.len(),
{
    assert(digits.push(c).drop_last() =~= digits);
    if digits.len() > 0 {
        lemma_digits_value_push(digits.drop_last(), digits.last());
        assert(digits.drop_last().push(digits.last()) =~= digits);
    }
}

/// Reads a signed 64-bit number in base ten, as `str::parse` does: an
/// optional sign, then digits only, and a value within the range of `i64`.
pub fn parse_i64(text: &str) -> (number: Option<i64>)
    ensures
        number == parsed_i64(text@),
{
    let mut negative = false;
    let mut signed = false;
    let mut started = false;
    let mut has_digit = false;
    let mut excess = false;
    let mut magnitude: u64 = 0;
    let it = text.chars();
    proof {
        vstd::string::axiom_spec_iter(text);
        assert(text@.subrange(0, 0) =~= Seq::<char>::empty());
    }
    for c in iter: it
        invariant
            iter.seq() == text@,
            started == (iter.index() > 0),
            signed == (iter.index() > 0 && (text@[0] == '-' || text@[0] == '+')),
            negative == (iter.index() > 0 && text@[0] == '-'),
            has_digit == (iter.index() > if signed {
                1int
            } else {
                0int
            }),
            all_digits(
                text@.subrange(
                    if signed {
                        1int
                    } else {
                        0int
                    },
                    iter.index(),
                ),
            ),
            magnitude <= 9223372036854775808u64,
            !excess ==> magnitude == digits_value(
                text@.subrange(
                    if signed {
                        1int
                    } else {
                        0int
                    },
                    iter.index(),
                ),
            ),
            excess ==> digits_value(
                text@.subrange(
                    if signed {
                        1int
                    } else {
                        0int
                    },
                    iter.index(),
                ),
            ) > 9223372036854775808,
    {
        let ghost i = iter.index();
        if !started && (c == '-' || c == '+') {
            signed = true;
            negative = c == '-';
            assert(text@.subrange(1, 1) =~= Seq::<char>::empty());
        } else {
            let ghost first: int = if signed {
                1
            } else {
                0
            };
            let ghost seen = text@.subrange(first, i);
            proof {
                assert(text@.subrange(first, i + 1) =~= seen.push(c));
                lemma_digits_value_push(seen, c);
            }
            match value_of_digit(c) {
                None => {
                    proof {
                        let digits = if signed {
                            text@.skip(1)
                        } else {
                            text@
                        };
                        assert(digits[i - first] == c);
                        assert(!all_digits(digits));
                    }
                    return None;
                },
                Some(d) => {
                    assert forall|j: int| 0 <= j < seen.push(c).len() implies digit_value(
                        #[trigger] seen.push(c)[j],
                    ) is Some by {
                        if j < seen.len() {
                            assert(seen.push(c)[j] == seen[j]);
                        }
                    }
                    has_digit = true;
                    if !excess {
                        let next: u128 = magnitude as u128 * 10 + d as u128;
                        if next > 9223372036854775808u128 {
                            excess = true;
                        } else {
                            magnitude = next as u64;
                        }
                    }
                },
            }
        }
        started = true;
    }
    proof {
        let first: int = if signed {
            1
        } else {
            0
        };
        let digits = if signed {
            text@.skip(1)
        } else {
            text@
        };
        assert(text@.subrange(first, text@.len() as int) =~= digits);
    }
    if !has_digit || excess {
        None
    } else if negative {
        if magnitude == 9223372036854775808u64 {
            Some(i64::MIN)
        } else {
            Some(-(magnitude as i64))
        }
    } else if magnitude == 9223372036854775808u64 {
        None
    } else {
        Some(magnitude as i64)
    }
}

} // verus!
