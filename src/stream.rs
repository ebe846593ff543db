//! Stream addressing: validated stream names and subscription specifiers.
//!
//! A stream name is non-empty text without a colon. A subscription specifier is a
//! stream name, optionally followed by a colon and the decimal number of the event
//! to start reading from.

use vstd::prelude::*;
use vstd::utf8::*;
use vstd::slice::slice_to_vec;
use crate::text::{concat, u64_text, contains_colon, split_at_colon, lemma_encode_utf8_append, lemma_encode_utf8_ascii_char};

verus! {

broadcast use vstd::utf8::group_utf8_lib;

/// Why a text is not a valid stream name.
#[derive(Debug, Clone, Copy, PartialEq, Eq, Structural)]
pub enum StreamNameError {
    EmptyName,
    ContainsColon,
}

/// Why a text is not a valid subscription specifier.
#[derive(Debug, Clone, Copy, PartialEq, Eq, Structural)]
pub enum ParseStreamError {
    StreamNameError(StreamNameError),
    InvalidEventNumber,
}

/// The message that describes a failure to read a subscription specifier.
pub open spec fn parse_stream_error_text(e: ParseStreamError) -> Seq<char> {
    match e {
        ParseStreamError::StreamNameError(StreamNameError::EmptyName) => "stream name is empty"@,
        ParseStreamError::StreamNameError(StreamNameError::ContainsColon) => {
            "stream name contains a colon"@
        },
        ParseStreamError::InvalidEventNumber => "invalid event number"@,
    }
}

impl ParseStreamError {
    /// A human-readable description of the failure.
    pub fn message(&self) -> (r: String)
        ensures
            r@ == parse_stream_error_text(*self),
    {
        match self {
            ParseStreamError::StreamNameError(StreamNameError::EmptyName) => {
                "stream name is empty".to_owned()
            },
            ParseStreamError::StreamNameError(StreamNameError::ContainsColon) => {
                "stream name contains a colon".to_owned()
            },
            ParseStreamError::InvalidEventNumber => "invalid event number".to_owned(),
        }
    }
}

/// The outcome of reading a text as a stream name.
pub open spec fn parse_stream_name(s: Seq<char>) -> Result<Seq<char>, StreamNameError> {
    if s.len() == 0 {
        Err(StreamNameError::EmptyName)
    } else if s.contains(':') {
        Err(StreamNameError::ContainsColon)
    } else {
        Ok(s)
    }
}

pub open spec fn valid_stream_name(s: Seq<char>) -> bool {
    parse_stream_name(s) is Ok
}

/// A validated stream name.
#[derive(Debug)]
pub struct StreamName {
    name: String,
}

impl View for StreamName {
    type V = Seq<char>;

    closed spec fn view(&self) -> Seq<char> {
        self.name@
    }
}

impl StreamName {
    pub open spec fn wf(&self) -> bool {
        valid_stream_name(self@)
    }

    /// Reads a text as a stream name.
    pub fn parse(s: &str) -> (r: Result<StreamName, StreamNameError>)
        ensures
            match r {
                Ok(n) => parse_stream_name(s@) == Ok::<Seq<char>, StreamNameError>(n@) && n.wf(),
                Err(e) => parse_stream_name(s@) == Err::<Seq<char>, StreamNameError>(e),
            },
    {
        if s.is_empty() {
            Err(StreamNameError::EmptyName)
        } else if contains_colon(s) {
            Err(StreamNameError::ContainsColon)
        } else {
            Ok(StreamName { name: s.to_owned() })
        }
    }

    pub fn as_str(&self) -> (r: &str)
        ensures
            r@ == self@,
    {
        self.name.as_str()
    }

    /// The UTF-8 bytes of the name.
    pub fn to_bytes(&self) -> (r: Vec<u8>)
        ensures
            r@ == encode_utf8(self@),
    {
        slice_to_vec(self.name.as_str().as_bytes())
    }
}

/// What a subscription specifier denotes: a stream and where to start reading it
/// (`None`: from the current end).
pub struct StreamSpec {
    pub name: Seq<char>,
    pub from: Option<u64>,
}

pub open spec fn is_digit(c: char) -> bool {
    '0' <= c && c <= '9'
}

pub open spec fn all_digits(s: Seq<char>) -> bool {
    forall|i: int| 0 <= i < s.len() ==> is_digit(#[trigger] s[i])
}

/// The number that a text of decimal digits denotes.
pub open spec fn digits_value(s: Seq<char>) -> nat
    decreases s.len(),
{
    if s.len() == 0 {
        0
    } else {
        digits_value(s.drop_last()) * 10 + ((s.last() as u32) - 48) as nat
    }
}

/// The outcome of reading a text as an event number: one or more decimal digits
/// whose value fits in a `u64`.
pub open spec fn parse_event_number(s: Seq<char>) -> Option<u64> {
    if s.len() > 0 && all_digits(s) && digits_value(s) <= u64::MAX {
        Some(digits_value(s) as u64)
    } else {
        None
    }
}

pub open spec fn digit_char(d: nat) -> char {
    ((d + 48) as u32) as char
}

/// The shortest decimal writing of a number.
pub open spec fn decimal(n: nat) -> Seq<char>
    decreases n,
{
    if n < 10 {
        seq![digit_char(n)]
    } else {
        decimal(n / 10).push(digit_char(n % 10))
    }
}

/// The position of the first colon of a text that holds one.
pub open spec fn first_colon(s: Seq<char>) -> int {
    choose|i: int| 0 <= i < s.len() && s[i] == ':' && !s.subrange(0, i).contains(':')
}

/// The outcome of reading a text as a subscription specifier: a stream name,
/// then, after the first colon if there is one, an event number.
pub open spec fn parse_stream(s: Seq<char>) -> Result<StreamSpec, ParseStreamError> {
    if !s.contains(':') {
        match parse_stream_name(s) {
            Ok(name) => Ok(StreamSpec { name, from: None }),
            Err(e) => Err(ParseStreamError::StreamNameError(e)),
        }
    } else {
        let i = first_colon(s);
        match parse_stream_name(s.subrange(0, i)) {
            Err(e) => Err(ParseStreamError::StreamNameError(e)),
            Ok(name) => match parse_event_number(s.subrange(i + 1, s.len() as int)) {
                Some(n) => Ok(StreamSpec { name, from: Some(n) }),
                None => Err(ParseStreamError::InvalidEventNumber),
            },
        }
    }
}

/// The canonical text of a subscription specifier.
pub open spec fn stream_text(m: StreamSpec) -> Seq<char> {
    match m.from {
        None => m.name,
        Some(n) => m.name + seq![':'] + decimal(n as nat),
    }
}

pub proof fn lemma_digit_char(d: nat)
    requires
        d < 10,
    ensures
        digit_char(d) as u32 == d + 48,
        is_digit(digit_char(d)),
        digit_char(d) != ':',
{
    let u = (d + 48) as u32;
    vstd::utf8::char_u32_cast(digit_char(d), u);
}

pub proof fn lemma_decimal(n: nat)
    ensures
        decimal(n).len() > 0,
        all_digits(decimal(n)),
        !decimal(n).contains(':'),
        digits_value(decimal(n)) == n,
    decreases n,
{
    if n < 10 {
        lemma_digit_char(n);
        assert(decimal(n).drop_last() =~= Seq::<char>::empty());
        assert(digits_value(Seq::<char>::empty()) == 0);
    } else {
        lemma_decimal(n / 10);
        lemma_digit_char(n % 10);
        let d = decimal(n);
        assert(d.drop_last() =~= decimal(n / 10));
        assert(d.last() == digit_char(n % 10));
        assert(digits_value(d) == digits_value(decimal(n / 10)) * 10 + n % 10);
        assert((n / 10) * 10 + n % 10 == n) by (nonlinear_arith);
        assert forall|i: int| 0 <= i < d.len() implies is_digit(#[trigger] d[i]) && d[i] != ':' by {
            if i < d.len() - 1 {
                assert(d[i] == decimal(n / 10)[i]);
            }
        }
    }
}

/// A text's prefix of decimal digits is worth no more than the whole text.
pub proof fn lemma_digits_value_prefix(s: Seq<char>, i: int)
    requires
        all_digits(s),
        0 <= i <= s.len(),
    ensures
        digits_value(s.subrange(0, i)) <= digits_value(s),
    decreases s.len(),
{
    if i == s.len() {
        assert(s.subrange(0, i) =~= s);
    } else {
        let t = s.drop_last();
        assert(all_digits(t)) by {
            assert forall|j: int| 0 <= j < t.len() implies is_digit(#[trigger] t[j]) by {
                assert(t[j] == s[j]);
            }
        }
        lemma_digits_value_prefix(t, i);
        assert(t.subrange(0, i) =~= s.subrange(0, i));
        assert(is_digit(s[s.len() - 1]));
    }
}

/// Splitting a text around its first colon.
pub proof fn lemma_first_colon(s: Seq<char>, a: Seq<char>, b: Seq<char>)
    requires
        s == a + seq![':'] + b,
        !a.contains(':'),
    ensures
        s.contains(':'),
        first_colon(s) == a.len(),
        s.subrange(0, a.len() as int) == a,
        s.subrange(a.len() as int + 1, s.len() as int) == b,
{
    let k = a.len() as int;
    assert(s[k] == ':');
    assert(s.subrange(0, k) =~= a);
    assert(s.subrange(k + 1, s.len() as int) =~= b);
    let i = first_colon(s);
    assert(0 <= i < s.len() && s[i] == ':' && !s.subrange(0, i).contains(':'));
    if i < k {
        assert(a[i] == ':');
    } else if i > k {
        assert(s.subrange(0, i)[k] == ':');
    }
}

/// Reads a text as an event number.
fn read_event_number(s: &str) -> (r: Option<u64>)
    ensures
        r == parse_event_number(s@),
{
    if !s.is_ascii() {
        return None;
    }
    let bytes = s.as_bytes();
    proof {
        vstd::utf8::is_ascii_chars_encode_utf8(s@);
    }
    let n = bytes.len();
    if n == 0 {
        return None;
    }
    let mut value: u64 = 0;
    let mut i: usize = 0;
    while i < n
        invariant
            n == bytes@.len(),
            n == s@.len(),
            is_ascii_chars(s@),
            forall|j: int| 0 <= j < n ==> #[trigger] bytes@[j] == s@[j] as u8,
            0 <= i <= n,
            all_digits(s@.subrange(0, i as int)),
            value == digits_value(s@.subrange(0, i as int)),
        decreases n - i,
    {
        let b = bytes[i];
        let ghost c = s@[i as int];
        assert(b == c as u8);
        if b < 48 || b > 57 {
            assert(!is_digit(c));
            return None;
        }
        let d = (b - 48) as u64;
        let ghost next = s@.subrange(0, i + 1);
        assert(next.drop_last() =~= s@.subrange(0, i as int));
        assert(all_digits(next)) by {
            assert forall|j: int| 0 <= j < next.len() implies is_digit(#[trigger] next[j]) by {
                if j < i {
                    assert(next[j] == s@.subrange(0, i as int)[j]);
                }
            }
        }
        assert(digits_value(next) == value * 10 + d);
        if value > (u64::MAX - d) / 10 {
            assert(value * 10 + d > u64::MAX) by (nonlinear_arith)
                requires
                    value > (u64::MAX - d) / 10,
                    d <= 9,
            ;
            proof {
                if all_digits(s@) {
                    lemma_digits_value_prefix(s@, i + 1);
                }
            }
            return None;
        }
        assert(value * 10 + d <= u64::MAX) by (nonlinear_arith)
            requires
                value <= (u64::MAX - d) / 10,
                d <= 9,
        ;
        value = value * 10 + d;
        i += 1;
    }
    assert(s@.subrange(0, n as int) =~= s@);
    Some(value)
}

/// Appends the decimal writing of `n`, as UTF-8 bytes.
fn push_decimal(n: u64, out: &mut Vec<u8>)
    ensures
        final(out)@ == old(out)@ + encode_utf8(decimal(n as nat)),
    decreases n,
{
    if n >= 10 {
        push_decimal(n / 10, out);
    }
    let d = (n % 10) as u8;
    out.push(d + 48);
    proof {
        lemma_digit_char(d as nat);
        lemma_encode_utf8_ascii_char(digit_char(d as nat));
        if n >= 10 {
            assert(decimal(n as nat) == decimal((n / 10) as nat) + seq![digit_char(d as nat)]);
            lemma_encode_utf8_append(decimal((n / 10) as nat), seq![digit_char(d as nat)]);
        }
        assert(out@ =~= old(out)@ + encode_utf8(decimal(n as nat)));
    }
}

/// A subscription specifier: a stream and where to start reading it.
#[derive(Debug)]
pub struct Stream {
    pub name: StreamName,
    pub from: Option<u64>,
}

impl View for Stream {
    type V = StreamSpec;

    open spec fn view(&self) -> StreamSpec {
        StreamSpec { name: self.name@, from: self.from }
    }
}

impl Stream {
    pub open spec fn wf(&self) -> bool {
        self.name.wf()
    }

    /// Reads a text as a subscription specifier.
    pub fn parse(s: &str) -> (r: Result<Stream, ParseStreamError>)
        ensures
            match r {
                Ok(st) => parse_stream(s@) == Ok::<StreamSpec, ParseStreamError>(st@) && st.wf(),
                Err(e) => parse_stream(s@) == Err::<StreamSpec, ParseStreamError>(e),
            },
    {
        match split_at_colon(s) {
            None => match StreamName::parse(s) {
                Ok(name) => Ok(Stream { name, from: None }),
                Err(e) => Err(ParseStreamError::StreamNameError(e)),
            },
            Some((a, b)) => {
                proof {
                    lemma_first_colon(s@, a@, b@);
                }
                match StreamName::parse(a) {
                    Err(e) => Err(ParseStreamError::StreamNameError(e)),
                    Ok(name) => match read_event_number(b) {
                        Some(n) => Ok(Stream { name, from: Some(n) }),
                        None => Err(ParseStreamError::InvalidEventNumber),
                    },
                }
            },
        }
    }

    /// The specifier's canonical text.
    pub fn to_text(&self) -> (r: String)
        ensures
            r@ == stream_text(self@),
    {
        match self.from {
            None => self.name.as_str().to_owned(),
            Some(n) => {
                let head = concat(self.name.as_str(), ":");
                let number = u64_text(n);
                let r = concat(head.as_str(), number.as_str());
                proof {
                    reveal_strlit(":");
                }
                assert(r@ =~= stream_text(self@));
                r
            },
        }
    }

    /// The UTF-8 bytes of the specifier's canonical text.
    pub fn to_bytes(&self) -> (r: Vec<u8>)
        ensures
            r@ == encode_utf8(stream_text(self@)),
    {
        let mut out = self.name.to_bytes();
        match self.from {
            None => {},
            Some(n) => {
                out.push(58u8);
                push_decimal(n, &mut out);
                proof {
                    let name = self.name@;
                    lemma_encode_utf8_ascii_char(':');
                    lemma_encode_utf8_append(name, seq![':']);
                    lemma_encode_utf8_append(name + seq![':'], decimal(n as nat));
                    assert(out@ =~= encode_utf8(stream_text(self@)));
                }
            },
        }
        out
    }
}

/// Reading back the canonical text of a specifier gives the specifier.
pub proof fn lemma_stream_text_parse(m: StreamSpec)
    requires
        valid_stream_name(m.name),
    ensures
        parse_stream(stream_text(m)) == Ok::<StreamSpec, ParseStreamError>(m),
{
    match m.from {
        None => {},
        Some(n) => {
            lemma_decimal(n as nat);
            lemma_first_colon(stream_text(m), m.name, decimal(n as nat));
        },
    }
}

} // verus!
