//! Commands of the event-streaming service, and their conversion from and to RESP
//! values.

use vstd::prelude::*;
use vstd::utf8::*;
use vstd::slice::slice_to_vec;
use crate::resp::{RespValue, bulk_strings};
use crate::stream::{
    ParseStreamError, StreamNameError, StreamName, Stream, StreamSpec, parse_stream_name,
    parse_stream, stream_text, parse_stream_error_text, decimal,
};
use crate::text::{
    ascii_lower, utf8_str, to_ascii_lowercase, debug_str_text, debug_bytes_text, debug_str,
    debug_bytes, concat, u64_text, utf8_error_text,
};

verus! {

broadcast use vstd::utf8::group_utf8_lib;

/// A command of the service.
#[derive(Debug)]
pub enum Command {
    Publish { stream: StreamName, event: Vec<u8> },
    Subscribe { streams: Vec<Stream> },
}

/// What a command denotes.
pub enum CommandSpec {
    Publish { stream: Seq<char>, event: Seq<u8> },
    Subscribe { streams: Seq<StreamSpec> },
}

impl View for Command {
    type V = CommandSpec;

    open spec fn view(&self) -> CommandSpec {
        match self {
            Command::Publish { stream, event } => CommandSpec::Publish {
                stream: stream@,
                event: event@,
            },
            Command::Subscribe { streams } => CommandSpec::Subscribe {
                streams: streams@.map_values(|s: Stream| s@),
            },
        }
    }
}

/// Why a RESP value is not a command.
#[derive(Debug)]
pub enum RespCommandConvertError {
    InvalidRespType,
    MissingCommandName,
    UnknownCommand(String),
    InvalidStream(ParseStreamError),
    InvalidNumberOfArguments { expected: usize },
    InvalidUtf8String(core::str::Utf8Error),
}

/// What a conversion error denotes.
pub enum DecodeFailure {
    InvalidRespType,
    MissingCommandName,
    UnknownCommand(Seq<char>),
    InvalidStream(ParseStreamError),
    InvalidNumberOfArguments { expected: usize },
    InvalidUtf8String,
}

impl View for RespCommandConvertError {
    type V = DecodeFailure;

    open spec fn view(&self) -> DecodeFailure {
        match self {
            RespCommandConvertError::InvalidRespType => DecodeFailure::InvalidRespType,
            RespCommandConvertError::MissingCommandName => DecodeFailure::MissingCommandName,
            RespCommandConvertError::UnknownCommand(name) => DecodeFailure::UnknownCommand(name@),
            RespCommandConvertError::InvalidStream(e) => DecodeFailure::InvalidStream(*e),
            RespCommandConvertError::InvalidNumberOfArguments { expected } => {
                DecodeFailure::InvalidNumberOfArguments { expected: *expected }
            },
            RespCommandConvertError::InvalidUtf8String(_) => DecodeFailure::InvalidUtf8String,
        }
    }
}

impl From<core::str::Utf8Error> for RespCommandConvertError {
    fn from(error: core::str::Utf8Error) -> (r: RespCommandConvertError)
        ensures
            r == RespCommandConvertError::InvalidUtf8String(error),
    {
        RespCommandConvertError::InvalidUtf8String(error)
    }
}

impl vstd::std_specs::convert::FromSpecImpl<core::str::Utf8Error> for RespCommandConvertError {
    open spec fn obeys_from_spec() -> bool {
        true
    }

    open spec fn from_spec(v: core::str::Utf8Error) -> RespCommandConvertError {
        RespCommandConvertError::InvalidUtf8String(v)
    }
}

impl From<ParseStreamError> for RespCommandConvertError {
    fn from(error: ParseStreamError) -> (r: RespCommandConvertError)
        ensures
            r == RespCommandConvertError::InvalidStream(error),
    {
        RespCommandConvertError::InvalidStream(error)
    }
}

impl vstd::std_specs::convert::FromSpecImpl<ParseStreamError> for RespCommandConvertError {
    open spec fn obeys_from_spec() -> bool {
        true
    }

    open spec fn from_spec(v: ParseStreamError) -> RespCommandConvertError {
        RespCommandConvertError::InvalidStream(v)
    }
}

impl From<StreamNameError> for RespCommandConvertError {
    fn from(error: StreamNameError) -> (r: RespCommandConvertError)
        ensures
            r == RespCommandConvertError::InvalidStream(ParseStreamError::StreamNameError(error)),
    {
        RespCommandConvertError::InvalidStream(ParseStreamError::StreamNameError(error))
    }
}

impl vstd::std_specs::convert::FromSpecImpl<StreamNameError> for RespCommandConvertError {
    open spec fn obeys_from_spec() -> bool {
        true
    }

    open spec fn from_spec(v: StreamNameError) -> RespCommandConvertError {
        RespCommandConvertError::InvalidStream(ParseStreamError::StreamNameError(v))
    }
}

/// The message of a conversion error; for an error of UTF-8 it is followed by the
/// description of where the bytes stop being UTF-8.
pub open spec fn error_text(e: DecodeFailure) -> Seq<char> {
    match e {
        DecodeFailure::InvalidRespType => "invalid RESP type, expected array of bulk string"@,
        DecodeFailure::InvalidStream(e) => "invalid stream; "@ + parse_stream_error_text(e),
        DecodeFailure::UnknownCommand(name) => "command "@ + debug_str_text(name) + " not found"@,
        DecodeFailure::MissingCommandName => "missing command name"@,
        DecodeFailure::InvalidNumberOfArguments { expected } => "invalid number of arguments (expected "@
            + decimal(expected as nat) + ")"@,
        DecodeFailure::InvalidUtf8String => "invalid utf8 string: "@,
    }
}

impl RespCommandConvertError {
    /// A one-line human-readable description of the error.
    pub fn message(&self) -> (r: String)
        ensures
            self@ is InvalidUtf8String ==> error_text(self@).is_prefix_of(r@),
            !(self@ is InvalidUtf8String) ==> r@ == error_text(self@),
    {
        match self {
            RespCommandConvertError::InvalidRespType => {
                "invalid RESP type, expected array of bulk string".to_owned()
            },
            RespCommandConvertError::InvalidStream(e) => {
                let detail = e.message();
                concat("invalid stream; ", detail.as_str())
            },
            RespCommandConvertError::UnknownCommand(name) => {
                let quoted = debug_str(name.as_str());
                let head = concat("command ", quoted.as_str());
                let r = concat(head.as_str(), " not found");
                assert(r@ =~= error_text(self@));
                r
            },
            RespCommandConvertError::MissingCommandName => "missing command name".to_owned(),
            RespCommandConvertError::InvalidNumberOfArguments { expected } => {
                let number = u64_text(*expected as u64);
                let head = concat("invalid number of arguments (expected ", number.as_str());
                let r = concat(head.as_str(), ")");
                assert(r@ =~= error_text(self@));
                r
            },
            RespCommandConvertError::InvalidUtf8String(e) => {
                let detail = utf8_error_text(e);
                let r = concat("invalid utf8 string: ", detail.as_str());
                assert(r@.subrange(0, error_text(self@).len() as int) =~= error_text(self@));
                r
            },
        }
    }
}

/// The rendering of an event for diagnostics: as text where it is UTF-8, else as
/// the list of its bytes.
pub open spec fn event_debug_text(event: Seq<u8>) -> Seq<char> {
    if valid_utf8(event) {
        debug_str_text(decode_utf8(event))
    } else {
        debug_bytes_text(event)
    }
}

/// The specifiers' canonical texts, each rendered for diagnostics, separated by
/// commas.
pub open spec fn streams_debug_text(streams: Seq<StreamSpec>) -> Seq<char>
    decreases streams.len(),
{
    if streams.len() == 0 {
        Seq::empty()
    } else if streams.len() == 1 {
        debug_str_text(stream_text(streams[0]))
    } else {
        streams_debug_text(streams.drop_last()) + ", "@ + debug_str_text(stream_text(streams.last()))
    }
}

/// The rendering of a command for diagnostics.
pub open spec fn command_debug_text(c: CommandSpec) -> Seq<char> {
    match c {
        CommandSpec::Publish { stream, event } => "Publish { stream: "@ + debug_str_text(stream)
            + ", event: "@ + event_debug_text(event) + " }"@,
        CommandSpec::Subscribe { streams } => "Subscribe { streams: ["@ + streams_debug_text(
            streams,
        ) + "] }"@,
    }
}

pub open spec fn publish_name() -> Seq<char> {
    "publish"@
}

pub open spec fn subscribe_name() -> Seq<char> {
    "subscribe"@
}

/// The command name that a byte string carries: its text, in ASCII lowercase.
pub open spec fn decode_name(b: Seq<u8>) -> Result<Seq<char>, DecodeFailure> {
    if valid_utf8(b) {
        Ok(ascii_lower(decode_utf8(b)))
    } else {
        Err(DecodeFailure::InvalidUtf8String)
    }
}

/// The stream name that a byte string carries.
pub open spec fn decode_stream_name(b: Seq<u8>) -> Result<Seq<char>, DecodeFailure> {
    if !valid_utf8(b) {
        Err(DecodeFailure::InvalidUtf8String)
    } else {
        match parse_stream_name(decode_utf8(b)) {
            Ok(name) => Ok(name),
            Err(e) => Err(DecodeFailure::InvalidStream(ParseStreamError::StreamNameError(e))),
        }
    }
}

/// The subscription specifier that a byte string carries.
pub open spec fn decode_stream(b: Seq<u8>) -> Result<StreamSpec, DecodeFailure> {
    if !valid_utf8(b) {
        Err(DecodeFailure::InvalidUtf8String)
    } else {
        match parse_stream(decode_utf8(b)) {
            Ok(s) => Ok(s),
            Err(e) => Err(DecodeFailure::InvalidStream(e)),
        }
    }
}

/// The specifiers that byte strings carry, in order; the first failure if any.
pub open spec fn decode_streams(args: Seq<Seq<u8>>) -> Result<Seq<StreamSpec>, DecodeFailure>
    decreases args.len(),
{
    if args.len() == 0 {
        Ok(Seq::empty())
    } else {
        match decode_streams(args.drop_last()) {
            Err(e) => Err(e),
            Ok(prefix) => match decode_stream(args.last()) {
                Err(e) => Err(e),
                Ok(s) => Ok(prefix.push(s)),
            },
        }
    }
}

/// The command that a sequence of byte strings denotes, or why there is none.
pub open spec fn decode_args(args: Seq<Seq<u8>>) -> Result<CommandSpec, DecodeFailure> {
    if args.len() == 0 {
        Err(DecodeFailure::MissingCommandName)
    } else {
        match decode_name(args[0]) {
            Err(e) => Err(e),
            Ok(name) => if name == publish_name() {
                if args.len() != 3 {
                    Err(DecodeFailure::InvalidNumberOfArguments { expected: 2 })
                } else {
                    match decode_stream_name(args[1]) {
                        Ok(stream) => Ok(CommandSpec::Publish { stream, event: args[2] }),
                        Err(e) => Err(e),
                    }
                }
            } else if name == subscribe_name() {
                match decode_streams(args.drop_first()) {
                    Ok(streams) => Ok(CommandSpec::Subscribe { streams }),
                    Err(e) => Err(e),
                }
            } else {
                Err(DecodeFailure::UnknownCommand(name))
            },
        }
    }
}

/// The command that a RESP value denotes, or why there is none.
pub open spec fn decode_resp(v: RespValue) -> Result<CommandSpec, DecodeFailure> {
    match bulk_strings(v) {
        Some(args) => decode_args(args),
        None => Err(DecodeFailure::InvalidRespType),
    }
}

/// The byte strings that a command is written as.
pub open spec fn encode_command(c: CommandSpec) -> Seq<Seq<u8>> {
    match c {
        CommandSpec::Publish { stream, event } => seq![
            encode_utf8(publish_name()),
            encode_utf8(stream),
            event,
        ],
        CommandSpec::Subscribe { streams } => seq![encode_utf8(subscribe_name())]
            + streams.map_values(|s: StreamSpec| encode_utf8(stream_text(s))),
    }
}

pub open spec fn outcome_view(r: Result<Command, RespCommandConvertError>) -> Result<
    CommandSpec,
    DecodeFailure,
> {
    match r {
        Ok(c) => Ok(c@),
        Err(e) => Err(e@),
    }
}

/// A failure among the first specifiers stays the failure of the whole list.
proof fn lemma_decode_streams_failure(a: Seq<Seq<u8>>, b: Seq<Seq<u8>>)
    requires
        decode_streams(a) is Err,
    ensures
        decode_streams(a + b) == decode_streams(a),
    decreases b.len(),
{
    if b.len() == 0 {
        assert(a + b =~= a);
    } else {
        lemma_decode_streams_failure(a, b.drop_last());
        assert((a + b).drop_last() =~= a + b.drop_last());
    }
}

/// Reads one subscription specifier.
fn decode_one_stream(bytes: &Vec<u8>) -> (r: Result<Stream, RespCommandConvertError>)
    ensures
        match r {
            Ok(st) => decode_stream(bytes@) == Ok::<StreamSpec, DecodeFailure>(st@) && st.wf(),
            Err(e) => decode_stream(bytes@) == Err::<StreamSpec, DecodeFailure>(e@),
        },
{
    match utf8_str(bytes.as_slice()) {
        Ok(text) => match Stream::parse(text) {
            Ok(stream) => Ok(stream),
            Err(e) => Err(RespCommandConvertError::InvalidStream(e)),
        },
        Err(e) => Err(RespCommandConvertError::InvalidUtf8String(e)),
    }
}

/// Reads the specifiers that follow the command name, in order.
fn decode_subscription(args: &Vec<Vec<u8>>) -> (r: Result<Vec<Stream>, RespCommandConvertError>)
    requires
        args@.len() >= 1,
    ensures
        match r {
            Ok(streams) => decode_streams(args.deep_view().drop_first()) == Ok::<
                Seq<StreamSpec>,
                DecodeFailure,
            >(streams@.map_values(|s: Stream| s@)) && forall|j: int|
                0 <= j < streams@.len() ==> (#[trigger] streams@[j]).wf(),
            Err(e) => decode_streams(args.deep_view().drop_first()) == Err::<
                Seq<StreamSpec>,
                DecodeFailure,
            >(e@),
        },
{
    let ghost a = args.deep_view();
    let mut streams: Vec<Stream> = Vec::new();
    let mut i: usize = 1;
    assert(a.subrange(1, 1) =~= Seq::<Seq<u8>>::empty());
    assert(streams@.map_values(|s: Stream| s@) =~= Seq::<StreamSpec>::empty());
    while i < args.len()
        invariant
            a == args.deep_view(),
            a.len() == args@.len(),
            1 <= i <= a.len(),
            forall|j: int| 0 <= j < streams@.len() ==> (#[trigger] streams@[j]).wf(),
            decode_streams(a.subrange(1, i as int)) == Ok::<Seq<StreamSpec>, DecodeFailure>(
                streams@.map_values(|s: Stream| s@),
            ),
        decreases a.len() - i,
    {
        let ghost after = a.subrange(1, i + 1);
        assert(after.drop_last() =~= a.subrange(1, i as int));
        assert(args@[i as int]@ =~= a[i as int]);
        assert(after.last() == a[i as int]);
        match decode_one_stream(&args[i]) {
            Ok(stream) => {
                let ghost prev = streams@;
                let ghost sv = stream@;
                streams.push(stream);
                assert(streams@.map_values(|s: Stream| s@) =~= prev.map_values(|s: Stream| s@).push(sv));
            },
            Err(e) => {
                proof {
                    lemma_decode_streams_failure(after, a.subrange(i + 1, a.len() as int));
                    assert(after + a.subrange(i + 1, a.len() as int) =~= a.drop_first());
                }
                return Err(e);
            },
        }
        i += 1;
    }
    assert(a.subrange(1, a.len() as int) =~= a.drop_first());
    Ok(streams)
}

impl Command {
    pub open spec fn wf(&self) -> bool {
        match self {
            Command::Publish { stream, .. } => stream.wf(),
            Command::Subscribe { streams } => forall|i: int|
                0 <= i < streams@.len() ==> (#[trigger] streams@[i]).wf(),
        }
    }

    /// Reads a command from a RESP value.
    pub fn from_resp(value: RespValue) -> (r: Result<Command, RespCommandConvertError>)
        ensures
            outcome_view(r) == decode_resp(value),
            r matches Ok(c) ==> c.wf(),
    {
        match value.into_bulk_strings() {
            Some(args) => Command::from_args(args),
            None => Err(RespCommandConvertError::InvalidRespType),
        }
    }

    /// Reads a command from its name and arguments.
    pub fn from_args(args: Vec<Vec<u8>>) -> (r: Result<Command, RespCommandConvertError>)
        ensures
            outcome_view(r) == decode_args(args.deep_view()),
            r matches Ok(c) ==> c.wf(),
    {
        let ghost a = args.deep_view();
        if args.len() == 0 {
            return Err(RespCommandConvertError::MissingCommandName);
        }
        assert(args@[0]@ =~= a[0]);
        let name = match utf8_str(args[0].as_slice()) {
            Ok(text) => to_ascii_lowercase(text),
            Err(e) => return Err(RespCommandConvertError::InvalidUtf8String(e)),
        };
        let publish = "publish".to_owned();
        let subscribe = "subscribe".to_owned();
        if name == publish {
            if args.len() != 3 {
                return Err(RespCommandConvertError::InvalidNumberOfArguments { expected: 2 });
            }
            assert(args@[1]@ =~= a[1]);
            assert(args@[2]@ =~= a[2]);
            let stream = match utf8_str(args[1].as_slice()) {
                Ok(text) => match StreamName::parse(text) {
                    Ok(stream) => stream,
                    Err(e) => {
                        return Err(
                            RespCommandConvertError::InvalidStream(
                                ParseStreamError::StreamNameError(e),
                            ),
                        );
                    },
                },
                Err(e) => return Err(RespCommandConvertError::InvalidUtf8String(e)),
            };
            let mut args = args;
            let event = args.pop().unwrap();
            Ok(Command::Publish { stream, event })
        } else if name == subscribe {
            match decode_subscription(&args) {
                Ok(streams) => Ok(Command::Subscribe { streams }),
                Err(e) => Err(e),
            }
        } else {
            Err(RespCommandConvertError::UnknownCommand(name))
        }
    }
    /// A rendering of the command for diagnostics; an event that is UTF-8 shows as
    /// text, any other as its bytes.
    pub fn debug_text(&self) -> (r: String)
        ensures
            r@ == command_debug_text(self@),
    {
        match self {
            Command::Publish { stream, event } => {
                let name = debug_str(stream.as_str());
                let shown = match utf8_str(event.as_slice()) {
                    Ok(text) => debug_str(text),
                    Err(_) => debug_bytes(event.as_slice()),
                };
                let r = concat("Publish { stream: ", name.as_str());
                let r = concat(r.as_str(), ", event: ");
                let r = concat(r.as_str(), shown.as_str());
                let r = concat(r.as_str(), " }");
                assert(r@ =~= command_debug_text(self@));
                r
            },
            Command::Subscribe { streams } => {
                let ghost specs = streams@.map_values(|s: Stream| s@);
                let mut list = String::new();
                let mut i: usize = 0;
                assert(specs.subrange(0, 0) =~= Seq::<StreamSpec>::empty());
                while i < streams.len()
                    invariant
                        specs == streams@.map_values(|s: Stream| s@),
                        0 <= i <= streams@.len(),
                        list@ == streams_debug_text(specs.subrange(0, i as int)),
                    decreases streams@.len() - i,
                {
                    let ghost next = specs.subrange(0, i + 1);
                    assert(next.drop_last() =~= specs.subrange(0, i as int));
                    let text = streams[i].to_text();
                    let shown = debug_str(text.as_str());
                    if i > 0 {
                        list = concat(list.as_str(), ", ");
                    } else {
                        assert(next[0] == specs[0]);
                    }
                    list = concat(list.as_str(), shown.as_str());
                    assert(list@ =~= streams_debug_text(next));
                    i += 1;
                }
                assert(specs.subrange(0, i as int) =~= specs);
                let r = concat("Subscribe { streams: [", list.as_str());
                let r = concat(r.as_str(), "] }");
                assert(r@ =~= command_debug_text(self@));
                r
            },
        }
    }

    /// Writes the command as a RESP array of bulk strings, with its name in lowercase.
    pub fn into_resp(self) -> (r: RespValue)
        ensures
            bulk_strings(r) == Some(encode_command(self@)),
    {
        match self {
            Command::Publish { stream, event } => {
                let ghost ev = event@;
                let items = vec![
                    RespValue::BulkString(slice_to_vec("publish".as_bytes())),
                    RespValue::BulkString(stream.to_bytes()),
                    RespValue::BulkString(event),
                ];
                let r = RespValue::Array(items);
                assert(bulk_strings(r)->Some_0 =~= seq![
                    encode_utf8(publish_name()),
                    encode_utf8(stream@),
                    ev,
                ]);
                r
            },
            Command::Subscribe { streams } => {
                let ghost specs = streams@.map_values(|s: Stream| s@);
                let mut items: Vec<RespValue> = Vec::new();
                items.push(RespValue::BulkString(slice_to_vec("subscribe".as_bytes())));
                let mut i: usize = 0;
                while i < streams.len()
                    invariant
                        specs == streams@.map_values(|s: Stream| s@),
                        0 <= i <= streams@.len(),
                        items@.len() == i + 1,
                        forall|j: int| 0 <= j < items@.len() ==> (#[trigger] items@[j]) is BulkString,
                        items@[0]->BulkString_0@ == encode_utf8(subscribe_name()),
                        forall|j: int|
                            0 <= j < i ==> (#[trigger] items@[j + 1])->BulkString_0@ == encode_utf8(
                                stream_text(specs[j]),
                            ),
                    decreases streams@.len() - i,
                {
                    items.push(RespValue::BulkString(streams[i].to_bytes()));
                    i += 1;
                }
                let r = RespValue::Array(items);
                let ghost expected = seq![encode_utf8(subscribe_name())] + specs.map_values(
                    |s: StreamSpec| encode_utf8(stream_text(s)),
                );
                assert forall|j: int| 0 <= j < items@.len() implies #[trigger] bulk_strings(r)->Some_0[j]
                    == expected[j] by {
                    if j > 0 {
                        assert(items@[(j - 1) + 1]->BulkString_0@ == encode_utf8(stream_text(specs[j - 1])));
                    }
                }
                assert(bulk_strings(r)->Some_0 =~= expected);
                r
            },
        }
    }
}

} // verus!
