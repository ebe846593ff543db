//! Laws relating the decoder and the encoder.

use vstd::prelude::*;
use vstd::utf8::*;
use crate::command::{
    CommandSpec, DecodeFailure, decode_args, decode_name, decode_stream, decode_streams,
    encode_command, publish_name, subscribe_name,
};
use crate::stream::{
    ParseStreamError, StreamSpec, parse_stream, parse_stream_name, stream_text, valid_stream_name,
    lemma_stream_text_parse,
};
use crate::text::ascii_lower;

verus! {

broadcast use vstd::utf8::group_utf8_lib;

/// The two command names are lowercase already, and differ.
pub proof fn lemma_command_names()
    ensures
        ascii_lower(publish_name()) == publish_name(),
        ascii_lower(subscribe_name()) == subscribe_name(),
        publish_name() != subscribe_name(),
        decode_name(encode_utf8(publish_name())) == Ok::<Seq<char>, DecodeFailure>(publish_name()),
        decode_name(encode_utf8(subscribe_name())) == Ok::<Seq<char>, DecodeFailure>(
            subscribe_name(),
        ),
{
    reveal_strlit("publish");
    reveal_strlit("subscribe");
    assert(ascii_lower(publish_name()) =~= publish_name());
    assert(ascii_lower(subscribe_name()) =~= subscribe_name());
    assert(publish_name().len() != subscribe_name().len());
}

/// A publish command written out and read back is the same command, whatever bytes
/// its event holds.
pub proof fn lemma_publish_round_trip(stream: Seq<char>, event: Seq<u8>)
    requires
        valid_stream_name(stream),
    ensures
        decode_args(encode_command(CommandSpec::Publish { stream, event })) == Ok::<
            CommandSpec,
            DecodeFailure,
        >(CommandSpec::Publish { stream, event }),
{
    lemma_command_names();
}

/// Reading back the written specifiers gives them back, in order.
proof fn lemma_decode_written_streams(streams: Seq<StreamSpec>)
    requires
        forall|i: int| 0 <= i < streams.len() ==> valid_stream_name(#[trigger] streams[i].name),
    ensures
        decode_streams(streams.map_values(|s: StreamSpec| encode_utf8(stream_text(s)))) == Ok::<
            Seq<StreamSpec>,
            DecodeFailure,
        >(streams),
    decreases streams.len(),
{
    let written = streams.map_values(|s: StreamSpec| encode_utf8(stream_text(s)));
    if streams.len() == 0 {
        assert(written =~= Seq::<Seq<u8>>::empty());
        assert(streams =~= Seq::<StreamSpec>::empty());
    } else {
        let prefix = streams.drop_last();
        assert forall|i: int| 0 <= i < prefix.len() implies valid_stream_name(
            #[trigger] prefix[i].name,
        ) by {
            assert(prefix[i] == streams[i]);
        }
        lemma_decode_written_streams(prefix);
        assert(written.drop_last() =~= prefix.map_values(|s: StreamSpec| encode_utf8(stream_text(s))));
        let last = streams.last();
        assert(valid_stream_name(streams[streams.len() - 1].name));
        lemma_stream_text_parse(last);
        assert(written.last() == encode_utf8(stream_text(last)));
        assert(decode_stream(written.last()) == Ok::<StreamSpec, DecodeFailure>(last));
        assert(prefix.push(last) =~= streams);
        assert(decode_streams(written) == Ok::<Seq<StreamSpec>, DecodeFailure>(prefix.push(last)));
    }
}

/// A subscribe command written out and read back is the same command, for any
/// list of valid specifiers, the empty one included.
pub proof fn lemma_subscribe_round_trip(streams: Seq<StreamSpec>)
    requires
        forall|i: int| 0 <= i < streams.len() ==> valid_stream_name(#[trigger] streams[i].name),
    ensures
        decode_args(encode_command(CommandSpec::Subscribe { streams })) == Ok::<
            CommandSpec,
            DecodeFailure,
        >(CommandSpec::Subscribe { streams }),
{
    lemma_command_names();
    lemma_decode_written_streams(streams);
    let args = encode_command(CommandSpec::Subscribe { streams });
    assert(args.drop_first() =~= streams.map_values(|s: StreamSpec| encode_utf8(stream_text(s))));
}

/// The command name is matched without regard to ASCII case: two names that agree
/// once lowercased lead to the same outcome, whatever the arguments.
pub proof fn lemma_name_case_insensitive(a: Seq<u8>, b: Seq<u8>, rest: Seq<Seq<u8>>)
    requires
        valid_utf8(a),
        valid_utf8(b),
        ascii_lower(decode_utf8(a)) == ascii_lower(decode_utf8(b)),
    ensures
        decode_args(seq![a] + rest) == decode_args(seq![b] + rest),
{
    let x = seq![a] + rest;
    let y = seq![b] + rest;
    assert(x.drop_first() =~= rest);
    assert(y.drop_first() =~= rest);
    assert(x.len() == y.len());
    if x.len() == 3 {
        assert(x[1] == y[1] && x[2] == y[2]);
    }
}

/// An empty array names no command.
pub proof fn lemma_empty_is_missing_name()
    ensures
        decode_args(Seq::empty()) == Err::<CommandSpec, DecodeFailure>(
            DecodeFailure::MissingCommandName,
        ),
{
}

/// `publish` takes exactly two arguments.
pub proof fn lemma_publish_argument_count(name: Seq<u8>, rest: Seq<Seq<u8>>)
    requires
        decode_name(name) == Ok::<Seq<char>, DecodeFailure>(publish_name()),
        rest.len() != 2,
    ensures
        decode_args(seq![name] + rest) == Err::<CommandSpec, DecodeFailure>(
            DecodeFailure::InvalidNumberOfArguments { expected: 2 },
        ),
{
    assert((seq![name] + rest)[0] == name);
}

/// A name that is neither command fails as unknown, carrying the lowercased name.
pub proof fn lemma_unknown_command(name: Seq<u8>, rest: Seq<Seq<u8>>)
    requires
        valid_utf8(name),
        ascii_lower(decode_utf8(name)) != publish_name(),
        ascii_lower(decode_utf8(name)) != subscribe_name(),
    ensures
        decode_args(seq![name] + rest) == Err::<CommandSpec, DecodeFailure>(
            DecodeFailure::UnknownCommand(ascii_lower(decode_utf8(name))),
        ),
{
    assert((seq![name] + rest)[0] == name);
}

/// Where the specifiers before position `k` read well, the failure to read the
/// one at `k` is the failure of the whole list.
proof fn lemma_decode_streams_first_failure(args: Seq<Seq<u8>>, k: int)
    requires
        0 <= k < args.len(),
        decode_streams(args.subrange(0, k)) is Ok,
        decode_stream(args[k]) is Err,
    ensures
        decode_streams(args) == Err::<Seq<StreamSpec>, DecodeFailure>(
            decode_stream(args[k])->Err_0,
        ),
    decreases args.len(),
{
    if k == args.len() - 1 {
        assert(args.drop_last() =~= args.subrange(0, k));
    } else {
        assert(args.drop_last().subrange(0, k) =~= args.subrange(0, k));
        lemma_decode_streams_first_failure(args.drop_last(), k);
    }
}

/// Where the specifiers of `subscribe` before position `k` read well, the failure
/// to read the one at `k` is the outcome of the command.
proof fn lemma_subscribe_first_failure(name: Seq<u8>, specs: Seq<Seq<u8>>, k: int)
    requires
        decode_name(name) == Ok::<Seq<char>, DecodeFailure>(subscribe_name()),
        0 <= k < specs.len(),
        decode_streams(specs.subrange(0, k)) is Ok,
        decode_stream(specs[k]) is Err,
    ensures
        decode_args(seq![name] + specs) == Err::<CommandSpec, DecodeFailure>(
            decode_stream(specs[k])->Err_0,
        ),
{
    lemma_command_names();
    lemma_decode_streams_first_failure(specs, k);
    let args = seq![name] + specs;
    assert(args[0] == name);
    assert(args.drop_first() =~= specs);
}

/// A command name that is not UTF-8 fails as such, whatever follows.
pub proof fn lemma_name_not_utf8(name: Seq<u8>, rest: Seq<Seq<u8>>)
    requires
        !valid_utf8(name),
    ensures
        decode_args(seq![name] + rest) == Err::<CommandSpec, DecodeFailure>(
            DecodeFailure::InvalidUtf8String,
        ),
{
    assert((seq![name] + rest)[0] == name);
}

/// A stream name of `publish` that is not UTF-8 fails as such.
pub proof fn lemma_publish_stream_not_utf8(name: Seq<u8>, stream: Seq<u8>, event: Seq<u8>)
    requires
        decode_name(name) == Ok::<Seq<char>, DecodeFailure>(publish_name()),
        !valid_utf8(stream),
    ensures
        decode_args(seq![name, stream, event]) == Err::<CommandSpec, DecodeFailure>(
            DecodeFailure::InvalidUtf8String,
        ),
{
}

/// The event of `publish` is taken as it is: any bytes, UTF-8 or not, are accepted
/// and kept.
pub proof fn lemma_publish_event_verbatim(name: Seq<u8>, stream: Seq<u8>, event: Seq<u8>)
    requires
        decode_name(name) == Ok::<Seq<char>, DecodeFailure>(publish_name()),
        valid_utf8(stream),
        valid_stream_name(decode_utf8(stream)),
    ensures
        decode_args(seq![name, stream, event]) == Ok::<CommandSpec, DecodeFailure>(
            CommandSpec::Publish { stream: decode_utf8(stream), event },
        ),
{
}

/// The first specifier of `subscribe` that is not UTF-8 fails as such, once those
/// before it read well.
pub proof fn lemma_subscribe_stream_not_utf8(name: Seq<u8>, specs: Seq<Seq<u8>>, k: int)
    requires
        decode_name(name) == Ok::<Seq<char>, DecodeFailure>(subscribe_name()),
        0 <= k < specs.len(),
        decode_streams(specs.subrange(0, k)) is Ok,
        !valid_utf8(specs[k]),
    ensures
        decode_args(seq![name] + specs) == Err::<CommandSpec, DecodeFailure>(
            DecodeFailure::InvalidUtf8String,
        ),
{
    lemma_subscribe_first_failure(name, specs, k);
}

/// `subscribe` alone subscribes to nothing.
pub proof fn lemma_subscribe_alone(name: Seq<u8>)
    requires
        decode_name(name) == Ok::<Seq<char>, DecodeFailure>(subscribe_name()),
    ensures
        decode_args(seq![name]) == Ok::<CommandSpec, DecodeFailure>(
            CommandSpec::Subscribe { streams: Seq::empty() },
        ),
{
    lemma_command_names();
    assert(seq![name].drop_first() =~= Seq::<Seq<u8>>::empty());
}

/// A malformed stream name of `publish` fails with the parse error, unchanged.
pub proof fn lemma_publish_invalid_stream(name: Seq<u8>, stream: Seq<u8>, event: Seq<u8>)
    requires
        decode_name(name) == Ok::<Seq<char>, DecodeFailure>(publish_name()),
        valid_utf8(stream),
        parse_stream_name(decode_utf8(stream)) is Err,
    ensures
        decode_args(seq![name, stream, event]) == Err::<CommandSpec, DecodeFailure>(
            DecodeFailure::InvalidStream(
                ParseStreamError::StreamNameError(parse_stream_name(decode_utf8(stream))->Err_0),
            ),
        ),
{
}

/// The first malformed specifier of `subscribe` fails with its parse error,
/// unchanged, once those before it read well.
pub proof fn lemma_subscribe_invalid_stream(name: Seq<u8>, specs: Seq<Seq<u8>>, k: int)
    requires
        decode_name(name) == Ok::<Seq<char>, DecodeFailure>(subscribe_name()),
        0 <= k < specs.len(),
        decode_streams(specs.subrange(0, k)) is Ok,
        valid_utf8(specs[k]),
        parse_stream(decode_utf8(specs[k])) is Err,
    ensures
        decode_args(seq![name] + specs) == Err::<CommandSpec, DecodeFailure>(
            DecodeFailure::InvalidStream(parse_stream(decode_utf8(specs[k]))->Err_0),
        ),
{
    lemma_subscribe_first_failure(name, specs, k);
}

} // verus!
