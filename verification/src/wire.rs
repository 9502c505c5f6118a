use vstd::prelude::*;

use crate::protocol::{
    lemma_decode_encode, lemma_encoded_len, spec_decode, spec_encode, spec_encoded_len, Command,
    CommandView, DecodeError, MAX_COMMAND_BYTES,
};

verus! {

/// Bytes of the big-endian length that precedes every command on the TCP stream.
pub const LEN_PREFIX_BYTES: usize = 2;

/// Largest message on the TCP stream: length prefix and largest command.
pub const MAX_WIRE_BYTES: usize = LEN_PREFIX_BYTES + MAX_COMMAND_BYTES;

/// The two bytes of `len` as a big-endian `u16`.
pub open spec fn spec_len_prefix(len: nat) -> Seq<u8> {
    seq![(len / 256) as u8, (len % 256) as u8]
}

/// The value of a big-endian `u16` given by its two bytes.
pub open spec fn spec_prefix_value(prefix: [u8; 2]) -> nat {
    (prefix[0] as nat) * 256 + prefix[1] as nat
}

/// A command as the studio app sends it: its length as a big-endian `u16`,
/// then its encoding.
pub open spec fn spec_frame_command(c: CommandView) -> Seq<u8> {
    spec_len_prefix(spec_encoded_len(c)) + spec_encode(c)
}

/// The bytes that carry `command` on the TCP stream: the length of its
/// encoding as a big-endian `u16`, then the encoding.
pub fn frame_command(command: &Command) -> (bytes: Vec<u8>)
    ensures
        bytes@ == spec_frame_command(command@),
        bytes@.len() <= MAX_WIRE_BYTES,
{
    let mut payload = [0u8; MAX_COMMAND_BYTES];
    proof {
        lemma_encoded_len(command@);
    }
    let len = command.encode(&mut payload);
    let mut bytes: Vec<u8> = Vec::new();
    bytes.push((len / 256) as u8);
    bytes.push((len % 256) as u8);
    for i in 0..len
        invariant
            len == spec_encoded_len(command@),
            len <= MAX_COMMAND_BYTES,
            payload@.len() == MAX_COMMAND_BYTES,
            payload@.take(len as int) == spec_encode(command@),
            bytes@ == spec_len_prefix(len as nat) + payload@.take(i as int),
    {
        bytes.push(payload[i]);
        assert(payload@.take(i + 1) =~= payload@.take(i as int).push(payload@[i as int]));
        assert(bytes@ =~= spec_len_prefix(len as nat) + payload@.take(i + 1));
    }
    bytes
}

/// The length announced by a received two-byte prefix, or `None` when it
/// exceeds `MAX_COMMAND_BYTES` (the device then drops the connection).
pub fn read_frame_length(prefix: [u8; 2]) -> (len: Option<usize>)
    ensures
        spec_prefix_value(prefix) <= MAX_COMMAND_BYTES ==> len == Some(
            spec_prefix_value(prefix) as usize,
        ),
        spec_prefix_value(prefix) > MAX_COMMAND_BYTES ==> len is None,
{
    let len = (prefix[0] as usize) * 256 + prefix[1] as usize;
    if len > MAX_COMMAND_BYTES {
        None
    } else {
        Some(len)
    }
}

/// What the device reads from a framed command is that command: the prefix
/// announces a length that it accepts, and decoding the bytes so announced
/// gives the command back.
pub proof fn lemma_frame_roundtrip(c: CommandView, rest: Seq<u8>)
    requires
        c.well_formed(),
    ensures
        ({
            let bytes = spec_frame_command(c) + rest;
            let prefix = [bytes[0], bytes[1]];
            &&& spec_prefix_value(prefix) == spec_encoded_len(c)
            &&& spec_prefix_value(prefix) <= MAX_COMMAND_BYTES
            &&& spec_decode(bytes.subrange(2, 2 + spec_encoded_len(c) as int))
                == Ok::<CommandView, DecodeError>(c)
        }),
{
    lemma_encoded_len(c);
    lemma_decode_encode(c, Seq::empty());
    let bytes = spec_frame_command(c) + rest;
    let n = spec_encoded_len(c);
    assert(bytes.subrange(2, 2 + n as int) =~= spec_encode(c) + Seq::<u8>::empty());
    let prefix = [bytes[0], bytes[1]];
    assert(prefix[0] == (n / 256) as u8);
    assert(prefix[1] == (n % 256) as u8);
}

} // verus!
