//! The closed message catalog, its wire format, and the encode/decode
//! functions.
//!
//! Each message travels as one id byte followed by its fields in a fixed
//! order. Multi-byte integers are little-endian; the ADC data payload carries
//! a two-byte length prefix that counts bytes, not samples. The spec
//! functions [`spec_encode`] and [`spec_decode`] are the wire format; the
//! executable code is proved against them.

use vstd::prelude::*;

use crate::cereal::CerealStream;
use crate::cereal::DecodeError;
use crate::serial_params::Parity;
use crate::serial_params::StopBits;
use crate::serial_params::parity_byte;
use crate::serial_params::parity_or_default;
use crate::serial_params::stop_bits_byte;
use crate::serial_params::stop_bits_or_default;
use crate::wire::hi_byte;
use crate::wire::i16_to_u16;
use crate::wire::i16_to_wire;
use crate::wire::le16_bytes;
use crate::wire::le16_value;
use crate::wire::le32_bytes;
use crate::wire::le32_value;
use crate::wire::lo_byte;
use crate::wire::u16_from_le;
use crate::wire::u16_hi;
use crate::wire::u16_lo;
use crate::wire::u16_to_i16;
use crate::wire::u32_from_le;
use crate::wire::wire_to_i16;

verus! {

/// One message of the protocol: a closed tagged union, selected on the wire
/// by a one-byte type id.
#[derive(Debug, PartialEq)]
pub enum Message {
    /// Liveness probe. Id 1, no fields.
    Ping,
    /// Liveness answer. Id 2, no fields.
    Pong,
    /// Asks the peer for its version. Id 3, no fields.
    VersionQuery,
    /// The peer's version. Id 4.
    VersionData { major: u8, minor: u8, maintenance: u8, build: u8 },
    /// Asks for ADC samples. Id 5.
    AdcQuery { channel: u8, length: u8, increment_usec: u32 },
    /// ADC samples. Id 6; the payload is length-prefixed by its byte count.
    AdcData { channel: u8, data: Vec<i16> },
    /// Transfer counters. Id 7.
    Status { rcv_count: u16, snd_count: u16, rcv_fails: u16 },
    /// Serial-port configuration. Id 8.
    SerialParams { channel: u8, baud: u32, parity: Parity, stop: StopBits },
}

/// The mathematical value of a [`Message`]: the same shape, with the sample
/// vector abstracted to a sequence.
#[verifier::ext_equal]
pub enum MessageView {
    Ping,
    Pong,
    VersionQuery,
    VersionData { major: u8, minor: u8, maintenance: u8, build: u8 },
    AdcQuery { channel: u8, length: u8, increment_usec: u32 },
    AdcData { channel: u8, data: Seq<i16> },
    Status { rcv_count: u16, snd_count: u16, rcv_fails: u16 },
    SerialParams { channel: u8, baud: u32, parity: Parity, stop: StopBits },
}

impl View for Message {
    type V = MessageView;

    open spec fn view(&self) -> MessageView {
        match self {
            Message::Ping => MessageView::Ping,
            Message::Pong => MessageView::Pong,
            Message::VersionQuery => MessageView::VersionQuery,
            Message::VersionData { major, minor, maintenance, build } => MessageView::VersionData {
                major: *major,
                minor: *minor,
                maintenance: *maintenance,
                build: *build,
            },
            Message::AdcQuery { channel, length, increment_usec } => MessageView::AdcQuery {
                channel: *channel,
                length: *length,
                increment_usec: *increment_usec,
            },
            Message::AdcData { channel, data } => MessageView::AdcData {
                channel: *channel,
                data: data@,
            },
            Message::Status { rcv_count, snd_count, rcv_fails } => MessageView::Status {
                rcv_count: *rcv_count,
                snd_count: *snd_count,
                rcv_fails: *rcv_fails,
            },
            Message::SerialParams { channel, baud, parity, stop } => MessageView::SerialParams {
                channel: *channel,
                baud: *baud,
                parity: *parity,
                stop: *stop,
            },
        }
    }
}

/// The one-byte type id that selects a message's wire layout.
pub open spec fn type_id_of(v: MessageView) -> u8 {
    match v {
        MessageView::Ping => 1,
        MessageView::Pong => 2,
        MessageView::VersionQuery => 3,
        MessageView::VersionData { .. } => 4,
        MessageView::AdcQuery { .. } => 5,
        MessageView::AdcData { .. } => 6,
        MessageView::Status { .. } => 7,
        MessageView::SerialParams { .. } => 8,
    }
}

/// Whether a message fits its wire layout: the ADC payload's byte count must
/// fit the two-byte length prefix. Every other variant always fits.
pub open spec fn encodable(v: MessageView) -> bool {
    match v {
        MessageView::AdcData { data, .. } => 2 * data.len() <= 0xFFFF,
        _ => true,
    }
}

/// The byte sequence that carries a run of samples: each sample as two
/// little-endian bytes of its two's-complement pattern, in order.
pub open spec fn sample_bytes(data: Seq<i16>) -> Seq<u8>
    decreases data.len(),
{
    if data.len() == 0 {
        Seq::empty()
    } else {
        sample_bytes(data.drop_last()) + le16_bytes(i16_to_wire(data.last()))
    }
}

/// The samples carried by a byte sequence: one sample per byte pair, a
/// trailing odd byte carrying none.
pub open spec fn samples_of(b: Seq<u8>) -> Seq<i16> {
    Seq::new(b.len() / 2, |i: int| wire_to_i16(le16_value(b[2 * i], b[2 * i + 1])))
}

/// A run of samples takes exactly two bytes each on the wire.
pub proof fn lemma_sample_bytes_len(data: Seq<i16>)
    ensures
        sample_bytes(data).len() == 2 * data.len(),
    decreases data.len(),
{
    if data.len() > 0 {
        lemma_sample_bytes_len(data.drop_last());
    }
}

/// Extending a run of samples by one appends exactly that sample's two
/// bytes.
pub proof fn lemma_sample_bytes_snoc(data: Seq<i16>, i: int)
    requires
        0 <= i < data.len(),
    ensures
        sample_bytes(data.take(i + 1)) == sample_bytes(data.take(i)) + le16_bytes(
            i16_to_wire(data[i]),
        ),
{
    let t = data.take(i + 1);
    assert(t.drop_last() =~= data.take(i));
    assert(t.last() == data[i]);
}

/// The bytes of a run of samples decode back to the same run.
pub proof fn lemma_samples_round_trip(data: Seq<i16>)
    ensures
        samples_of(sample_bytes(data)) == data,
    decreases data.len(),
{
    lemma_sample_bytes_len(data);
    if data.len() == 0 {
        assert(samples_of(sample_bytes(data)) =~= data);
    } else {
        let front = data.drop_last();
        lemma_samples_round_trip(front);
        lemma_sample_bytes_len(front);
        assert forall|i: int| 0 <= i < data.len() implies samples_of(sample_bytes(data))[i]
            == data[i] by {
            crate::wire::lemma_i16_round_trip(data[i]);
            crate::wire::lemma_le16_round_trip(i16_to_wire(data[i]));
            if i < data.len() - 1 {
                assert(sample_bytes(data)[2 * i] == sample_bytes(front)[2 * i]);
                assert(sample_bytes(data)[2 * i + 1] == sample_bytes(front)[2 * i + 1]);
                assert(samples_of(sample_bytes(front))[i] == front[i]);
            } else {
                assert(sample_bytes(data)[2 * i] == lo_byte(i16_to_wire(data[i])));
                assert(sample_bytes(data)[2 * i + 1] == hi_byte(i16_to_wire(data[i])));
            }
        }
        assert(samples_of(sample_bytes(data)) =~= data);
    }
}

/// The field bytes a message writes after its id byte: the wire layout of
/// the catalog.
pub open spec fn spec_encode_fields(v: MessageView) -> Seq<u8> {
    match v {
        MessageView::Ping => Seq::empty(),
        MessageView::Pong => Seq::empty(),
        MessageView::VersionQuery => Seq::empty(),
        MessageView::VersionData { major, minor, maintenance, build } => seq![
            major,
            minor,
            maintenance,
            build,
        ],
        MessageView::AdcQuery { channel, length, increment_usec } => seq![channel, length]
            + le32_bytes(increment_usec),
        MessageView::AdcData { channel, data } => seq![channel] + le16_bytes(
            ((2 * data.len()) % 0x10000) as u16,
        ) + sample_bytes(data),
        MessageView::Status { rcv_count, snd_count, rcv_fails } => le16_bytes(rcv_count)
            + le16_bytes(snd_count) + le16_bytes(rcv_fails),
        MessageView::SerialParams { channel, baud, parity, stop } => seq![channel] + le32_bytes(
            baud,
        ) + seq![parity_byte(parity), stop_bits_byte(stop)],
    }
}

/// The full encoding of a message: its id byte, then its field bytes.
pub open spec fn spec_encode(v: MessageView) -> Seq<u8> {
    seq![type_id_of(v)] + spec_encode_fields(v)
}

/// The outcome of one decode attempt against a byte sequence: the decoded
/// message and the bytes left, or the error and the bytes left.
#[verifier::ext_equal]
pub enum DecodeStep {
    Decoded(MessageView, Seq<u8>),
    Failed(DecodeError, Seq<u8>),
}

/// What decoding the fields of type `id` reads from the bytes after the id
/// byte.
///
/// A failed read consumes nothing, so bytes read by an earlier, complete
/// field group stay consumed: an underrun inside the ADC payload leaves its
/// three header bytes consumed.
pub open spec fn spec_decode_fields(id: u8, s: Seq<u8>) -> DecodeStep {
    if id == 1 {
        DecodeStep::Decoded(MessageView::Ping, s)
    } else if id == 2 {
        DecodeStep::Decoded(MessageView::Pong, s)
    } else if id == 3 {
        DecodeStep::Decoded(MessageView::VersionQuery, s)
    } else if id == 4 {
        if s.len() < 4 {
            DecodeStep::Failed(DecodeError::Underrun, s)
        } else {
            DecodeStep::Decoded(
                MessageView::VersionData {
                    major: s[0],
                    minor: s[1],
                    maintenance: s[2],
                    build: s[3],
                },
                s.skip(4),
            )
        }
    } else if id == 5 {
        if s.len() < 6 {
            DecodeStep::Failed(DecodeError::Underrun, s)
        } else {
            DecodeStep::Decoded(
                MessageView::AdcQuery {
                    channel: s[0],
                    length: s[1],
                    increment_usec: le32_value(s[2], s[3], s[4], s[5]),
                },
                s.skip(6),
            )
        }
    } else if id == 6 {
        if s.len() < 3 {
            DecodeStep::Failed(DecodeError::Underrun, s)
        } else {
            let n = le16_value(s[1], s[2]) as int;
            if s.len() < 3 + n {
                DecodeStep::Failed(DecodeError::Underrun, s.skip(3))
            } else {
                DecodeStep::Decoded(
                    MessageView::AdcData {
                        channel: s[0],
                        data: samples_of(s.subrange(3, 3 + n)),
                    },
                    s.skip(3 + n),
                )
            }
        }
    } else if id == 7 {
        if s.len() < 6 {
            DecodeStep::Failed(DecodeError::Underrun, s)
        } else {
            DecodeStep::Decoded(
                MessageView::Status {
                    rcv_count: le16_value(s[0], s[1]),
                    snd_count: le16_value(s[2], s[3]),
                    rcv_fails: le16_value(s[4], s[5]),
                },
                s.skip(6),
            )
        }
    } else if id == 8 {
        if s.len() < 7 {
            DecodeStep::Failed(DecodeError::Underrun, s)
        } else {
            DecodeStep::Decoded(
                MessageView::SerialParams {
                    channel: s[0],
                    baud: le32_value(s[1], s[2], s[3], s[4]),
                    parity: parity_or_default(s[5]),
                    stop: stop_bits_or_default(s[6]),
                },
                s.skip(7),
            )
        }
    } else {
        DecodeStep::Failed(DecodeError::UnknownType, s)
    }
}

/// What decoding one message reads from a byte sequence: the id byte, then
/// that type's fields. An empty buffer underruns; an id outside the catalog
/// fails with [`DecodeError::UnknownType`], the id byte consumed.
pub open spec fn spec_decode(s: Seq<u8>) -> DecodeStep {
    if s.len() == 0 {
        DecodeStep::Failed(DecodeError::Underrun, s)
    } else {
        spec_decode_fields(s[0], s.skip(1))
    }
}

/// A message decoded for type `id` is of type `id`.
pub proof fn lemma_decode_fields_id(id: u8, s: Seq<u8>)
    ensures
        spec_decode_fields(id, s) matches DecodeStep::Decoded(v, _) ==> type_id_of(v) == id,
{
}

/// Round-trip law: decoding an encoded message gives back the message,
/// field for field, consumes exactly the bytes the encoder produced, and
/// leaves any following bytes untouched.
#[verifier::rlimit(50)]
pub proof fn lemma_round_trip(v: MessageView, rest: Seq<u8>)
    requires
        encodable(v),
    ensures
        spec_decode(spec_encode(v) + rest) == DecodeStep::Decoded(v, rest),
{
    let s = spec_encode(v) + rest;
    let fields = spec_encode_fields(v);
    assert(s[0] == type_id_of(v));
    assert(s.skip(1) =~= fields + rest);
    let t = fields + rest;
    match v {
        MessageView::Ping => {
            assert(t =~= rest);
        },
        MessageView::Pong => {
            assert(t =~= rest);
        },
        MessageView::VersionQuery => {
            assert(t =~= rest);
        },
        MessageView::VersionData { .. } => {
            assert(t.skip(4) =~= rest);
        },
        MessageView::AdcQuery { increment_usec, .. } => {
            crate::wire::lemma_le32_round_trip(increment_usec);
            assert(t.skip(6) =~= rest);
        },
        MessageView::AdcData { channel, data } => {
            let bl = ((2 * data.len()) % 0x10000) as u16;
            assert(bl == 2 * data.len());
            crate::wire::lemma_le16_round_trip(bl);
            lemma_sample_bytes_len(data);
            assert(t[1] == lo_byte(bl));
            assert(t[2] == hi_byte(bl));
            let n = le16_value(t[1], t[2]) as int;
            assert(n == 2 * data.len());
            assert(t.len() == 3 + n + rest.len());
            assert(t.subrange(3, 3 + n) =~= sample_bytes(data));
            lemma_samples_round_trip(data);
            assert(t.skip(3 + n) =~= rest);
            assert(spec_decode_fields(6, t) matches DecodeStep::Decoded(d, r)
                && d =~= v && r == rest);
        },
        MessageView::Status { rcv_count, snd_count, rcv_fails } => {
            crate::wire::lemma_le16_round_trip(rcv_count);
            crate::wire::lemma_le16_round_trip(snd_count);
            crate::wire::lemma_le16_round_trip(rcv_fails);
            assert(t[0] == lo_byte(rcv_count) && t[1] == hi_byte(rcv_count));
            assert(t[2] == lo_byte(snd_count) && t[3] == hi_byte(snd_count));
            assert(t[4] == lo_byte(rcv_fails) && t[5] == hi_byte(rcv_fails));
            assert(t.skip(6) =~= rest);
        },
        MessageView::SerialParams { channel, baud, parity, stop } => {
            crate::wire::lemma_le32_round_trip(baud);
            assert(t.skip(7) =~= rest);
        },
    }
}

/// The encodings of a run of messages, back to back with no delimiter.
pub open spec fn spec_encode_all(ms: Seq<MessageView>) -> Seq<u8>
    decreases ms.len(),
{
    if ms.len() == 0 {
        Seq::empty()
    } else {
        spec_encode(ms[0]) + spec_encode_all(ms.skip(1))
    }
}

/// The messages read by decoding a byte sequence until it is empty:
/// `Some` run exactly when every decode step succeeds and the last one
/// drains the buffer.
pub open spec fn spec_decode_all(s: Seq<u8>) -> Option<Seq<MessageView>>
    decreases s.len(),
{
    if s.len() == 0 {
        Some(Seq::empty())
    } else {
        match spec_decode(s) {
            DecodeStep::Decoded(v, rest) => if rest.len() < s.len() {
                match spec_decode_all(rest) {
                    Some(tail) => Some(seq![v] + tail),
                    None => None,
                }
            } else {
                None
            },
            DecodeStep::Failed(..) => None,
        }
    }
}

/// Sequential-decode law: concatenating the encodings of a run of messages
/// and decoding until the buffer is empty yields exactly that run, in
/// order.
pub proof fn lemma_sequential_decode(ms: Seq<MessageView>)
    requires
        forall|i: int| 0 <= i < ms.len() ==> encodable(#[trigger] ms[i]),
    ensures
        spec_decode_all(spec_encode_all(ms)) == Some(ms),
    decreases ms.len(),
{
    if ms.len() == 0 {
        assert(spec_decode_all(spec_encode_all(ms)) == Some(Seq::<MessageView>::empty()));
        assert(ms =~= Seq::<MessageView>::empty());
    } else {
        let head = ms[0];
        let tail = ms.skip(1);
        let rest = spec_encode_all(tail);
        let s = spec_encode_all(ms);
        assert(s == spec_encode(head) + rest);
        lemma_round_trip(head, rest);
        assert(forall|i: int| 0 <= i < tail.len() ==> encodable(#[trigger] tail[i]));
        lemma_sequential_decode(tail);
        assert(s.len() > 0);
        assert(rest.len() < s.len());
        assert(spec_decode_all(s) == Some(seq![head] + tail));
        assert(seq![head] + tail =~= ms);
    }
}

/// Underrun-boundary law: decoding any strict prefix of an encoded message
/// fails with [`DecodeError::Underrun`], never with another error.
pub proof fn lemma_underrun_boundary(v: MessageView, k: int)
    requires
        encodable(v),
        0 <= k < spec_encode(v).len(),
    ensures
        spec_decode(spec_encode(v).take(k)) matches DecodeStep::Failed(e, _)
            && e == DecodeError::Underrun,
{
    let s = spec_encode(v).take(k);
    if k == 0 {
        assert(s.len() == 0);
    } else {
        let fields = spec_encode_fields(v);
        assert(s[0] == type_id_of(v));
        assert(s.skip(1) =~= fields.take(k - 1));
        let t = s.skip(1);
        match v {
            MessageView::AdcData { channel, data } => {
                let bl = ((2 * data.len()) % 0x10000) as u16;
                assert(bl == 2 * data.len());
                lemma_sample_bytes_len(data);
                if k - 1 >= 3 {
                    assert(t[1] == fields[1]);
                    assert(t[2] == fields[2]);
                    assert(fields[1] == lo_byte(bl));
                    assert(fields[2] == hi_byte(bl));
                    crate::wire::lemma_le16_round_trip(bl);
                    let n = le16_value(t[1], t[2]) as int;
                    assert(n == 2 * data.len());
                    assert(t.len() == k - 1 < fields.len() == 3 + n);
                }
            },
            _ => {},
        }
    }
}

impl Message {
    /// Returns this message's one-byte type id.
    pub fn get_typeid(&self) -> (r: u8)
        ensures
            r == type_id_of(self@),
    {
        match self {
            Self::Ping => 1,
            Self::Pong => 2,
            Self::VersionQuery => 3,
            Self::VersionData { .. } => 4,
            Self::AdcQuery { .. } => 5,
            Self::AdcData { .. } => 6,
            Self::Status { .. } => 7,
            Self::SerialParams { .. } => 8,
        }
    }

    /// Appends this message's field bytes (not the id byte) to the stream.
    pub fn pour_out(&self, stream: &mut CerealStream)
        requires
            encodable(self@),
        ensures
            final(stream)@ == old(stream)@ + spec_encode_fields(self@),
    {
        let mut bytes: Vec<u8> = Vec::new();
        match self {
            Message::Ping => {},
            Message::Pong => {},
            Message::VersionQuery => {},
            Message::VersionData { major, minor, maintenance, build } => {
                bytes.push(*major);
                bytes.push(*minor);
                bytes.push(*maintenance);
                bytes.push(*build);
            },
            Message::AdcQuery { channel, length, increment_usec } => {
                let w = *increment_usec;
                bytes.push(*channel);
                bytes.push(*length);
                bytes.push((w % 256) as u8);
                bytes.push(((w / 256) % 256) as u8);
                bytes.push(((w / 0x10000) % 256) as u8);
                bytes.push(((w / 0x1000000) % 256) as u8);
            },
            Message::AdcData { channel, data } => {
                bytes.push(*channel);
                let byte_len = (2 * data.len()) as u16;
                bytes.push(u16_lo(byte_len));
                bytes.push(u16_hi(byte_len));
                let ghost prefix = bytes@;
                let mut i: usize = 0;
                while i < data.len()
                    invariant
                        i <= data@.len(),
                        bytes@ == prefix + sample_bytes(data@.take(i as int)),
                    decreases data@.len() - i,
                {
                    proof {
                        lemma_sample_bytes_snoc(data@, i as int);
                    }
                    let w = i16_to_u16(data[i]);
                    bytes.push(u16_lo(w));
                    bytes.push(u16_hi(w));
                    proof {
                        assert(bytes@ =~= prefix + sample_bytes(data@.take(i as int + 1)));
                    }
                    i = i + 1;
                }
                proof {
                    assert(data@.take(data@.len() as int) =~= data@);
                }
            },
            Message::Status { rcv_count, snd_count, rcv_fails } => {
                bytes.push(u16_lo(*rcv_count));
                bytes.push(u16_hi(*rcv_count));
                bytes.push(u16_lo(*snd_count));
                bytes.push(u16_hi(*snd_count));
                bytes.push(u16_lo(*rcv_fails));
                bytes.push(u16_hi(*rcv_fails));
            },
            Message::SerialParams { channel, baud, parity, stop } => {
                let w = *baud;
                bytes.push(*channel);
                bytes.push((w % 256) as u8);
                bytes.push(((w / 256) % 256) as u8);
                bytes.push(((w / 0x10000) % 256) as u8);
                bytes.push(((w / 0x1000000) % 256) as u8);
                bytes.push(parity.get_byte());
                bytes.push(stop.get_byte());
            },
        }
        proof {
            assert(bytes@ =~= spec_encode_fields(self@));
        }
        stream.push_bytes(bytes.as_slice());
    }

    /// Reads the fields of type `id` from the stream and returns the decoded
    /// message, exactly as [`spec_decode_fields`] says.
    pub fn decode_fields(id: u8, stream: &mut CerealStream) -> (r: Result<Message, DecodeError>)
        ensures
            match spec_decode_fields(id, old(stream)@) {
                DecodeStep::Decoded(v, rest) => r matches Ok(m) && m@ == v && final(stream)@
                    == rest,
                DecodeStep::Failed(e, rest) => r == Err::<Message, DecodeError>(e)
                    && final(stream)@ == rest,
            },
    {
        if id == 1 {
            Ok(Message::Ping)
        } else if id == 2 {
            Ok(Message::Pong)
        } else if id == 3 {
            Ok(Message::VersionQuery)
        } else if id == 4 {
            let b = match stream.pop_bytes(4) {
                Ok(b) => b,
                Err(e) => {
                    return Err(e);
                },
            };
            Ok(
                Message::VersionData {
                    major: b[0],
                    minor: b[1],
                    maintenance: b[2],
                    build: b[3],
                },
            )
        } else if id == 5 {
            let b = match stream.pop_bytes(6) {
                Ok(b) => b,
                Err(e) => {
                    return Err(e);
                },
            };
            Ok(
                Message::AdcQuery {
                    channel: b[0],
                    length: b[1],
                    increment_usec: u32_from_le(b[2], b[3], b[4], b[5]),
                },
            )
        } else if id == 6 {
            let hdr = match stream.pop_bytes(3) {
                Ok(b) => b,
                Err(e) => {
                    return Err(e);
                },
            };
            let n = u16_from_le(hdr[1], hdr[2]) as usize;
            let payload = match stream.pop_bytes(n) {
                Ok(b) => b,
                Err(e) => {
                    return Err(e);
                },
            };
            proof {
                assert(payload@ =~= old(stream)@.subrange(3, 3 + n as int));
                assert(final(stream)@ =~= old(stream)@.skip(3 + n as int));
            }
            let count = n / 2;
            let mut data: Vec<i16> = Vec::new();
            let mut i: usize = 0;
            while i < count
                invariant
                    i <= count,
                    count == payload@.len() / 2,
                    payload@.len() <= 0xFFFF,
                    data@ == samples_of(payload@).take(i as int),
                decreases count - i,
            {
                let w = u16_from_le(payload[2 * i], payload[2 * i + 1]);
                data.push(u16_to_i16(w));
                proof {
                    assert(data@ =~= samples_of(payload@).take(i as int + 1));
                }
                i = i + 1;
            }
            proof {
                assert(data@ =~= samples_of(payload@));
            }
            Ok(Message::AdcData { channel: hdr[0], data })
        } else if id == 7 {
            let b = match stream.pop_bytes(6) {
                Ok(b) => b,
                Err(e) => {
                    return Err(e);
                },
            };
            Ok(
                Message::Status {
                    rcv_count: u16_from_le(b[0], b[1]),
                    snd_count: u16_from_le(b[2], b[3]),
                    rcv_fails: u16_from_le(b[4], b[5]),
                },
            )
        } else if id == 8 {
            let b = match stream.pop_bytes(7) {
                Ok(b) => b,
                Err(e) => {
                    return Err(e);
                },
            };
            let pb = b[5];
            let sb = b[6];
            let parity = match Parity::from_byte(&pb) {
                Some(p) => p,
                None => Parity::NoParity,
            };
            let stop = match StopBits::from_byte(&sb) {
                Some(s) => s,
                None => StopBits::One,
            };
            Ok(
                Message::SerialParams {
                    channel: b[0],
                    baud: u32_from_le(b[1], b[2], b[3], b[4]),
                    parity,
                    stop,
                },
            )
        } else {
            Err(DecodeError::UnknownType)
        }
    }

    /// Reads this message type's fields from the stream into this slot,
    /// overwriting the previous field values; the slot keeps its type. On
    /// failure the slot is left unchanged and the stream is left as
    /// [`spec_decode_fields`] says.
    pub fn pour_in(&mut self, stream: &mut CerealStream) -> (r: Result<(), DecodeError>)
        ensures
            match spec_decode_fields(type_id_of(old(self)@), old(stream)@) {
                DecodeStep::Decoded(v, rest) => r == Ok::<(), DecodeError>(()) && final(self)@ == v
                    && final(stream)@ == rest,
                DecodeStep::Failed(e, rest) => r == Err::<(), DecodeError>(e) && final(self)@
                    == old(self)@ && final(stream)@ == rest,
            },
    {
        let id = self.get_typeid();
        match Message::decode_fields(id, stream) {
            Ok(m) => {
                *self = m;
                Ok(())
            },
            Err(e) => Err(e),
        }
    }

    /// Writes this message to the package: its id byte, then its fields,
    /// exactly the bytes of [`spec_encode`].
    pub fn serialize(&self, out: &mut Package) -> (r: Result<(), DecodeError>)
        requires
            encodable(self@),
        ensures
            r == Ok::<(), DecodeError>(()),
            final(out)@ == old(out)@ + spec_encode(self@),
    {
        let id = self.get_typeid();
        let mut idv: Vec<u8> = Vec::new();
        idv.push(id);
        out.stream.push_bytes(idv.as_slice());
        self.pour_out(&mut out.stream);
        proof {
            assert(final(out)@ =~= old(out)@ + spec_encode(self@));
        }
        Ok(())
    }

    /// Reads one message from the package: the id byte, then that type's
    /// fields, exactly as [`spec_decode`] says. An empty package underruns;
    /// an id outside the catalog fails with [`DecodeError::UnknownType`].
    pub fn deserialize(source: &mut Package) -> (r: Result<Message, DecodeError>)
        ensures
            match spec_decode(old(source)@) {
                DecodeStep::Decoded(v, rest) => r matches Ok(m) && m@ == v && final(source)@
                    == rest,
                DecodeStep::Failed(e, rest) => r == Err::<Message, DecodeError>(e)
                    && final(source)@ == rest,
            },
    {
        let id = match source.stream.pop_byte() {
            Ok(b) => b,
            Err(e) => {
                return Err(e);
            },
        };
        Message::decode_fields(id, &mut source.stream)
    }
}

/// A byte buffer holding zero or more encoded messages back to back, with
/// no delimiter between them: framing comes entirely from each message's
/// fixed or length-prefixed width.
///
/// The view of a `Package` is the sequence of bytes not yet consumed.
pub struct Package {
    stream: CerealStream,
}

impl View for Package {
    type V = Seq<u8>;

    closed spec fn view(&self) -> Seq<u8> {
        self.stream@
    }
}

impl Package {
    /// Creates a new, empty [`Package`].
    pub fn new() -> (r: Self)
        ensures
            r@ == Seq::<u8>::empty(),
    {
        Package { stream: CerealStream::new() }
    }

    /// Returns a copy of the bytes not yet consumed, head first.
    pub fn get_vec(&self) -> (r: Vec<u8>)
        ensures
            r@ == self@,
    {
        self.stream.get_vec()
    }

    /// Removes and returns the first byte; fails with
    /// [`DecodeError::Underrun`] if the package is empty, leaving it as it
    /// was.
    pub fn pop_byte(&mut self) -> (r: Result<u8, DecodeError>)
        ensures
            old(self)@.len() == 0 ==> r == Err::<u8, DecodeError>(DecodeError::Underrun)
                && final(self)@ == old(self)@,
            old(self)@.len() > 0 ==> r == Ok::<u8, DecodeError>(old(self)@[0])
                && final(self)@ == old(self)@.skip(1),
    {
        self.stream.pop_byte()
    }

    /// Removes and returns the first `num_bytes` bytes; fails with
    /// [`DecodeError::Underrun`] if fewer remain, leaving the package as it
    /// was.
    pub fn pop_bytes(&mut self, num_bytes: usize) -> (r: Result<Vec<u8>, DecodeError>)
        ensures
            old(self)@.len() < num_bytes ==> r == Err::<Vec<u8>, DecodeError>(DecodeError::Underrun)
                && final(self)@ == old(self)@,
            old(self)@.len() >= num_bytes ==> (r matches Ok(v)
                && v@ == old(self)@.take(num_bytes as int)
                && final(self)@ == old(self)@.skip(num_bytes as int)),
    {
        self.stream.pop_bytes(num_bytes)
    }

    /// Appends the given bytes at the tail of the package.
    pub fn push_bytes(&mut self, bytes: &[u8])
        ensures
            final(self)@ == old(self)@ + bytes@,
    {
        self.stream.push_bytes(bytes)
    }
}

} // verus!
