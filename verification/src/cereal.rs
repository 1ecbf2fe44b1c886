//! The FIFO byte buffer that every message's fields flow through, and the
//! registry/dispatcher that ties the message catalog to it.

use vstd::prelude::*;
use vstd::slice::slice_subrange;
use vstd::slice::slice_to_vec;

use crate::message::DecodeStep;
use crate::message::Message;
use crate::message::MessageView;
use crate::message::encodable;
use crate::message::lemma_decode_fields_id;
use crate::message::spec_decode_fields;
use crate::message::spec_encode;
use crate::message::type_id_of;
use crate::serial_params::Parity;
use crate::serial_params::StopBits;

verus! {

/// An error raised while reading from the wire.
#[derive(Debug, PartialEq, Eq, Clone, Copy)]
pub enum DecodeError {
    /// A read asked for more bytes than the buffer holds.
    Underrun,
    /// An id byte matched no registered message type.
    UnknownType,
}

/// An error raised while setting a registry up.
#[derive(Debug, PartialEq, Eq, Clone, Copy)]
pub enum ConfigError {
    /// Two registered message types share one type id.
    DuplicateId,
}

/// A growable, FIFO-consumable byte buffer.
///
/// Bytes are appended at the tail and consumed from the head, in the exact
/// order appended; there is no seek or peek. Consumption advances a cursor
/// instead of compacting the storage, so a stream of total length `L` is
/// consumed in `O(L)`; the storage is released each time the buffer drains.
///
/// The view of a `CerealStream` is the sequence of bytes not yet consumed.
pub struct CerealStream {
    data: Vec<u8>,
    pos: usize,
}

impl View for CerealStream {
    type V = Seq<u8>;

    closed spec fn view(&self) -> Seq<u8> {
        self.data@.skip(self.pos as int)
    }
}

impl CerealStream {
    #[verifier::type_invariant]
    spec fn cursor_in_bounds(self) -> bool {
        self.pos <= self.data@.len()
    }

    /// Creates a new, empty [`CerealStream`].
    pub fn new() -> (r: Self)
        ensures
            r@ == Seq::<u8>::empty(),
    {
        let r = CerealStream { data: Vec::new(), pos: 0 };
        proof {
            assert(r@ =~= Seq::<u8>::empty());
        }
        r
    }

    /// Returns a copy of the bytes not yet consumed, head first.
    pub fn get_vec(&self) -> (r: Vec<u8>)
        ensures
            r@ == self@,
    {
        proof {
            use_type_invariant(self);
        }
        let tail = slice_subrange(self.data.as_slice(), self.pos, self.data.len());
        let r = slice_to_vec(tail);
        proof {
            assert(r@ =~= self@);
        }
        r
    }

    /// Returns true if no bytes remain to be consumed.
    pub fn is_empty(&self) -> (r: bool)
        ensures
            r == (self@.len() == 0),
    {
        proof {
            use_type_invariant(self);
        }
        self.pos == self.data.len()
    }

    /// Removes and returns the first byte; fails with
    /// [`DecodeError::Underrun`] if the buffer is empty, leaving the buffer
    /// as it was.
    pub fn pop_byte(&mut self) -> (r: Result<u8, DecodeError>)
        ensures
            old(self)@.len() == 0 ==> r == Err::<u8, DecodeError>(DecodeError::Underrun)
                && final(self)@ == old(self)@,
            old(self)@.len() > 0 ==> r == Ok::<u8, DecodeError>(old(self)@[0])
                && final(self)@ == old(self)@.skip(1),
    {
        proof {
            use_type_invariant(&*self);
        }
        if self.pos == self.data.len() {
            return Err(DecodeError::Underrun);
        }
        let b = self.data[self.pos];
        self.pos = self.pos + 1;
        if self.pos == self.data.len() {
            self.pos = 0;
            self.data = Vec::new();
        }
        proof {
            assert(final(self)@ =~= old(self)@.skip(1));
        }
        Ok(b)
    }

    /// Removes and returns the first `num_bytes` bytes; fails with
    /// [`DecodeError::Underrun`] if fewer remain, leaving the buffer as it
    /// was.
    pub fn pop_bytes(&mut self, num_bytes: usize) -> (r: Result<Vec<u8>, DecodeError>)
        ensures
            old(self)@.len() < num_bytes ==> r == Err::<Vec<u8>, DecodeError>(DecodeError::Underrun)
                && final(self)@ == old(self)@,
            old(self)@.len() >= num_bytes ==> (r matches Ok(v)
                && v@ == old(self)@.take(num_bytes as int)
                && final(self)@ == old(self)@.skip(num_bytes as int)),
    {
        proof {
            use_type_invariant(&*self);
        }
        if num_bytes > self.data.len() - self.pos {
            return Err(DecodeError::Underrun);
        }
        let taken = slice_subrange(self.data.as_slice(), self.pos, self.pos + num_bytes);
        let out = slice_to_vec(taken);
        self.pos = self.pos + num_bytes;
        if self.pos == self.data.len() {
            self.pos = 0;
            self.data = Vec::new();
        }
        proof {
            assert(out@ =~= old(self)@.take(num_bytes as int));
            assert(final(self)@ =~= old(self)@.skip(num_bytes as int));
        }
        Ok(out)
    }

    /// Appends the given bytes at the tail of the buffer.
    pub fn push_bytes(&mut self, bytes: &[u8])
        ensures
            final(self)@ == old(self)@ + bytes@,
    {
        proof {
            use_type_invariant(&*self);
        }
        let pos = self.pos;
        let mut data: Vec<u8> = Vec::new();
        self.pos = 0;
        core::mem::swap(&mut self.data, &mut data);
        let mut tail = slice_to_vec(bytes);
        data.append(&mut tail);
        self.data = data;
        self.pos = pos;
        proof {
            assert(final(self)@ =~= old(self)@ + bytes@);
        }
    }
}

impl Default for CerealStream {
    /// An empty buffer.
    fn default() -> (r: Self)
        ensures
            r@ == Seq::<u8>::empty(),
    {
        Self::new()
    }
}

/// The mathematical value of a [`Packager`]: the registered slots' values,
/// in registration order, and the bytes of the contained stream.
#[verifier::ext_equal]
pub struct PackagerView {
    pub slots: Seq<MessageView>,
    pub stream: Seq<u8>,
}

/// Whether some slot in the run carries the given type id.
pub open spec fn has_id(slots: Seq<MessageView>, id: u8) -> bool {
    exists|i: int| 0 <= i < slots.len() && type_id_of(#[trigger] slots[i]) == id
}

/// The index of the slot carrying the given type id; meaningful only when
/// [`has_id`] holds, and unambiguous when ids are unique.
pub open spec fn index_of_id(slots: Seq<MessageView>, id: u8) -> int {
    choose|i: int| 0 <= i < slots.len() && type_id_of(#[trigger] slots[i]) == id
}

/// Whether no two slots in the run share a type id.
pub open spec fn unique_ids(slots: Seq<MessageView>) -> bool {
    forall|i: int, j: int|
        0 <= i < j < slots.len() ==> #[trigger] type_id_of(slots[i]) != #[trigger] type_id_of(
            slots[j],
        )
}

/// What one [`Packager::pack`] call does, as a relation between the state
/// before (`pre`), the state after (`post`), and the result `r`:
///
/// * an empty stream underruns and changes nothing;
/// * an id byte no slot was registered for fails with
///   [`DecodeError::UnknownType`]; the id byte is consumed and decoding of
///   the stream stops rather than silently desynchronizing it;
/// * otherwise the fields decode as [`spec_decode_fields`] says: on success
///   the matching slot takes the decoded value ("last decoded value wins"),
///   on failure every slot is left untouched.
pub open spec fn pack_post(
    pre: PackagerView,
    post: PackagerView,
    r: Result<(), DecodeError>,
) -> bool {
    if pre.stream.len() == 0 {
        r == Err::<(), DecodeError>(DecodeError::Underrun) && post.slots == pre.slots
            && post.stream == pre.stream
    } else {
        let id = pre.stream[0];
        let t = pre.stream.skip(1);
        if !has_id(pre.slots, id) {
            r == Err::<(), DecodeError>(DecodeError::UnknownType) && post.slots == pre.slots
                && post.stream == t
        } else {
            match spec_decode_fields(id, t) {
                DecodeStep::Decoded(v, rest) => r == Ok::<(), DecodeError>(()) && post.slots
                    == pre.slots.update(index_of_id(pre.slots, id), v) && post.stream == rest,
                DecodeStep::Failed(e, rest) => r == Err::<(), DecodeError>(e) && post.slots
                    == pre.slots && post.stream == rest,
            }
        }
    }
}

/// The registry/dispatcher: a run of message slots, one per registered type
/// id, and the byte stream that encoded messages travel through.
///
/// Type ids are unique within a registry; registration is a setup-time
/// operation. Each slot is reused across decodes of its type, so a decode
/// overwrites the slot's previous field values; read the latest value back
/// with [`Packager::get_slot`] before the next message of the same type
/// arrives.
pub struct Packager {
    slots: Vec<Message>,
    stream: CerealStream,
}

impl View for Packager {
    type V = PackagerView;

    closed spec fn view(&self) -> PackagerView {
        PackagerView {
            slots: Seq::new(self.slots@.len(), |i: int| self.slots@[i]@),
            stream: self.stream@,
        }
    }
}

impl Packager {
    #[verifier::type_invariant]
    spec fn ids_unique(self) -> bool {
        unique_ids(self@.slots)
    }

    /// Creates a new [`Packager`] with no slots and an empty stream.
    pub fn new() -> (r: Self)
        ensures
            r@.slots == Seq::<MessageView>::empty(),
            r@.stream == Seq::<u8>::empty(),
    {
        let r = Packager { slots: Vec::new(), stream: CerealStream::new() };
        proof {
            assert(r@.slots =~= Seq::<MessageView>::empty());
        }
        r
    }

    /// Returns true if the contained stream holds no bytes.
    pub fn is_empty(&self) -> (r: bool)
        ensures
            r == (self@.stream.len() == 0),
    {
        self.stream.is_empty()
    }

    /// Finds the slot registered under the given type id, if any.
    fn find_slot(&self, id: u8) -> (r: Option<usize>)
        ensures
            match r {
                Some(i) => i < self@.slots.len() && type_id_of(self@.slots[i as int]) == id,
                None => !has_id(self@.slots, id),
            },
    {
        let n = self.slots.len();
        let mut i: usize = 0;
        while i < n
            invariant
                i <= n,
                n == self@.slots.len(),
                forall|j: int| 0 <= j < i ==> type_id_of(#[trigger] self@.slots[j]) != id,
            decreases n - i,
        {
            if self.slots[i].get_typeid() == id {
                return Some(i);
            }
            i = i + 1;
        }
        None
    }

    /// Registers a slot under its type id; fails with
    /// [`ConfigError::DuplicateId`], changing nothing, if that id is already
    /// registered. Registering distinct ids always succeeds.
    pub fn add_flavor(&mut self, cereal_box: Message) -> (r: Result<(), ConfigError>)
        ensures
            has_id(old(self)@.slots, type_id_of(cereal_box@)) ==> r == Err::<(), ConfigError>(
                ConfigError::DuplicateId,
            ) && final(self)@.slots == old(self)@.slots && final(self)@.stream == old(
                self,
            )@.stream,
            !has_id(old(self)@.slots, type_id_of(cereal_box@)) ==> r == Ok::<(), ConfigError>(())
                && final(self)@.slots == old(self)@.slots.push(cereal_box@) && final(self)@.stream
                == old(self)@.stream,
    {
        proof {
            use_type_invariant(&*self);
        }
        let id = cereal_box.get_typeid();
        match self.find_slot(id) {
            Some(_) => {
                proof {
                    assert(has_id(self@.slots, id));
                }
                Err(ConfigError::DuplicateId)
            },
            None => {
                let mut slots: Vec<Message> = Vec::new();
                core::mem::swap(&mut self.slots, &mut slots);
                slots.push(cereal_box);
                proof {
                    assert(Seq::new(slots@.len(), |i: int| slots@[i]@) =~= old(
                        self,
                    )@.slots.push(cereal_box@));
                }
                self.slots = slots;
                Ok(())
            },
        }
    }

    /// Writes one message into the contained stream: its id byte, then its
    /// fields. The registered slots are untouched.
    pub fn unpack(&mut self, msg: &Message)
        requires
            encodable(msg@),
        ensures
            final(self)@.slots == old(self)@.slots,
            final(self)@.stream == old(self)@.stream + spec_encode(msg@),
    {
        proof {
            use_type_invariant(&*self);
        }
        let mut stream = CerealStream::new();
        core::mem::swap(&mut self.stream, &mut stream);
        let id = msg.get_typeid();
        let mut idv: Vec<u8> = Vec::new();
        idv.push(id);
        stream.push_bytes(idv.as_slice());
        msg.pour_out(&mut stream);
        self.stream = stream;
        proof {
            assert(final(self)@.stream =~= old(self)@.stream + spec_encode(msg@));
        }
    }

    /// Reads one message from the contained stream, exactly as
    /// [`pack_post`] says: the id byte selects the registered slot, the
    /// slot's type reads its fields, and the decoded value is left in the
    /// slot for [`Packager::get_slot`] to hand out.
    pub fn pack(&mut self) -> (r: Result<(), DecodeError>)
        ensures
            pack_post(old(self)@, final(self)@, r),
    {
        proof {
            use_type_invariant(&*self);
        }
        let mut stream = CerealStream::new();
        core::mem::swap(&mut self.stream, &mut stream);
        let id = match stream.pop_byte() {
            Ok(b) => b,
            Err(e) => {
                self.stream = stream;
                return Err(e);
            },
        };
        match self.find_slot(id) {
            None => {
                self.stream = stream;
                Err(DecodeError::UnknownType)
            },
            Some(idx) => {
                let mut slots: Vec<Message> = Vec::new();
                core::mem::swap(&mut self.slots, &mut slots);
                let r = slots[idx].pour_in(&mut stream);
                proof {
                    let pre = old(self)@.slots;
                    let ghost new_views = Seq::new(slots@.len(), |i: int| slots@[i]@);
                    assert(type_id_of(new_views[idx as int]) == id) by {
                        lemma_decode_fields_id(id, old(self)@.stream.skip(1));
                    }
                    assert forall|a: int, b: int|
                        0 <= a < b < new_views.len() implies #[trigger] type_id_of(new_views[a])
                        != #[trigger] type_id_of(new_views[b]) by {
                        assert(type_id_of(pre[a]) != type_id_of(pre[b]));
                        assert(a != idx ==> new_views[a] == pre[a]);
                        assert(b != idx ==> new_views[b] == pre[b]);
                        assert(type_id_of(new_views[idx as int]) == type_id_of(pre[idx as int]));
                    }
                    assert(unique_ids(new_views));
                }
                self.slots = slots;
                self.stream = stream;
                proof {
                    let pre = old(self)@.slots;
                    let k = index_of_id(pre, id);
                    assert(has_id(pre, id));
                    assert(0 <= k < pre.len() && type_id_of(pre[k]) == id);
                    assert(k == idx as int);
                    if r is Ok {
                        assert(final(self)@.slots =~= pre.update(
                            index_of_id(pre, id),
                            final(self)@.slots[idx as int],
                        ));
                    } else {
                        assert(final(self)@.slots =~= pre);
                    }
                }
                r
            },
        }
    }

    /// Returns the slot registered under the given type id, if any: the
    /// last value decoded for that id, or the value it was registered with
    /// if none has been decoded yet.
    pub fn get_slot(&self, id: u8) -> (r: Option<&Message>)
        ensures
            match r {
                Some(m) => has_id(self@.slots, id) && m@ == self@.slots[index_of_id(
                    self@.slots,
                    id,
                )],
                None => !has_id(self@.slots, id),
            },
    {
        proof {
            use_type_invariant(self);
        }
        match self.find_slot(id) {
            Some(i) => {
                proof {
                    assert(has_id(self@.slots, id));
                    let k = index_of_id(self@.slots, id);
                    assert(0 <= k < self@.slots.len() && type_id_of(self@.slots[k]) == id);
                    assert(k == i as int);
                }
                Some(&self.slots[i])
            },
            None => None,
        }
    }
}

/// Builds a [`Packager`] with one slot per catalog type, each registered
/// under its type id and holding that type's zero value.
pub fn create_packger() -> (r: Packager)
    ensures
        r@.stream == Seq::<u8>::empty(),
        r@.slots == seq![
            MessageView::Ping,
            MessageView::Pong,
            MessageView::VersionQuery,
            MessageView::VersionData { major: 0, minor: 0, maintenance: 0, build: 0 },
            MessageView::AdcQuery { channel: 0, length: 0, increment_usec: 0 },
            MessageView::AdcData { channel: 0, data: Seq::empty() },
            MessageView::Status { rcv_count: 0, snd_count: 0, rcv_fails: 0 },
            MessageView::SerialParams {
                channel: 0,
                baud: 0,
                parity: Parity::NoParity,
                stop: StopBits::One,
            },
        ],
{
    let mut packager = Packager::new();
    let _ = packager.add_flavor(Message::Ping);
    let _ = packager.add_flavor(Message::Pong);
    let _ = packager.add_flavor(Message::VersionQuery);
    let _ = packager.add_flavor(
        Message::VersionData { major: 0, minor: 0, maintenance: 0, build: 0 },
    );
    let _ = packager.add_flavor(Message::AdcQuery { channel: 0, length: 0, increment_usec: 0 });
    let _ = packager.add_flavor(Message::AdcData { channel: 0, data: Vec::new() });
    let _ = packager.add_flavor(Message::Status { rcv_count: 0, snd_count: 0, rcv_fails: 0 });
    let _ = packager.add_flavor(
        Message::SerialParams {
            channel: 0,
            baud: 0,
            parity: Parity::NoParity,
            stop: StopBits::One,
        },
    );
    proof {
        assert(packager@.slots =~= seq![
            MessageView::Ping,
            MessageView::Pong,
            MessageView::VersionQuery,
            MessageView::VersionData { major: 0, minor: 0, maintenance: 0, build: 0 },
            MessageView::AdcQuery { channel: 0, length: 0, increment_usec: 0 },
            MessageView::AdcData { channel: 0, data: Seq::empty() },
            MessageView::Status { rcv_count: 0, snd_count: 0, rcv_fails: 0 },
            MessageView::SerialParams {
                channel: 0,
                baud: 0,
                parity: Parity::NoParity,
                stop: StopBits::One,
            },
        ]);
    }
    packager
}

} // verus!
