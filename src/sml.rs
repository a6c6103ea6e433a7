//! The boundary to the SML transport decoder and parser: bytes in, frames
//! and decoded datagrams out, in the library's own datagram model.
use vstd::prelude::*;

use sml_rs::parser::common::{
    CloseResponse, ListEntry, ListType, OpenResponse, Status, Time as SmlTime, Value,
};
use sml_rs::parser::complete::{File, GetListResponse, Message as SmlMessage, MessageBody};
use sml_rs::transport::Decoder;
use vstd::slice::slice_to_vec;

use crate::datagram::{Datagram, Message, RawEntry, RawValue, Time};

verus! {

#[verifier::external_type_specification]
pub struct ExSmlTime(SmlTime);

#[verifier::external_type_specification]
pub struct ExListType(ListType);

#[verifier::external_type_specification]
pub struct ExSmlValue<'i>(Value<'i>);

#[verifier::external_type_specification]
pub struct ExStatus(Status);

#[verifier::external_type_specification]
pub struct ExListEntry<'i>(ListEntry<'i>);

#[verifier::external_type_specification]
pub struct ExGetListResponse<'i>(GetListResponse<'i>);

#[verifier::external_type_specification]
#[verifier::external_body]
pub struct ExOpenResponse<'i>(OpenResponse<'i>);

#[verifier::external_type_specification]
#[verifier::external_body]
pub struct ExCloseResponse<'i>(CloseResponse<'i>);

#[verifier::external_type_specification]
pub struct ExMessageBody<'i>(MessageBody<'i>);

#[verifier::external_type_specification]
pub struct ExSmlMessage<'i>(SmlMessage<'i>);

#[verifier::external_type_specification]
pub struct ExFile<'i>(File<'i>);

/// What feeding one byte to the transport decoder gave.
#[derive(Clone, Debug, PartialEq, Eq)]
pub enum FrameEvent {
    /// no complete frame yet
    Pending,
    /// the payload of a complete frame
    Frame(Vec<u8>),
    /// malformed bytes were discarded
    FramingError,
}

/// The library's time value for an SML time value.
pub open spec fn time_of(t: SmlTime) -> Time {
    match t {
        SmlTime::SecIndex(s) => Time::SecIndex(s),
    }
}

/// Whether `r` holds what the SML value `v` holds.
pub open spec fn value_copies(r: RawValue, v: Value) -> bool {
    match (r, v) {
        (RawValue::Bool(a), Value::Bool(b)) => a == b,
        (RawValue::Bytes(a), Value::Bytes(b)) => a@ == b@,
        (RawValue::I8(a), Value::I8(b)) => a == b,
        (RawValue::I16(a), Value::I16(b)) => a == b,
        (RawValue::I32(a), Value::I32(b)) => a == b,
        (RawValue::I64(a), Value::I64(b)) => a == b,
        (RawValue::U8(a), Value::U8(b)) => a == b,
        (RawValue::U16(a), Value::U16(b)) => a == b,
        (RawValue::U32(a), Value::U32(b)) => a == b,
        (RawValue::U64(a), Value::U64(b)) => a == b,
        (RawValue::TimeList(a), Value::List(ListType::Time(b))) => a == time_of(b),
        _ => false,
    }
}

/// Whether `r` holds what the SML list entry `e` holds (its status and
/// signature are not read).
pub open spec fn entry_copies(r: RawEntry, e: ListEntry) -> bool {
    &&& r.obj_name@ == e.obj_name@
    &&& value_copies(r.value, e.value)
    &&& r.scaler == e.scaler
    &&& r.unit == e.unit
    &&& r.val_time == match e.val_time {
        Some(t) => Some(time_of(t)),
        None => None,
    }
}

/// Whether `m` is the message of the SML message body `b`: the same kind,
/// and for a value-list response the same entries in order.
pub open spec fn message_copies(m: Message, b: MessageBody) -> bool {
    match (m, b) {
        (Message::OpenResponse, MessageBody::OpenResponse(_)) => true,
        (Message::CloseResponse, MessageBody::CloseResponse(_)) => true,
        (Message::GetListResponse(es), MessageBody::GetListResponse(g)) => es@.len()
            == g.val_list@.len() && forall|i: int|
            0 <= i < es@.len() ==> entry_copies(#[trigger] es@[i], g.val_list@[i]),
        _ => false,
    }
}

/// Whether `d` holds the messages of the SML file `f`, in order.
pub open spec fn datagram_copies(d: Datagram, f: File) -> bool {
    d.messages@.len() == f.messages@.len() && forall|i: int|
        0 <= i < d.messages@.len() ==> message_copies(
            #[trigger] d.messages@[i],
            f.messages@[i].message_body,
        )
}

fn value_from_sml(v: &Value) -> (r: RawValue)
    ensures
        value_copies(r, *v),
{
    match v {
        Value::Bool(x) => RawValue::Bool(*x),
        Value::Bytes(x) => RawValue::Bytes(slice_to_vec(x)),
        Value::I8(x) => RawValue::I8(*x),
        Value::I16(x) => RawValue::I16(*x),
        Value::I32(x) => RawValue::I32(*x),
        Value::I64(x) => RawValue::I64(*x),
        Value::U8(x) => RawValue::U8(*x),
        Value::U16(x) => RawValue::U16(*x),
        Value::U32(x) => RawValue::U32(*x),
        Value::U64(x) => RawValue::U64(*x),
        Value::List(ListType::Time(SmlTime::SecIndex(s))) => RawValue::TimeList(Time::SecIndex(*s)),
    }
}

fn entry_from_sml(e: &ListEntry) -> (r: RawEntry)
    ensures
        entry_copies(r, *e),
{
    RawEntry {
        obj_name: slice_to_vec(e.obj_name),
        value: value_from_sml(&e.value),
        scaler: e.scaler,
        unit: e.unit,
        val_time: match e.val_time {
            Some(SmlTime::SecIndex(s)) => Some(Time::SecIndex(s)),
            None => None,
        },
    }
}

fn message_from_sml(b: &MessageBody) -> (r: Message)
    ensures
        message_copies(r, *b),
{
    match b {
        MessageBody::OpenResponse(_) => Message::OpenResponse,
        MessageBody::CloseResponse(_) => Message::CloseResponse,
        MessageBody::GetListResponse(g) => {
            let mut es: Vec<RawEntry> = Vec::new();
            let mut i: usize = 0;
            while i < g.val_list.len()
                invariant
                    i <= g.val_list@.len(),
                    es@.len() == i,
                    forall|j: int| 0 <= j < i ==> entry_copies(#[trigger] es@[j], g.val_list@[j]),
                decreases g.val_list@.len() - i,
            {
                es.push(entry_from_sml(&g.val_list[i]));
                i = i + 1;
            }
            Message::GetListResponse(es)
        },
    }
}

/// Copies a parsed SML file into the library's datagram model.
pub fn datagram_from_file(f: &File) -> (r: Datagram)
    ensures
        datagram_copies(r, *f),
{
    let mut messages: Vec<Message> = Vec::new();
    let mut i: usize = 0;
    while i < f.messages.len()
        invariant
            i <= f.messages@.len(),
            messages@.len() == i,
            forall|j: int|
                0 <= j < i ==> message_copies(#[trigger] messages@[j], f.messages@[j].message_body),
        decreases f.messages@.len() - i,
    {
        messages.push(message_from_sml(&f.messages[i].message_body));
        i = i + 1;
    }
    Datagram { messages }
}

/// The datagram that the SML parser reads from a frame's payload, or `None`
/// where it rejects the payload.
pub uninterp spec fn sml_datagram(frame: Seq<u8>) -> Option<Datagram>;

/// Relies on `sml_rs::parser::complete::parse`: the file it reads depends
/// on the payload alone. The file is copied by `datagram_from_file`.
#[verifier::external_body]
pub(crate) fn parse_frame(frame: &[u8]) -> (r: Option<Datagram>)
    ensures
        r == sml_datagram(frame@),
{
    sml_rs::parser::complete::parse(frame).ok().map(|file| datagram_from_file(&file))
}

/// The SML transport decoder for a growable buffer. Verus cannot declare
/// `Decoder<B>` itself (its buffer parameter is bound by a trait of the SML
/// crate), so it is held here, opaque.
#[verifier::external_body]
pub struct SmlDecoder {
    inner: Decoder<Vec<u8>>,
}

/// How many bytes in a row the decoder has answered with "no frame yet"
/// since it was made or reset, or since it last gave a frame or an error.
pub uninterp spec fn pending_run(d: SmlDecoder) -> nat;

/// The bytes fed to the decoder since it was made or last reset.
pub uninterp spec fn decoder_input(d: SmlDecoder) -> Seq<u8>;

/// What a decoder that has just been made or reset answers to the last of
/// `fed` after being fed the others: it is a state machine over the bytes
/// fed since then, and nothing else.
pub uninterp spec fn decoder_answer(fed: Seq<u8>) -> FrameEvent;

/// The bound on the run of "no frame yet" answers the decoder is fed.
/// While it looks for a transmission start, `Decoder::push_byte` keeps a
/// `u16` count of the bytes it discards; each byte is counted once, so the
/// count is at most the number of bytes fed since the search began, which
/// is at most the run plus the byte being fed. The search begins with the
/// count at zero: after a reset, a frame or an error. A run below this
/// bound keeps the count within `u16`.
pub const MAX_PENDING_RUN: u16 = 65535;

/// Relies on `Decoder::new`: a decoder that has seen no bytes.
#[verifier::external_body]
fn decoder_new() -> (d: SmlDecoder)
    ensures
        pending_run(d) == 0,
        decoder_input(d) == Seq::<u8>::empty(),
{
    SmlDecoder { inner: Decoder::new() }
}

/// Relies on `Decoder::reset`: the decoder drops what it holds and looks for
/// a transmission start again, with its count of discarded bytes at zero,
/// in the same state as a new decoder.
#[verifier::external_body]
fn decoder_reset(d: &mut SmlDecoder)
    ensures
        pending_run(*final(d)) == 0,
        decoder_input(*final(d)) == Seq::<u8>::empty(),
    no_unwind
{
    d.inner.reset();
}

/// Relies on `Decoder::push_byte`: the payload of a frame that this byte
/// completes, nothing yet, or an error for discarded or malformed bytes,
/// as decided by the bytes fed since the decoder was made or reset. Below
/// `MAX_PENDING_RUN` "nothing yet" answers in a row the decoder's `u16`
/// count of discarded bytes cannot overflow, so the call does not panic.
#[verifier::external_body]
fn decoder_push_byte(d: &mut SmlDecoder, b: u8) -> (r: FrameEvent)
    requires
        pending_run(*old(d)) < MAX_PENDING_RUN,
    ensures
        decoder_input(*final(d)) == decoder_input(*old(d)).push(b),
        r == decoder_answer(decoder_input(*old(d)).push(b)),
        r is Pending ==> pending_run(*final(d)) == pending_run(*old(d)) + 1,
        !(r is Pending) ==> pending_run(*final(d)) == 0,
    no_unwind
{
    match d.inner.push_byte(b) {
        Ok(None) => FrameEvent::Pending,
        Ok(Some(payload)) => FrameEvent::Frame(payload.to_vec()),
        Err(_) => FrameEvent::FramingError,
    }
}

/// Reassembles frames from a byte stream. After `MAX_PENDING_RUN - 1`
/// bytes in a row that complete nothing, the decoder is reset before the
/// next byte: what it held is dropped and it looks for a start again. A
/// frame can thus span up to 65533 bytes; real ones are a few hundred.
pub struct FrameDecoder {
    inner: SmlDecoder,
    run: u16,
}

impl FrameDecoder {
    /// The decoder's run of "nothing yet" answers is counted in `run`, and
    /// stays below the bound.
    pub closed spec fn wf(&self) -> bool {
        &&& self.run as nat == pending_run(self.inner)
        &&& self.run < MAX_PENDING_RUN
    }

    /// The bytes fed since the decoder was made or last reset.
    pub closed spec fn input(&self) -> Seq<u8> {
        decoder_input(self.inner)
    }

    /// How many bytes in a row have completed nothing.
    pub closed spec fn run(&self) -> nat {
        self.run as nat
    }

    /// Whether the decoder is reset before the next byte.
    pub open spec fn resets(&self) -> bool {
        self.run() + 1 >= MAX_PENDING_RUN
    }

    /// The bytes the decoder answers from when fed `b` next.
    pub open spec fn fed_with(&self, b: u8) -> Seq<u8> {
        if self.resets() {
            seq![b]
        } else {
            self.input().push(b)
        }
    }

    /// A decoder that has seen no bytes.
    pub fn new() -> (r: FrameDecoder)
        ensures
            r.wf(),
            r.input() == Seq::<u8>::empty(),
            r.run() == 0,
    {
        FrameDecoder { inner: decoder_new(), run: 0 }
    }

    /// Feeds one byte: the answer is what the decoder gives for the bytes
    /// fed since it was made or reset, this one included.
    pub fn push_byte(&mut self, b: u8) -> (r: FrameEvent)
        requires
            old(self).wf(),
        ensures
            final(self).wf(),
            r == decoder_answer(old(self).fed_with(b)),
            final(self).input() == old(self).fed_with(b),
            final(self).run() == if r is Pending {
                (if old(self).resets() { 0 } else { old(self).run() }) + 1
            } else {
                0
            },
        no_unwind
    {
        if self.run >= MAX_PENDING_RUN - 1 {
            decoder_reset(&mut self.inner);
            self.run = 0;
            assert(seq![b] =~= Seq::<u8>::empty().push(b));
        }
        let r = decoder_push_byte(&mut self.inner, b);
        match r {
            FrameEvent::Pending => {
                self.run = self.run + 1;
            },
            _ => {
                self.run = 0;
            },
        }
        r
    }
}

} // verus!
