//! Messages and events that the device sends.
//!
//! A message is a type byte, a header and, for most types, a payload whose size
//! the header gives. [`DeviceRead`] takes a message apart in the pieces in which
//! a stream delivers it, so that whoever owns the stream only reads bytes.
use vstd::prelude::*;
use vstd::utf8::{decode_utf8, encode_utf8, valid_utf8};

use crate::ai::{
    countable, decoded_frame, decoded_stats, frame_payload, lemma_frame_round_trip,
    lemma_stats_round_trip, short_read_text, stats_payload, well_framed, AiStats, FrameSummary,
    FrameView, AI_STATS_BYTES, TYPE_AI_STATS, TYPE_FRAME_SUMMARY,
};
use crate::error::{Error, Result};
use crate::text::{decimal, push_decimal};
use crate::wire::{
    be16, be32, be64, lemma_be16_round_trip, lemma_be32_round_trip, lemma_be64_round_trip,
    read_u16, read_u32, read_u64, u16_at, u32_at, u64_at,
};

verus! {

/// Type byte of a clipboard message.
pub const TYPE_CLIPBOARD: u8 = 0;

/// Type byte of a clipboard acknowledgement.
pub const TYPE_ACK_CLIPBOARD: u8 = 1;

/// Type byte of a UHID output report.
pub const TYPE_UHID_OUTPUT: u8 = 2;

/// Largest size of a message.
pub const DEVICE_MSG_MAX_SIZE: usize = 262_144;

/// Largest payload behind a five-byte head.
pub const DEVICE_MSG_MAX_PAYLOAD: usize = 262_139;

/// Largest clipboard text in bytes.
pub const DEVICE_MSG_TEXT_MAX_LENGTH: usize = 262_139;

/// Size of the device name field in front of the control stream.
pub const DEVICE_NAME_FIELD_LENGTH: usize = 64;

/// What kind of failure ended a read.
#[derive(Debug, Clone, Copy, PartialEq, Eq, Structural)]
pub enum ReadErrorKind {
    /// The bytes do not form a message.
    InvalidData,
    /// The stream ended inside a message.
    UnexpectedEof,
    /// No more bytes came in time.
    TimedOut,
}

/// A failed read.
#[derive(Debug)]
pub struct DeviceReadError {
    pub kind: ReadErrorKind,
    pub message: String,
}

/// The contents of a [`DeviceReadError`].
pub struct FaultView {
    pub kind: ReadErrorKind,
    pub message: Seq<char>,
}

impl View for DeviceReadError {
    type V = FaultView;

    open spec fn view(&self) -> FaultView {
        FaultView { kind: self.kind, message: self.message@ }
    }
}

/// A message of the control protocol.
#[derive(Debug, PartialEq, Eq)]
pub enum DeviceMessage {
    Clipboard(String),
    AckClipboard { sequence: u64 },
    UhidOutput { id: u16, data: Vec<u8> },
}

/// A message of the control protocol or of the AI extension.
#[derive(Debug, PartialEq)]
pub enum DeviceEvent {
    Native(DeviceMessage),
    FrameSummary(FrameSummary),
    AiStats(AiStats),
    UnknownEnvelope { msg_type: u8, payload: Vec<u8> },
}

/// The contents of a message or an event.
#[allow(inconsistent_fields)]
pub enum EventView {
    Clipboard(Seq<char>),
    AckClipboard { sequence: u64 },
    UhidOutput { id: u16, data: Seq<u8> },
    FrameSummary(FrameView),
    AiStats(AiStats),
    UnknownEnvelope { msg_type: u8, payload: Seq<u8> },
}

impl EventView {
    /// Whether the contents are those of a control message.
    pub open spec fn native(self) -> bool {
        self is Clipboard || self is AckClipboard || self is UhidOutput
    }
}

impl View for DeviceMessage {
    type V = EventView;

    open spec fn view(&self) -> EventView {
        match *self {
            DeviceMessage::Clipboard(text) => EventView::Clipboard(text@),
            DeviceMessage::AckClipboard { sequence } => EventView::AckClipboard { sequence },
            DeviceMessage::UhidOutput { id, data } => EventView::UhidOutput { id, data: data@ },
        }
    }
}

impl View for DeviceEvent {
    type V = EventView;

    open spec fn view(&self) -> EventView {
        match *self {
            DeviceEvent::Native(message) => message@,
            DeviceEvent::FrameSummary(summary) => EventView::FrameSummary(summary@),
            DeviceEvent::AiStats(stats) => EventView::AiStats(stats),
            DeviceEvent::UnknownEnvelope { msg_type, payload } => EventView::UnknownEnvelope {
                msg_type,
                payload: payload@,
            },
        }
    }
}

/// The text of the error that `String::from_utf8` gives for bytes that are not
/// UTF-8.
pub uninterp spec fn utf8_fault(bytes: Seq<u8>) -> Seq<char>;

/// The text that `String::from_utf8_lossy` makes of bytes.
pub uninterp spec fn lossy_text(bytes: Seq<u8>) -> Seq<char>;

/// Calls `String::from_utf8`. It accepts exactly the UTF-8 encodings and returns
/// the encoded text; the error's own text stands for the error.
#[verifier::external_body]
fn text_from_utf8(bytes: Vec<u8>) -> (r: std::result::Result<String, String>)
    ensures
        match r {
            Ok(text) => valid_utf8(bytes@) && text@ == decode_utf8(bytes@),
            Err(message) => !valid_utf8(bytes@) && message@ == utf8_fault(bytes@),
        },
{
    String::from_utf8(bytes).map_err(|e| e.to_string())
}

/// Calls `String::from_utf8_lossy`, which returns UTF-8 as it is and puts
/// replacement characters where bytes are not UTF-8. Which ones it replaces
/// together is left to the name.
#[verifier::external_body]
fn text_from_utf8_lossy(bytes: &[u8]) -> (text: String)
    ensures
        text@ == lossy_text(bytes@),
        valid_utf8(bytes@) ==> text@ == decode_utf8(bytes@),
{
    String::from_utf8_lossy(bytes).to_string()
}

pub open spec fn invalid_data(message: Seq<char>) -> FaultView {
    FaultView { kind: ReadErrorKind::InvalidData, message }
}

/// Size of the header behind a type byte.
pub open spec fn header_size(ty: u8) -> int {
    if ty == TYPE_ACK_CLIPBOARD {
        8
    } else {
        4
    }
}

/// Whether a reader takes the type: one of control messages knows three types,
/// one of events takes every type.
pub open spec fn type_known(ty: u8, events: bool) -> bool {
    events || ty == TYPE_CLIPBOARD || ty == TYPE_ACK_CLIPBOARD || ty == TYPE_UHID_OUTPUT
}

pub open spec fn unknown_type_text(ty: u8) -> Seq<char> {
    "unknown device message type "@ + decimal(ty as nat)
}

/// The id that a header carries.
pub open spec fn header_id(ty: u8, header: Seq<u8>) -> u16 {
    if ty == TYPE_UHID_OUTPUT {
        u16_at(header, 0)
    } else {
        0
    }
}

/// The payload size that a header announces.
pub open spec fn header_len(ty: u8, header: Seq<u8>) -> int {
    if ty == TYPE_UHID_OUTPUT {
        u16_at(header, 2) as int
    } else {
        u32_at(header, 0) as int
    }
}

/// What a payload of a type is called in an error.
pub open spec fn payload_label(ty: u8) -> Seq<char> {
    if ty == TYPE_CLIPBOARD {
        "clipboard payload too large: "@
    } else if ty == TYPE_UHID_OUTPUT {
        "uhid output payload too large: "@
    } else {
        "device event payload too large: "@
    }
}

pub open spec fn too_large_text(ty: u8, len: int) -> Seq<char> {
    payload_label(ty) + decimal(len as nat) + " bytes (max "@ + decimal(
        DEVICE_MSG_MAX_PAYLOAD as nat,
    ) + ")"@
}

/// What a payload holds, or why it holds nothing.
#[verifier::opaque]
pub open spec fn payload_contents(
    ty: u8,
    id: u16,
    payload: Seq<u8>,
) -> std::result::Result<EventView, FaultView> {
    if ty == TYPE_CLIPBOARD {
        if valid_utf8(payload) {
            Ok(EventView::Clipboard(decode_utf8(payload)))
        } else {
            Err(invalid_data(utf8_fault(payload)))
        }
    } else if ty == TYPE_UHID_OUTPUT {
        Ok(EventView::UhidOutput { id, data: payload })
    } else if ty == TYPE_FRAME_SUMMARY {
        if well_framed(payload) {
            Ok(EventView::FrameSummary(decoded_frame(payload)))
        } else {
            Err(invalid_data(short_read_text()))
        }
    } else if ty == TYPE_AI_STATS {
        if payload.len() >= AI_STATS_BYTES {
            Ok(EventView::AiStats(decoded_stats(payload)))
        } else {
            Err(invalid_data(short_read_text()))
        }
    } else {
        Ok(EventView::UnknownEnvelope { msg_type: ty, payload })
    }
}

/// What stands at the start of a stream.
#[allow(inconsistent_fields)]
pub enum Parsed {
    /// More bytes are needed.
    Short,
    /// A message of `used` bytes.
    Done { event: EventView, used: int },
    /// Something that is no message, found after `used` bytes.
    Fault { fault: FaultView, used: int },
}

impl Parsed {
    /// The same, found behind `n` more bytes.
    pub open spec fn behind(self, n: int) -> Parsed {
        match self {
            Parsed::Short => Parsed::Short,
            Parsed::Done { event, used } => Parsed::Done { event, used: used + n },
            Parsed::Fault { fault, used } => Parsed::Fault { fault, used: used + n },
        }
    }
}

/// What stands behind a header.
pub open spec fn parsed_payload(ty: u8, id: u16, len: int, bytes: Seq<u8>) -> Parsed {
    if bytes.len() < len {
        Parsed::Short
    } else {
        match payload_contents(ty, id, bytes.take(len)) {
            Ok(event) => Parsed::Done { event, used: len },
            Err(fault) => Parsed::Fault { fault, used: len },
        }
    }
}

/// What stands behind a type byte.
pub open spec fn parsed_header(ty: u8, bytes: Seq<u8>) -> Parsed {
    if bytes.len() < header_size(ty) {
        Parsed::Short
    } else if ty == TYPE_ACK_CLIPBOARD {
        Parsed::Done { event: EventView::AckClipboard { sequence: u64_at(bytes, 0) }, used: 8 }
    } else if header_len(ty, bytes) > DEVICE_MSG_MAX_PAYLOAD {
        Parsed::Fault {
            fault: invalid_data(too_large_text(ty, header_len(ty, bytes))),
            used: 4,
        }
    } else {
        parsed_payload(
            ty,
            header_id(ty, bytes),
            header_len(ty, bytes),
            bytes.skip(4),
        ).behind(4)
    }
}

/// What stands at the start of `bytes`, for a reader of events or of control
/// messages alone.
pub open spec fn parsed(bytes: Seq<u8>, events: bool) -> Parsed {
    if bytes.len() == 0 {
        Parsed::Short
    } else if !type_known(bytes[0], events) {
        Parsed::Fault { fault: invalid_data(unknown_type_text(bytes[0])), used: 1 }
    } else {
        parsed_header(bytes[0], bytes.skip(1)).behind(1)
    }
}

/// What a reader waits for next.
#[derive(Debug, Clone, Copy, PartialEq, Eq, Structural)]
pub enum ReadStage {
    Type,
    Header { ty: u8 },
    Payload { ty: u8, id: u16, len: usize },
}

impl ReadStage {
    /// How many bytes the stage takes.
    pub open spec fn size(self) -> int {
        match self {
            ReadStage::Type => 1,
            ReadStage::Header { ty } => header_size(ty),
            ReadStage::Payload { len, .. } => len as int,
        }
    }

    /// Whether a stage can come up: empty and oversized payloads never do.
    pub open spec fn valid(self) -> bool {
        self matches ReadStage::Payload { len, .. } ==> 0 < len <= DEVICE_MSG_MAX_PAYLOAD
    }

    /// What stands in the rest of a stream from this stage on.
    #[verifier::opaque]
    pub open spec fn parsed(self, events: bool, bytes: Seq<u8>) -> Parsed {
        match self {
            ReadStage::Type => parsed(bytes, events),
            ReadStage::Header { ty } => parsed_header(ty, bytes),
            ReadStage::Payload { ty, id, len } => parsed_payload(ty, id, len as int, bytes),
        }
    }

    /// How many more stages can follow.
    pub open spec fn rank(self) -> nat {
        match self {
            ReadStage::Type => 2,
            ReadStage::Header { .. } => 1,
            ReadStage::Payload { .. } => 0,
        }
    }
}

/// What a stage makes of its bytes.
pub enum StageView {
    More(ReadStage),
    Done(EventView),
    Fault(FaultView),
}

pub open spec fn finished(ty: u8, id: u16, payload: Seq<u8>) -> StageView {
    match payload_contents(ty, id, payload) {
        Ok(event) => StageView::Done(event),
        Err(fault) => StageView::Fault(fault),
    }
}

/// What a stage makes of its bytes.
pub open spec fn staged(stage: ReadStage, events: bool, bytes: Seq<u8>) -> StageView {
    match stage {
        ReadStage::Type => if type_known(bytes[0], events) {
            StageView::More(ReadStage::Header { ty: bytes[0] })
        } else {
            StageView::Fault(invalid_data(unknown_type_text(bytes[0])))
        },
        ReadStage::Header { ty } => {
            let len = header_len(ty, bytes);
            if ty == TYPE_ACK_CLIPBOARD {
                StageView::Done(EventView::AckClipboard { sequence: u64_at(bytes, 0) })
            } else if len > DEVICE_MSG_MAX_PAYLOAD {
                StageView::Fault(invalid_data(too_large_text(ty, len)))
            } else if len == 0 {
                finished(ty, header_id(ty, bytes), Seq::empty())
            } else {
                StageView::More(
                    ReadStage::Payload { ty, id: header_id(ty, bytes), len: len as usize },
                )
            }
        },
        ReadStage::Payload { ty, id, .. } => finished(ty, id, bytes),
    }
}

/// What came of the bytes that a reader was fed.
#[derive(Debug)]
pub enum ReadProgress {
    /// The message goes on.
    More,
    /// The message is complete.
    Done(DeviceEvent),
    /// The bytes are no message.
    Failed(DeviceReadError),
}

/// A message that is being read.
#[derive(Debug, Clone, Copy, PartialEq, Eq, Structural)]
pub struct DeviceRead {
    pub events: bool,
    pub stage: ReadStage,
}

fn invalid(message: String) -> (e: DeviceReadError)
    ensures
        e@ == invalid_data(message@),
{
    DeviceReadError { kind: ReadErrorKind::InvalidData, message }
}

fn unknown_type(ty: u8) -> (e: DeviceReadError)
    ensures
        e@ == invalid_data(unknown_type_text(ty)),
{
    let mut text: String = String::from_str("unknown device message type ");
    push_decimal(&mut text, ty as u64);
    invalid(text)
}

fn too_large(ty: u8, len: u64) -> (e: DeviceReadError)
    ensures
        e@ == invalid_data(too_large_text(ty, len as int)),
{
    let mut text: String = if ty == TYPE_CLIPBOARD {
        String::from_str("clipboard payload too large: ")
    } else if ty == TYPE_UHID_OUTPUT {
        String::from_str("uhid output payload too large: ")
    } else {
        String::from_str("device event payload too large: ")
    };
    push_decimal(&mut text, len);
    text.append(" bytes (max ");
    push_decimal(&mut text, DEVICE_MSG_MAX_PAYLOAD as u64);
    text.append(")");
    invalid(text)
}

/// The text of a decoding error.
fn fault_text(e: Error) -> (text: String)
    ensures
        e matches Error::Transport(m) ==> text@ == m@,
{
    match e {
        Error::Transport(m) => m,
        Error::SessionLifecycle(m) => String::from_str(m),
        Error::DispatcherDown(m) => String::from_str(m),
        Error::AgentTimeout(m) => String::from_str(m),
        Error::ControlMessageTooLarge { .. } => String::from_str("control message too large"),
    }
}

fn finish(ty: u8, id: u16, payload: &[u8]) -> (p: ReadProgress)
    ensures
        match finished(ty, id, payload@) {
            StageView::More(_) => false,
            StageView::Done(event) => p matches ReadProgress::Done(e) && e@ == event,
            StageView::Fault(fault) => p matches ReadProgress::Failed(e) && e@ == fault,
        },
{
    reveal(payload_contents);
    if ty == TYPE_CLIPBOARD {
        let mut bytes: Vec<u8> = Vec::new();
        bytes.extend_from_slice(payload);
        assert(bytes@ =~= payload@);
        return match text_from_utf8(bytes) {
            Ok(text) => ReadProgress::Done(DeviceEvent::Native(DeviceMessage::Clipboard(text))),
            Err(message) => ReadProgress::Failed(invalid(message)),
        };
    }
    if ty == TYPE_UHID_OUTPUT {
        let mut data: Vec<u8> = Vec::new();
        data.extend_from_slice(payload);
        assert(data@ =~= payload@);
        return ReadProgress::Done(DeviceEvent::Native(DeviceMessage::UhidOutput { id, data }));
    }
    if ty == TYPE_FRAME_SUMMARY {
        return match FrameSummary::parse(payload) {
            Ok(summary) => ReadProgress::Done(DeviceEvent::FrameSummary(summary)),
            Err(e) => ReadProgress::Failed(invalid(fault_text(e))),
        };
    }
    if ty == TYPE_AI_STATS {
        return match AiStats::parse(payload) {
            Ok(stats) => ReadProgress::Done(DeviceEvent::AiStats(stats)),
            Err(e) => ReadProgress::Failed(invalid(fault_text(e))),
        };
    }
    let mut bytes: Vec<u8> = Vec::new();
    bytes.extend_from_slice(payload);
    assert(bytes@ =~= payload@);
    ReadProgress::Done(DeviceEvent::UnknownEnvelope { msg_type: ty, payload: bytes })
}

impl DeviceRead {
    /// A reader before its first message.
    pub fn new(events: bool) -> (read: DeviceRead)
        ensures
            read == (DeviceRead { events, stage: ReadStage::Type }),
    {
        DeviceRead { events, stage: ReadStage::Type }
    }

    /// How many bytes to read next.
    pub fn needed(&self) -> (n: usize)
        ensures
            n == self.stage.size(),
    {
        match self.stage {
            ReadStage::Type => 1,
            ReadStage::Header { ty } => if ty == TYPE_ACK_CLIPBOARD {
                8
            } else {
                4
            },
            ReadStage::Payload { len, .. } => len,
        }
    }

    /// Takes the bytes that the reader needed. After a complete or a failed
    /// message it waits for the next one.
    pub fn feed(&mut self, bytes: &[u8]) -> (p: ReadProgress)
        requires
            old(self).stage.valid(),
            bytes@.len() == old(self).stage.size(),
        ensures
            final(self).events == old(self).events,
            final(self).stage.valid(),
            match staged(old(self).stage, old(self).events, bytes@) {
                StageView::More(stage) => p is More && final(self).stage == stage,
                StageView::Done(event) => {
                    &&& p matches ReadProgress::Done(e)
                    &&& e@ == event
                    &&& final(self).stage == ReadStage::Type
                },
                StageView::Fault(fault) => {
                    &&& p matches ReadProgress::Failed(e)
                    &&& e@ == fault
                    &&& final(self).stage == ReadStage::Type
                },
            },
    {
        let stage = self.stage;
        self.stage = ReadStage::Type;
        match stage {
            ReadStage::Type => {
                let ty: u8 = bytes[0];
                if self.events || ty == TYPE_CLIPBOARD || ty == TYPE_ACK_CLIPBOARD || ty
                    == TYPE_UHID_OUTPUT {
                    self.stage = ReadStage::Header { ty };
                    ReadProgress::More
                } else {
                    ReadProgress::Failed(unknown_type(ty))
                }
            },
            ReadStage::Header { ty } => {
                if ty == TYPE_ACK_CLIPBOARD {
                    let sequence: u64 = read_u64(bytes, 0);
                    return ReadProgress::Done(
                        DeviceEvent::Native(DeviceMessage::AckClipboard { sequence }),
                    );
                }
                let id: u16 = if ty == TYPE_UHID_OUTPUT {
                    read_u16(bytes, 0)
                } else {
                    0
                };
                let len: u64 = if ty == TYPE_UHID_OUTPUT {
                    read_u16(bytes, 2) as u64
                } else {
                    read_u32(bytes, 0) as u64
                };
                if len > DEVICE_MSG_MAX_PAYLOAD as u64 {
                    return ReadProgress::Failed(too_large(ty, len));
                }
                if len == 0 {
                    let empty: Vec<u8> = Vec::new();
                    return finish(ty, id, empty.as_slice());
                }
                self.stage = ReadStage::Payload { ty, id, len: len as usize };
                ReadProgress::More
            },
            ReadStage::Payload { ty, id, .. } => finish(ty, id, bytes),
        }
    }
}

/// A stage and the stages after it read what stands in the stream.
proof fn lemma_stage_step(stage: ReadStage, events: bool, bytes: Seq<u8>)
    requires
        stage.valid(),
    ensures
        stage is Type ==> stage.parsed(events, bytes) == parsed(bytes, events),
        bytes.len() < stage.size() ==> stage.parsed(events, bytes) is Short,
        bytes.len() >= stage.size() ==> match staged(stage, events, bytes.take(stage.size())) {
            StageView::More(next) => {
                &&& next.rank() < stage.rank()
                &&& next.valid()
                &&& stage.parsed(events, bytes) == next.parsed(
                    events,
                    bytes.skip(stage.size()),
                ).behind(stage.size())
            },
            StageView::Done(event) => stage.parsed(events, bytes) == (Parsed::Done {
                event,
                used: stage.size(),
            }),
            StageView::Fault(fault) => stage.parsed(events, bytes) == (Parsed::Fault {
                fault,
                used: stage.size(),
            }),
        },
{
    reveal(ReadStage::parsed);
    let head = bytes.take(stage.size());
    if bytes.len() >= stage.size() {
        match stage {
            ReadStage::Type => {
                assert(head[0] == bytes[0]);
            },
            ReadStage::Header { ty } => {
                assert(forall|i: int| 0 <= i < header_size(ty) ==> head[i] == bytes[i]);
                if ty != TYPE_ACK_CLIPBOARD {
                    assert(header_len(ty, head) == header_len(ty, bytes));
                    assert(header_id(ty, head) == header_id(ty, bytes));
                    assert(bytes.skip(4).take(0) =~= Seq::<u8>::empty());
                }
            },
            ReadStage::Payload { .. } => {},
        }
    }
}

/// A message or a fault takes at least one byte and no more than there are.
pub proof fn lemma_parsed_bounds(bytes: Seq<u8>, events: bool)
    ensures
        match parsed(bytes, events) {
            Parsed::Short => true,
            Parsed::Done { used, .. } => 0 < used <= bytes.len(),
            Parsed::Fault { used, .. } => 0 < used <= bytes.len(),
        },
{
}

/// What stands behind the control stream's start: a byte to skip and the name
/// of the device.
#[derive(Debug)]
pub struct ScrcpyControlPrefix {
    pub dummy_byte: u8,
    pub device_name: String,
    pub raw_device_name: [u8; DEVICE_NAME_FIELD_LENGTH],
}

/// Whether `n` bytes of a field come before its first zero.
pub open spec fn name_len(field: Seq<u8>, n: int) -> bool {
    &&& 0 <= n <= field.len()
    &&& forall|i: int| 0 <= i < n ==> field[i] != 0
    &&& n < field.len() ==> field[n] == 0
}

/// Takes the prefix of a control stream apart. The name ends at the first zero.
pub fn decode_control_prefix(
    dummy_byte: u8,
    raw_device_name: [u8; DEVICE_NAME_FIELD_LENGTH],
) -> (prefix: ScrcpyControlPrefix)
    ensures
        prefix.dummy_byte == dummy_byte,
        prefix.raw_device_name == raw_device_name,
        exists|n: int| #[trigger]
            name_len(raw_device_name@, n) && prefix.device_name@ == lossy_text(
                raw_device_name@.take(n),
            ) && (valid_utf8(raw_device_name@.take(n)) ==> prefix.device_name@ == decode_utf8(
                raw_device_name@.take(n),
            )),
{
    let mut n: usize = 0;
    while n < DEVICE_NAME_FIELD_LENGTH && raw_device_name[n] != 0
        invariant
            n <= DEVICE_NAME_FIELD_LENGTH,
            forall|i: int| 0 <= i < n ==> raw_device_name@[i] != 0,
        decreases DEVICE_NAME_FIELD_LENGTH - n,
    {
        n = n + 1;
    }
    assert(name_len(raw_device_name@, n as int));
    let all: &[u8] = raw_device_name.as_slice();
    let device_name: String = text_from_utf8_lossy(&all[0..n]);
    assert(all@.subrange(0, n as int) =~= raw_device_name@.take(n as int));
    ScrcpyControlPrefix { dummy_byte, device_name, raw_device_name }
}

/// At most one count of bytes can come before the first zero of a field.
pub proof fn lemma_name_len_unique(field: Seq<u8>, a: int, b: int)
    requires
        name_len(field, a),
        name_len(field, b),
    ensures
        a == b,
{
}

/// A wrapper around a stream of device messages.
#[derive(Debug)]
pub struct AsyncDeviceMessageReceiver<R> {
    pub reader: R,
}

impl<R> AsyncDeviceMessageReceiver<R> {
    /// Wraps a stream.
    pub fn new(reader: R) -> (r: AsyncDeviceMessageReceiver<R>)
        ensures
            r.reader == reader,
    {
        AsyncDeviceMessageReceiver { reader }
    }

    /// Borrows the wrapped stream.
    pub fn get_ref(&self) -> (r: &R)
        ensures
            *r == self.reader,
    {
        &self.reader
    }

    /// Mutably borrows the wrapped stream.
    pub fn get_mut(&mut self) -> (r: &mut R)
        ensures
            *r == old(self).reader,
            final(self).reader == *final(r),
    {
        &mut self.reader
    }

    /// Gives the wrapped stream back.
    pub fn into_inner(self) -> (r: R)
        ensures
            r == self.reader,
    {
        self.reader
    }
}

/// Bytes that have come from the device, and how the stream goes on behind them.
#[derive(Debug)]
pub struct ReceivedBytes {
    bytes: Vec<u8>,
    pos: usize,
    timed_out: bool,
}

/// The contents of a [`ReceivedBytes`].
pub struct ReceivedView {
    /// What has not been read yet.
    pub rest: Seq<u8>,
    /// Whether a read behind the bytes times out, rather than finding the end.
    pub timed_out: bool,
}

impl View for ReceivedBytes {
    type V = ReceivedView;

    closed spec fn view(&self) -> ReceivedView {
        ReceivedView { rest: self.bytes@.skip(self.pos as int), timed_out: self.timed_out }
    }
}

impl ReceivedView {
    /// Behind the next `n` bytes.
    pub open spec fn skip(self, n: int) -> ReceivedView {
        ReceivedView { rest: self.rest.skip(n), ..self }
    }

    /// The error of a read that runs out of bytes.
    pub open spec fn end_fault(self) -> FaultView {
        if self.timed_out {
            FaultView { kind: ReadErrorKind::TimedOut, message: "timed out"@ }
        } else {
            FaultView { kind: ReadErrorKind::UnexpectedEof, message: short_read_text() }
        }
    }
}

/// A read that found `p` has taken `old` to `new` and returned `r`.
pub open spec fn read_done(
    p: Parsed,
    old: ReceivedView,
    new: ReceivedView,
    r: std::result::Result<EventView, FaultView>,
) -> bool {
    match p {
        Parsed::Short => {
            &&& r == Err::<EventView, FaultView>(old.end_fault())
            &&& new == old.skip(old.rest.len() as int)
        },
        Parsed::Done { event, used } => {
            &&& r == Ok::<EventView, FaultView>(event)
            &&& new == old.skip(used)
        },
        Parsed::Fault { fault, used } => {
            &&& r == Err::<EventView, FaultView>(fault)
            &&& new == old.skip(used)
        },
    }
}

pub open spec fn event_result(
    r: std::result::Result<DeviceEvent, DeviceReadError>,
) -> std::result::Result<EventView, FaultView> {
    match r {
        Ok(event) => Ok(event@),
        Err(e) => Err(e@),
    }
}

pub open spec fn message_result(
    r: std::result::Result<DeviceMessage, DeviceReadError>,
) -> std::result::Result<EventView, FaultView> {
    match r {
        Ok(message) => Ok(message@),
        Err(e) => Err(e@),
    }
}

/// The first control message that `want` accepts.
pub open spec fn awaited(bytes: Seq<u8>, want: spec_fn(EventView) -> bool) -> Parsed
    decreases bytes.len(),
{
    match parsed(bytes, false) {
        Parsed::Done { event, used } => if want(event) {
            Parsed::Done { event, used }
        } else {
            proof {
                lemma_parsed_bounds(bytes, false);
            }
            awaited(bytes.skip(used), want).behind(used)
        },
        other => other,
    }
}

/// Whether contents are a clipboard text.
pub open spec fn wants_clipboard() -> spec_fn(EventView) -> bool {
    |event: EventView| event is Clipboard
}

/// Whether contents acknowledge a sequence number.
pub open spec fn wants_ack(sequence: u64) -> spec_fn(EventView) -> bool {
    |event: EventView| event == (EventView::AckClipboard { sequence })
}

/// The error that a failed wait reports: a timeout under the name of what was
/// awaited, and any other fault by its text.
pub open spec fn wait_error(fault: FaultView, label: &'static str, e: Error) -> bool {
    if fault.kind == ReadErrorKind::TimedOut {
        e == Error::AgentTimeout(label)
    } else {
        e matches Error::Transport(m) && m@ == fault.message
    }
}

fn awaiting_error(e: DeviceReadError, label: &'static str) -> (r: Error)
    ensures
        wait_error(e@, label, r),
{
    match e.kind {
        ReadErrorKind::TimedOut => Error::AgentTimeout(label),
        _ => Error::Transport(e.message),
    }
}

impl ReceivedBytes {
    pub closed spec fn valid(&self) -> bool {
        self.pos <= self.bytes@.len()
    }

    /// Bytes at whose end the stream ends, or at whose end reads time out.
    pub fn new(bytes: Vec<u8>, timed_out: bool) -> (r: ReceivedBytes)
        ensures
            r.valid(),
            r@ == (ReceivedView { rest: bytes@, timed_out }),
    {
        assert(bytes@.skip(0) =~= bytes@);
        ReceivedBytes { bytes, pos: 0, timed_out }
    }

    /// How many bytes are left.
    pub fn remaining(&self) -> (n: usize)
        requires
            self.valid(),
        ensures
            n == self@.rest.len(),
    {
        self.bytes.len() - self.pos
    }

    fn end(&self) -> (e: DeviceReadError)
        ensures
            e@ == self@.end_fault(),
    {
        if self.timed_out {
            DeviceReadError {
                kind: ReadErrorKind::TimedOut,
                message: String::from_str("timed out"),
            }
        } else {
            DeviceReadError {
                kind: ReadErrorKind::UnexpectedEof,
                message: String::from_str("failed to fill whole buffer"),
            }
        }
    }

    /// Hands a reader the bytes that it needs, or moves to the end where they are
    /// not there.
    fn advance(&mut self, read: &mut DeviceRead) -> (p: Option<ReadProgress>)
        requires
            old(self).valid(),
            old(read).stage.valid(),
        ensures
            final(self).valid(),
            final(read).events == old(read).events,
            final(read).stage.valid(),
            ({
                let rest = old(self)@.rest;
                let n = old(read).stage.size();
                if rest.len() < n {
                    p is None && final(self)@ == old(self)@.skip(rest.len() as int)
                } else {
                    &&& final(self)@ == old(self)@.skip(n)
                    &&& match staged(old(read).stage, old(read).events, rest.take(n)) {
                        StageView::More(stage) => {
                            &&& p matches Some(ReadProgress::More)
                            &&& final(read).stage == stage
                        },
                        StageView::Done(event) => {
                            &&& p matches Some(ReadProgress::Done(e))
                            &&& e@ == event
                        },
                        StageView::Fault(fault) => {
                            &&& p matches Some(ReadProgress::Failed(e))
                            &&& e@ == fault
                        },
                    }
                }
            }),
    {
        let n: usize = read.needed();
        let ghost rest = self@.rest;
        if self.bytes.len() - self.pos < n {
            self.pos = self.bytes.len();
            assert(self@.rest =~= rest.skip(rest.len() as int));
            return None;
        }
        let from: usize = self.pos;
        self.pos = from + n;
        assert(self@.rest =~= rest.skip(n as int));
        assert(self.bytes@.subrange(from as int, from + n) =~= rest.take(n as int));
        Some(read.feed(&self.bytes.as_slice()[from..from + n]))
    }

    fn read(&mut self, events: bool) -> (r: std::result::Result<DeviceEvent, DeviceReadError>)
        requires
            old(self).valid(),
        ensures
            final(self).valid(),
            read_done(
                parsed(old(self)@.rest, events),
                old(self)@,
                final(self)@,
                event_result(r),
            ),
            !events && r is Ok ==> r->Ok_0@.native(),
    {
        let ghost start = self@;
        let mut read = DeviceRead::new(events);
        let ghost mut used: int = 0;
        proof {
            assert(start.rest.skip(0) =~= start.rest);
            lemma_stage_step(ReadStage::Type, events, start.rest);
        }
        loop
            invariant
                self.valid(),
                start == old(self)@,
                0 <= used <= start.rest.len(),
                self@ == start.skip(used),
                read.events == events,
                read.stage.valid(),
                parsed(start.rest, events) == read.stage.parsed(events, self@.rest).behind(used),
            decreases read.stage.rank(),
        {
            let ghost rest = self@.rest;
            let ghost n = read.stage.size();
            proof {
                lemma_stage_step(read.stage, events, rest);
                assert(rest.skip(rest.len() as int) =~= start.rest.skip(start.rest.len() as int));
                if n <= rest.len() {
                    assert(rest.skip(n) =~= start.rest.skip(used + n));
                }
            }
            match self.advance(&mut read) {
                None => {
                    return Err(self.end());
                },
                Some(ReadProgress::More) => {
                    proof {
                        used = used + n;
                    }
                },
                Some(ReadProgress::Done(event)) => {
                    proof {
                        if !events {
                            lemma_messages_are_events(start.rest);
                        }
                    }
                    return Ok(event);
                },
                Some(ReadProgress::Failed(e)) => {
                    return Err(e);
                },
            }
        }
    }

    /// Reads the next message or event.
    pub fn read_next_event(&mut self) -> (r: std::result::Result<DeviceEvent, DeviceReadError>)
        requires
            old(self).valid(),
        ensures
            final(self).valid(),
            read_done(
                parsed(old(self)@.rest, true),
                old(self)@,
                final(self)@,
                event_result(r),
            ),
    {
        self.read(true)
    }

    /// Reads the next control message.
    pub fn read_next(&mut self) -> (r: std::result::Result<DeviceMessage, DeviceReadError>)
        requires
            old(self).valid(),
        ensures
            final(self).valid(),
            read_done(
                parsed(old(self)@.rest, false),
                old(self)@,
                final(self)@,
                message_result(r),
            ),
    {
        match self.read(false) {
            Ok(event) => match event {
                DeviceEvent::Native(message) => Ok(message),
                _ => {
                    assert(false);
                    Err(unknown_type(0))
                },
            },
            Err(e) => Err(e),
        }
    }

    /// Skips control messages up to the next clipboard text and returns it.
    pub fn wait_for_clipboard(&mut self) -> (r: Result<String>)
        requires
            old(self).valid(),
        ensures
            final(self).valid(),
            match awaited(old(self)@.rest, wants_clipboard()) {
                Parsed::Short => {
                    &&& r matches Err(e)
                    &&& wait_error(old(self)@.end_fault(), "clipboard", e)
                    &&& final(self)@ == old(self)@.skip(old(self)@.rest.len() as int)
                },
                Parsed::Fault { fault, used } => {
                    &&& r matches Err(e)
                    &&& wait_error(fault, "clipboard", e)
                    &&& final(self)@ == old(self)@.skip(used)
                },
                Parsed::Done { event, used } => {
                    &&& r matches Ok(text)
                    &&& event == EventView::Clipboard(text@)
                    &&& final(self)@ == old(self)@.skip(used)
                },
            },
    {
        let ghost want = wants_clipboard();
        let ghost rest0 = self@.rest;
        let ghost mut used: int = 0;
        assert(rest0.skip(0) =~= rest0);
        loop
            invariant
                self.valid(),
                want == wants_clipboard(),
                rest0 == old(self)@.rest,
                self@.timed_out == old(self)@.timed_out,
                0 <= used <= rest0.len(),
                self@.rest == rest0.skip(used),
                awaited(rest0, want) == awaited(self@.rest, want).behind(used),
            decreases self@.rest.len(),
        {
            let ghost rest = self@.rest;
            proof {
                lemma_parsed_bounds(rest, false);
            }
            match self.read_next() {
                Ok(message) => {
                    let ghost n = parsed(rest, false)->Done_used;
                    assert(self@.rest =~= rest0.skip(used + n));
                    match message {
                        DeviceMessage::Clipboard(text) => {
                            return Ok(text);
                        },
                        _ => {},
                    }
                    proof {
                        used = used + n;
                    }
                },
                Err(e) => {
                    proof {
                        if let Parsed::Fault { used: n, .. } = parsed(rest, false) {
                            assert(self@.rest =~= rest0.skip(used + n));
                        } else {
                            assert(self@.rest =~= rest0.skip(rest0.len() as int));
                        }
                    }
                    return Err(awaiting_error(e, "clipboard"));
                },
            }
        }
    }

    /// Skips control messages up to the acknowledgement of `sequence`.
    pub fn wait_for_clipboard_ack(&mut self, sequence: u64) -> (r: Result<()>)
        requires
            old(self).valid(),
        ensures
            final(self).valid(),
            match awaited(old(self)@.rest, wants_ack(sequence)) {
                Parsed::Short => {
                    &&& r matches Err(e)
                    &&& wait_error(old(self)@.end_fault(), "clipboard ack", e)
                    &&& final(self)@ == old(self)@.skip(old(self)@.rest.len() as int)
                },
                Parsed::Fault { fault, used } => {
                    &&& r matches Err(e)
                    &&& wait_error(fault, "clipboard ack", e)
                    &&& final(self)@ == old(self)@.skip(used)
                },
                Parsed::Done { used, .. } => {
                    &&& r == Ok::<(), Error>(())
                    &&& final(self)@ == old(self)@.skip(used)
                },
            },
    {
        let ghost want = wants_ack(sequence);
        let ghost rest0 = self@.rest;
        let ghost mut used: int = 0;
        assert(rest0.skip(0) =~= rest0);
        loop
            invariant
                self.valid(),
                want == wants_ack(sequence),
                rest0 == old(self)@.rest,
                self@.timed_out == old(self)@.timed_out,
                0 <= used <= rest0.len(),
                self@.rest == rest0.skip(used),
                awaited(rest0, want) == awaited(self@.rest, want).behind(used),
            decreases self@.rest.len(),
        {
            let ghost rest = self@.rest;
            proof {
                lemma_parsed_bounds(rest, false);
            }
            match self.read_next() {
                Ok(message) => {
                    let ghost n = parsed(rest, false)->Done_used;
                    assert(self@.rest =~= rest0.skip(used + n));
                    match message {
                        DeviceMessage::AckClipboard { sequence: got } => {
                            if got == sequence {
                                return Ok(());
                            }
                        },
                        _ => {},
                    }
                    proof {
                        used = used + n;
                    }
                },
                Err(e) => {
                    proof {
                        if let Parsed::Fault { used: n, .. } = parsed(rest, false) {
                            assert(self@.rest =~= rest0.skip(used + n));
                        } else {
                            assert(self@.rest =~= rest0.skip(rest0.len() as int));
                        }
                    }
                    return Err(awaiting_error(e, "clipboard ack"));
                },
            }
        }
    }
}

/// A wait ends with something that it waits for.
pub proof fn lemma_awaited_is_wanted(bytes: Seq<u8>, want: spec_fn(EventView) -> bool)
    ensures
        match awaited(bytes, want) {
            Parsed::Short => true,
            Parsed::Done { event, used } => want(event) && 0 < used <= bytes.len(),
            Parsed::Fault { used, .. } => 0 < used <= bytes.len(),
        },
    decreases bytes.len(),
{
    lemma_parsed_bounds(bytes, false);
    if let Parsed::Done { event, used } = parsed(bytes, false) {
        if !want(event) {
            lemma_awaited_is_wanted(bytes.skip(used), want);
        }
    }
}

/// A wait passes over acknowledgements that it does not wait for.
pub proof fn lemma_wait_skips_ack(
    sequence: u64,
    rest: Seq<u8>,
    want: spec_fn(EventView) -> bool,
)
    requires
        !want(EventView::AckClipboard { sequence }),
    ensures
        awaited(ack_bytes(sequence) + rest, want) == awaited(rest, want).behind(9),
{
    lemma_ack_round_trip(sequence, rest, false);
    assert((ack_bytes(sequence) + rest).skip(9) =~= rest);
}

/// Whether a pump reads on. It stops behind an error, and once nobody takes
/// what it delivers.
pub fn pump_goes_on(read_ok: bool, delivered: bool) -> (r: bool)
    ensures
        r == (read_ok && delivered),
{
    read_ok && delivered
}

/// The bytes of an acknowledgement.
pub open spec fn ack_bytes(sequence: u64) -> Seq<u8> {
    seq![TYPE_ACK_CLIPBOARD] + be64(sequence)
}

/// The bytes of a clipboard message.
pub open spec fn clipboard_bytes(text: Seq<char>) -> Seq<u8> {
    seq![TYPE_CLIPBOARD] + be32(encode_utf8(text).len() as u32) + encode_utf8(text)
}

/// The bytes of a UHID output report.
pub open spec fn uhid_output_bytes(id: u16, data: Seq<u8>) -> Seq<u8> {
    seq![TYPE_UHID_OUTPUT] + (be16(id) + be16(data.len() as u16)) + data
}

/// The bytes of an envelope.
pub open spec fn envelope_bytes(ty: u8, payload: Seq<u8>) -> Seq<u8> {
    seq![ty] + be32(payload.len() as u32) + payload
}

proof fn lemma_payload_parts(ty: u8, header: Seq<u8>, payload: Seq<u8>, tail: Seq<u8>)
    requires
        ty != TYPE_ACK_CLIPBOARD,
        header.len() == 4,
    ensures
        ({
            let s = seq![ty] + header + payload + tail;
            &&& s[0] == ty
            &&& s.skip(1) == header + payload + tail
            &&& s.skip(1).subrange(0, 4) == header
            &&& s.skip(1).skip(4) == payload + tail
            &&& s.skip(1).skip(4).take(payload.len() as int) == payload
        }),
{
    let s = seq![ty] + header + payload + tail;
    assert(s.skip(1) =~= header + payload + tail);
    assert((header + payload + tail).subrange(0, 4) =~= header);
    assert((header + payload + tail).skip(4) =~= payload + tail);
    assert((payload + tail).take(payload.len() as int) =~= payload);
}

/// A reader gives back the acknowledgement that was written, whatever follows it.
pub proof fn lemma_ack_round_trip(sequence: u64, tail: Seq<u8>, events: bool)
    ensures
        parsed(ack_bytes(sequence) + tail, events) == (Parsed::Done {
            event: EventView::AckClipboard { sequence },
            used: 9,
        }),
{
    let s = ack_bytes(sequence) + tail;
    assert(s.skip(1).subrange(0, 8) =~= be64(sequence));
    lemma_be64_round_trip(sequence, s.skip(1), 0);
}

/// A reader gives back the clipboard text that was written, whatever follows it.
pub proof fn lemma_clipboard_round_trip(text: Seq<char>, tail: Seq<u8>, events: bool)
    requires
        encode_utf8(text).len() <= DEVICE_MSG_TEXT_MAX_LENGTH,
    ensures
        parsed(clipboard_bytes(text) + tail, events) == (Parsed::Done {
            event: EventView::Clipboard(text),
            used: 5int + encode_utf8(text).len(),
        }),
{
    let payload = encode_utf8(text);
    let header = be32(payload.len() as u32);
    let s = clipboard_bytes(text) + tail;
    lemma_payload_parts(TYPE_CLIPBOARD, header, payload, tail);
    lemma_be32_round_trip(payload.len() as u32, s.skip(1), 0);
    reveal(payload_contents);
    vstd::utf8::encode_utf8_valid_utf8(text);
    vstd::utf8::encode_utf8_decode_utf8(text);
}

/// A reader gives back the UHID report that was written, whatever follows it.
pub proof fn lemma_uhid_output_round_trip(id: u16, data: Seq<u8>, tail: Seq<u8>, events: bool)
    requires
        data.len() <= u16::MAX,
    ensures
        parsed(uhid_output_bytes(id, data) + tail, events) == (Parsed::Done {
            event: EventView::UhidOutput { id, data },
            used: 5int + data.len(),
        }),
{
    let header = be16(id) + be16(data.len() as u16);
    let s = uhid_output_bytes(id, data) + tail;
    lemma_payload_parts(TYPE_UHID_OUTPUT, header, data, tail);
    let h = s.skip(1);
    assert(h.subrange(0, 2) =~= be16(id)) by {
        assert(h.subrange(0, 4).subrange(0, 2) =~= be16(id));
    }
    assert(h.subrange(2, 4) =~= be16(data.len() as u16)) by {
        assert(h.subrange(0, 4).subrange(2, 4) =~= be16(data.len() as u16));
    }
    lemma_be16_round_trip(id, h, 0);
    lemma_be16_round_trip(data.len() as u16, h, 2);
    reveal(payload_contents);
}

proof fn lemma_envelope_parsed(ty: u8, payload: Seq<u8>, tail: Seq<u8>)
    requires
        ty != TYPE_ACK_CLIPBOARD,
        ty != TYPE_UHID_OUTPUT,
        payload.len() <= DEVICE_MSG_MAX_PAYLOAD,
    ensures
        parsed(envelope_bytes(ty, payload) + tail, true) == match payload_contents(
            ty,
            0,
            payload,
        ) {
            Ok(event) => Parsed::Done { event, used: 5int + payload.len() },
            Err(fault) => Parsed::Fault { fault, used: 5int + payload.len() },
        },
{
    let s = envelope_bytes(ty, payload) + tail;
    lemma_payload_parts(ty, be32(payload.len() as u32), payload, tail);
    lemma_be32_round_trip(payload.len() as u32, s.skip(1), 0);
}

/// A reader of events gives back the frame summary that was written, whatever
/// follows it.
pub proof fn lemma_frame_event_round_trip(frame: FrameView, tail: Seq<u8>)
    requires
        countable(frame),
        frame_payload(frame).len() <= DEVICE_MSG_MAX_PAYLOAD,
    ensures
        parsed(envelope_bytes(TYPE_FRAME_SUMMARY, frame_payload(frame)) + tail, true) == (
        Parsed::Done {
            event: EventView::FrameSummary(frame),
            used: 5int + frame_payload(frame).len(),
        }),
{
    let payload = frame_payload(frame);
    lemma_envelope_parsed(TYPE_FRAME_SUMMARY, payload, tail);
    assert(payload_contents(TYPE_FRAME_SUMMARY, 0, payload) == Ok::<EventView, FaultView>(
        EventView::FrameSummary(frame),
    )) by {
        lemma_frame_round_trip(frame, Seq::empty());
        assert(payload + Seq::<u8>::empty() =~= payload);
        reveal(payload_contents);
    }
}

/// A reader of events gives back the statistics that were written, whatever
/// follows them.
pub proof fn lemma_stats_event_round_trip(stats: AiStats, tail: Seq<u8>)
    ensures
        parsed(envelope_bytes(TYPE_AI_STATS, stats_payload(stats)) + tail, true) == (
        Parsed::Done { event: EventView::AiStats(stats), used: 5 + AI_STATS_BYTES }),
{
    let payload = stats_payload(stats);
    lemma_envelope_parsed(TYPE_AI_STATS, payload, tail);
    assert(payload_contents(TYPE_AI_STATS, 0, payload) == Ok::<EventView, FaultView>(
        EventView::AiStats(stats),
    )) by {
        lemma_stats_round_trip(stats, Seq::empty());
        assert(payload + Seq::<u8>::empty() =~= payload);
        reveal(payload_contents);
    }
}

/// A reader of events hands on what an envelope of an unknown type holds.
pub proof fn lemma_unknown_event_round_trip(ty: u8, payload: Seq<u8>, tail: Seq<u8>)
    requires
        ty > TYPE_AI_STATS,
        payload.len() <= DEVICE_MSG_MAX_PAYLOAD,
    ensures
        parsed(envelope_bytes(ty, payload) + tail, true) == (Parsed::Done {
            event: EventView::UnknownEnvelope { msg_type: ty, payload },
            used: 5int + payload.len(),
        }),
{
    lemma_envelope_parsed(ty, payload, tail);
    reveal(payload_contents);
}

/// What a reader finds does not depend on the bytes behind it: more bytes change
/// the outcome only where it was that more bytes are needed.
pub proof fn lemma_parse_ignores_tail(bytes: Seq<u8>, tail: Seq<u8>, events: bool)
    requires
        !(parsed(bytes, events) is Short),
    ensures
        parsed(bytes + tail, events) == parsed(bytes, events),
{
    let all = bytes + tail;
    let h = bytes.skip(1);
    assert(all[0] == bytes[0]);
    assert(all.skip(1) =~= h + tail);
    if type_known(bytes[0], events) {
        let ty = bytes[0];
        assert(h.len() >= header_size(ty));
        assert(forall|i: int| 0 <= i < h.len() ==> (h + tail)[i] == h[i]);
        if ty != TYPE_ACK_CLIPBOARD && header_len(ty, h) <= DEVICE_MSG_MAX_PAYLOAD {
            assert((h + tail).skip(4) =~= h.skip(4) + tail);
            let len = header_len(ty, h);
            assert((h.skip(4) + tail).take(len) =~= h.skip(4).take(len));
        }
    }
}

/// A reader of control messages and a reader of events agree wherever the first
/// finds a message.
pub proof fn lemma_messages_are_events(bytes: Seq<u8>)
    requires
        parsed(bytes, false) is Done,
    ensures
        parsed(bytes, true) == parsed(bytes, false),
        parsed(bytes, false)->Done_event.native(),
{
    reveal(payload_contents);
}

/// An acknowledgement is a byte 1 and eight bytes of sequence number; it has no
/// payload.
pub proof fn lemma_ack_by_bytes(s: Seq<u8>, events: bool)
    requires
        s.len() >= 1,
        s[0] == 1,
    ensures
        s.len() < 9 ==> parsed(s, events) is Short,
        s.len() >= 9 ==> {
            &&& parsed(s, events) matches Parsed::Done { event, used }
            &&& used == 9
            &&& event matches EventView::AckClipboard { sequence }
            &&& sequence == 0x1_0000_0000 * (0x1_0000 * (256 * s[1] + s[2]) + 256 * s[3] + s[4])
                + 0x1_0000 * (256 * s[5] + s[6]) + 256 * s[7] + s[8]
        },
{
}

/// A UHID report is a byte 2, two bytes of id, two of size and the data.
pub proof fn lemma_uhid_output_by_bytes(s: Seq<u8>, events: bool)
    requires
        s.len() >= 5,
        s[0] == 2,
    ensures
        ({
            let n = 256 * s[3] + s[4];
            &&& s.len() < 5 + n ==> parsed(s, events) is Short
            &&& s.len() >= 5 + n ==> {
                &&& parsed(s, events) matches Parsed::Done { event, used }
                &&& used == 5 + n
                &&& event matches EventView::UhidOutput { id, data }
                &&& id == 256 * s[1] + s[2]
                &&& data == s.subrange(5, 5 + n)
            }
        }),
{
    reveal(payload_contents);
    let n = 256 * s[3] + s[4];
    if s.len() >= 5 + n {
        assert(s.skip(1).skip(4).take(n) =~= s.subrange(5, 5 + n));
    }
}

/// Every other message is a type byte, four bytes of size and a payload of that size.
/// A size above 262139 is refused behind the head; a text is one exactly if its bytes
/// are UTF-8.
pub proof fn lemma_sized_message_by_bytes(s: Seq<u8>, events: bool)
    requires
        s.len() >= 5,
        s[0] != 1,
        s[0] != 2,
        events || s[0] == 0,
    ensures
        ({
            let n = 0x1_0000 * (256 * s[1] + s[2]) + 256 * s[3] + s[4];
            let payload = s.subrange(5, 5 + n);
            &&& n > 262_139 ==> (parsed(s, events) matches Parsed::Fault { fault, used } && used
                == 5 && fault.kind == ReadErrorKind::InvalidData)
            &&& n <= 262_139 && s.len() < 5 + n ==> parsed(s, events) is Short
            &&& n <= 262_139 && s.len() >= 5 + n ==> match parsed(s, events) {
                Parsed::Short => false,
                Parsed::Done { event, used } => {
                    &&& used == 5 + n
                    &&& s[0] == 0 ==> event is Clipboard && valid_utf8(payload)
                    &&& s[0] == 3 ==> event == EventView::FrameSummary(decoded_frame(payload))
                        && well_framed(payload)
                    &&& s[0] == 4 ==> event == EventView::AiStats(decoded_stats(payload)) && n >= 36
                    &&& s[0] > 4 ==> event == (EventView::UnknownEnvelope {
                        msg_type: s[0],
                        payload,
                    })
                },
                Parsed::Fault { fault, used } => {
                    &&& used == 5 + n
                    &&& fault.kind == ReadErrorKind::InvalidData
                    &&& s[0] == 0 && !valid_utf8(payload) || s[0] == 3 && !well_framed(payload)
                        || s[0] == 4 && n < 36
                },
            }
        }),
{
    reveal(payload_contents);
    let n = 0x1_0000 * (256 * s[1] + s[2]) + 256 * s[3] + s[4];
    if n <= 262_139 && s.len() >= 5 + n {
        assert(s.skip(1).skip(4).take(n) =~= s.subrange(5, 5 + n));
    }
}

/// A reader of control messages refuses every type above 2 by its type byte alone; a
/// reader of events refuses none.
pub proof fn lemma_unknown_types_are_refused(s: Seq<u8>)
    requires
        s.len() >= 1,
    ensures
        s[0] > 2 ==> (parsed(s, false) matches Parsed::Fault { fault, used } && used == 1
            && fault.kind == ReadErrorKind::InvalidData && fault.message
            == "unknown device message type "@ + decimal(s[0] as nat)),
        s.len() < 5 ==> parsed(s, true) is Short,
        s.len() < 5 && s[0] <= 2 ==> parsed(s, false) is Short,
{
}

/// How an oversized payload is reported: by what it would have been, its size and the
/// largest size.
pub proof fn lemma_oversized_payload_text(ty: u8, len: int)
    ensures
        ty == 0 ==> too_large_text(ty, len) == "clipboard payload too large: "@ + decimal(
            len as nat,
        ) + " bytes (max "@ + decimal(262_139) + ")"@,
        ty == 2 ==> too_large_text(ty, len) == "uhid output payload too large: "@ + decimal(
            len as nat,
        ) + " bytes (max "@ + decimal(262_139) + ")"@,
        ty > 2 ==> too_large_text(ty, len) == "device event payload too large: "@ + decimal(
            len as nat,
        ) + " bytes (max "@ + decimal(262_139) + ")"@,
{
}

/// A reader that gets a message piece by piece asks for the type byte first, then for
/// the header, then for the payload, and for no bytes beyond the message.
pub proof fn lemma_stages_ask_in_order(ty: u8, id: u16, len: usize)
    ensures
        ReadStage::Type.size() == 1,
        (ReadStage::Header { ty }).size() == if ty == 1 {
            8int
        } else {
            4
        },
        (ReadStage::Payload { ty, id, len }).size() == len,
        ReadStage::Type.valid() && (ReadStage::Header { ty }).valid(),
        (ReadStage::Payload { ty, id, len }).valid() <==> 1 <= len <= 262_139,
{
}

/// A read takes exactly the bytes of what it found off the front; where it found too
/// few it takes them all and says why there are no more.
pub proof fn lemma_read_takes_its_bytes(
    bytes: Seq<u8>,
    old: ReceivedView,
    new: ReceivedView,
    r: std::result::Result<EventView, FaultView>,
)
    requires
        old.rest == bytes,
        read_done(parsed(bytes, true), old, new, r),
    ensures
        new.timed_out == old.timed_out,
        match parsed(bytes, true) {
            Parsed::Short => {
                &&& new.rest.len() == 0
                &&& r matches Err(e) && e.kind == if old.timed_out {
                    ReadErrorKind::TimedOut
                } else {
                    ReadErrorKind::UnexpectedEof
                }
            },
            Parsed::Done { event, used } => {
                &&& bytes == bytes.take(used) + new.rest
                &&& r == Ok::<EventView, FaultView>(event)
            },
            Parsed::Fault { fault, used } => {
                &&& bytes == bytes.take(used) + new.rest
                &&& r == Err::<EventView, FaultView>(fault)
            },
        },
{
    lemma_parsed_bounds(bytes, true);
    match parsed(bytes, true) {
        Parsed::Short => {},
        Parsed::Done { used, .. } => {
            assert(bytes =~= bytes.take(used) + new.rest);
        },
        Parsed::Fault { used, .. } => {
            assert(bytes =~= bytes.take(used) + new.rest);
        },
    }
}

/// A wait for an acknowledgement passes over others and ends with the one that has its
/// sequence number. A wait for a text passes over acknowledgements and ends with the
/// text.
pub proof fn lemma_wait_finds_its_answer(
    other: u64,
    sequence: u64,
    text: Seq<char>,
    tail: Seq<u8>,
)
    requires
        other != sequence,
        encode_utf8(text).len() <= DEVICE_MSG_TEXT_MAX_LENGTH,
    ensures
        awaited(ack_bytes(other) + (ack_bytes(sequence) + tail), wants_ack(sequence)) == (
        Parsed::Done { event: EventView::AckClipboard { sequence }, used: 18 }),
        awaited(ack_bytes(other) + (clipboard_bytes(text) + tail), wants_clipboard()) == (
        Parsed::Done {
            event: EventView::Clipboard(text),
            used: 14int + encode_utf8(text).len(),
        }),
        awaited(clipboard_bytes(text) + (ack_bytes(sequence) + tail), wants_ack(sequence)) == (
        Parsed::Done {
            event: EventView::AckClipboard { sequence },
            used: 14int + encode_utf8(text).len(),
        }),
{
    lemma_wait_skips_ack(other, ack_bytes(sequence) + tail, wants_ack(sequence));
    lemma_ack_round_trip(sequence, tail, false);
    lemma_wait_skips_ack(other, clipboard_bytes(text) + tail, wants_clipboard());
    lemma_clipboard_round_trip(text, tail, false);
    lemma_clipboard_round_trip(text, ack_bytes(sequence) + tail, false);
    let n = 5int + encode_utf8(text).len();
    let all = clipboard_bytes(text) + (ack_bytes(sequence) + tail);
    assert(clipboard_bytes(text).len() == n);
    assert(all.skip(n) =~= ack_bytes(sequence) + tail);
}

/// A wait that timed out is reported under the name of what was awaited, and any other
/// failure by its own text.
pub proof fn lemma_wait_error_tells_timeout(fault: FaultView, label: &'static str, e: Error)
    requires
        wait_error(fault, label, e),
    ensures
        fault.kind == ReadErrorKind::TimedOut ==> e == Error::AgentTimeout(label),
        fault.kind != ReadErrorKind::TimedOut ==> (e matches Error::Transport(m) && m@
            == fault.message),
{
}

/// The length of a name ends at the first zero byte, or at the end of the field.
pub proof fn lemma_name_ends_at_zero(field: Seq<u8>, n: int, i: int)
    requires
        name_len(field, n),
        0 <= i < field.len(),
    ensures
        0 <= n <= field.len(),
        i < n ==> field[i] != 0,
        field[i] == 0 ==> n <= i,
        n < field.len() ==> field[n] == 0,
{
}

/// A message that was written is read back, and the bytes behind it are left.
pub proof fn lemma_written_messages_are_read(
    b: &mut ReceivedBytes,
    e: std::result::Result<DeviceEvent, DeviceReadError>,
    m: std::result::Result<DeviceMessage, DeviceReadError>,
    sequence: u64,
    text: Seq<char>,
    tail: Seq<u8>,
)
    requires
        old(b).valid(),
        encode_utf8(text).len() <= 262_139,
    ensures
        call_ensures(ReceivedBytes::read_next_event, (b,), e) ==> {
            &&& old(b)@.rest == ack_bytes(sequence) + tail ==> final(b)@.rest == tail && (
            e matches Ok(v) && v@ == (EventView::AckClipboard { sequence }))
            &&& old(b)@.rest == clipboard_bytes(text) + tail ==> final(b)@.rest == tail && (
            e matches Ok(v) && v@ == EventView::Clipboard(text))
            &&& old(b)@.rest.len() == 0 ==> e is Err && final(b)@.rest.len() == 0
        },
        call_ensures(ReceivedBytes::read_next, (b,), m) ==> {
            &&& old(b)@.rest == ack_bytes(sequence) + tail ==> final(b)@.rest == tail && (
            m matches Ok(v) && v@ == (EventView::AckClipboard { sequence }))
            &&& old(b)@.rest == clipboard_bytes(text) + tail ==> final(b)@.rest == tail && (
            m matches Ok(v) && v@ == EventView::Clipboard(text))
            &&& old(b)@.rest.len() == 0 ==> m is Err && final(b)@.rest.len() == 0
            &&& old(b)@.rest.len() > 0 && old(b)@.rest[0] > 2 ==> m is Err
        },
{
    lemma_ack_round_trip(sequence, tail, true);
    lemma_ack_round_trip(sequence, tail, false);
    lemma_clipboard_round_trip(text, tail, true);
    lemma_clipboard_round_trip(text, tail, false);
    assert((ack_bytes(sequence) + tail).skip(9) =~= tail);
    let n = 5int + encode_utf8(text).len();
    assert(clipboard_bytes(text).len() == n);
    assert((clipboard_bytes(text) + tail).skip(n) =~= tail);
    if old(b)@.rest.len() > 0 && old(b)@.rest[0] > 2 {
        lemma_unknown_types_are_refused(old(b)@.rest);
    }
}

/// Waits: for a text over an acknowledgement, for an acknowledgement over another and
/// over a text. What comes behind is left, and a stream without an answer is read to
/// its end.
pub proof fn lemma_waits_are_answered(
    b: &mut ReceivedBytes,
    r: Result<String>,
    a: Result<()>,
    other: u64,
    sequence: u64,
    text: Seq<char>,
    tail: Seq<u8>,
)
    requires
        old(b).valid(),
        other != sequence,
        encode_utf8(text).len() <= 262_139,
    ensures
        call_ensures(ReceivedBytes::wait_for_clipboard, (b,), r) ==> {
            &&& old(b)@.rest == ack_bytes(other) + (clipboard_bytes(text) + tail) ==> final(
                b)@.rest == tail && (r matches Ok(t) && t@ == text)
            &&& old(b)@.rest.len() == 0 && old(b)@.timed_out ==> r == Err::<String, Error>(
                Error::AgentTimeout("clipboard"),
            )
            &&& old(b)@.rest.len() == 0 ==> r is Err
        },
        call_ensures(ReceivedBytes::wait_for_clipboard_ack, (b, sequence), a) ==> {
            &&& old(b)@.rest == ack_bytes(other) + (ack_bytes(sequence) + tail) ==> final(b)@.rest
                == tail && a is Ok
            &&& old(b)@.rest == clipboard_bytes(text) + (ack_bytes(sequence) + tail) ==> final(
                b)@.rest == tail && a is Ok
            &&& old(b)@.rest == ack_bytes(other) ==> a is Err && final(b)@.rest.len() == 0
            &&& old(b)@.rest.len() == 0 && old(b)@.timed_out ==> a == Err::<(), Error>(
                Error::AgentTimeout("clipboard ack"),
            )
            &&& old(b)@.rest.len() == 0 ==> a is Err
        },
{
    lemma_wait_finds_its_answer(other, sequence, text, tail);
    let n = encode_utf8(text).len() as int;
    assert(clipboard_bytes(text).len() == 5 + n);
    assert((ack_bytes(other) + (clipboard_bytes(text) + tail)).skip(14 + n) =~= tail);
    assert((ack_bytes(other) + (ack_bytes(sequence) + tail)).skip(18) =~= tail);
    assert((clipboard_bytes(text) + (ack_bytes(sequence) + tail)).skip(14 + n) =~= tail);
    lemma_wait_skips_ack(other, Seq::empty(), wants_ack(sequence));
    assert(ack_bytes(other) + Seq::<u8>::empty() =~= ack_bytes(other));
    assert(parsed(Seq::<u8>::empty(), false) is Short);
}

/// Received bytes are all there at first, and a reader waits for a type byte. It takes
/// no byte of its own: what it needs is what its stage asks for.
pub proof fn lemma_new_readers(
    bytes: Vec<u8>,
    timed_out: bool,
    events: bool,
    b: ReceivedBytes,
    n: usize,
    read: DeviceRead,
    need: usize,
)
    requires
        call_ensures(ReceivedBytes::new, (bytes, timed_out), b),
        call_ensures(ReceivedBytes::remaining, (&b,), n),
        call_ensures(DeviceRead::new, (events,), read),
        call_ensures(DeviceRead::needed, (&read,), need),
    ensures
        n == bytes@.len(),
        b@.rest == bytes@ && b@.timed_out == timed_out,
        need == 1,
        read.events == events,
{
}

/// A reader that is fed piece by piece: a type byte makes it ask for a header, and the
/// eight bytes of an acknowledgement end the message and make it ask for the next type.
pub proof fn lemma_fed_reader(
    read: &mut DeviceRead,
    bytes: &[u8],
    p: ReadProgress,
    sequence: u64,
)
    requires
        old(read).stage.valid(),
        call_ensures(DeviceRead::feed, (read, bytes), p),
    ensures
        final(read).events == old(read).events,
        old(read).stage is Type && bytes@.len() == 1 ==> {
            &&& bytes@[0] <= 2 || old(read).events ==> p is More && final(read).stage == (
            ReadStage::Header { ty: bytes@[0] })
            &&& bytes@[0] > 2 && !old(read).events ==> p is Failed && final(read).stage is Type
        },
        old(read).stage == (ReadStage::Header { ty: 1 }) && bytes@ == be64(sequence) ==> {
            &&& p matches ReadProgress::Done(e) && e@ == (EventView::AckClipboard { sequence })
            &&& final(read).stage is Type
        },
        !(p is More) ==> final(read).stage is Type,
{
    lemma_be64_round_trip(sequence, be64(sequence), 0);
    assert(be64(sequence).subrange(0, 8) =~= be64(sequence));
}

/// What stands in front of the control stream is kept as it came, and the name is what
/// stands before the first zero.
pub proof fn lemma_prefix_is_kept(
    dummy: u8,
    raw: [u8; DEVICE_NAME_FIELD_LENGTH],
    prefix: ScrcpyControlPrefix,
    n: int,
)
    requires
        call_ensures(decode_control_prefix, (dummy, raw), prefix),
        0 <= n <= 64,
        forall|i: int| 0 <= i < n ==> #[trigger] raw@[i] != 0,
        n < 64 ==> raw@[n] == 0,
    ensures
        prefix.dummy_byte == dummy,
        prefix.raw_device_name == raw,
        valid_utf8(raw@.take(n)) ==> encode_utf8(prefix.device_name@) == raw@.take(n),
{
    let k = choose|k: int| #[trigger]
        name_len(raw@, k) && prefix.device_name@ == lossy_text(raw@.take(k)) && (valid_utf8(
            raw@.take(k),
        ) ==> prefix.device_name@ == decode_utf8(raw@.take(k)));
    assert(name_len(raw@, n));
    lemma_name_len_unique(raw@, k, n);
    if valid_utf8(raw@.take(n)) {
        vstd::utf8::decode_utf8_encode_utf8(raw@.take(n));
    }
}

/// A pump stops behind a failed read and behind a delivery that nobody took, and only
/// then.
pub proof fn lemma_pump_stops(read_ok: bool, delivered: bool, r: bool)
    requires
        call_ensures(pump_goes_on, (read_ok, delivered), r),
    ensures
        !r <==> !read_ok || !delivered,
{
}

/// A receiver holds the stream that it was made of and gives it back.
pub proof fn lemma_receiver_holds_stream<R>(
    reader: R,
    a: AsyncDeviceMessageReceiver<R>,
    shared: &R,
    back: R,
)
    requires
        call_ensures(AsyncDeviceMessageReceiver::<R>::new, (reader,), a),
        call_ensures(AsyncDeviceMessageReceiver::<R>::get_ref, (&a,), shared),
        call_ensures(AsyncDeviceMessageReceiver::<R>::into_inner, (a,), back),
    ensures
        back == reader,
        *shared == reader,
{
}

/// How the end of the bytes is reported: as a timeout where reads time out there, and as
/// an early end otherwise.
pub proof fn lemma_end_is_named(
    b: &mut ReceivedBytes,
    m: std::result::Result<DeviceMessage, DeviceReadError>,
    e: std::result::Result<DeviceEvent, DeviceReadError>,
)
    requires
        old(b).valid(),
        old(b)@.rest.len() == 0,
    ensures
        call_ensures(ReceivedBytes::read_next, (b,), m) ==> (m matches Err(f) && f@.kind == if old(
            b)@.timed_out {
            ReadErrorKind::TimedOut
        } else {
            ReadErrorKind::UnexpectedEof
        } && f@.message == if old(b)@.timed_out {
            "timed out"@
        } else {
            "failed to fill whole buffer"@
        }),
        call_ensures(ReceivedBytes::read_next_event, (b,), e) ==> (e matches Err(f) && f@.kind
            == if old(b)@.timed_out {
            ReadErrorKind::TimedOut
        } else {
            ReadErrorKind::UnexpectedEof
        } && f@.message == if old(b)@.timed_out {
            "timed out"@
        } else {
            "failed to fill whole buffer"@
        }),
{
}

/// A frame or statistics that end early are no message, and are reported so.
pub proof fn lemma_short_payload_is_named(ty: u8, payload: Seq<u8>, tail: Seq<u8>)
    requires
        payload.len() <= 262_139,
        (ty == 3 && payload.len() < 19) || (ty == 4 && payload.len() < 36),
    ensures
        parsed(seq![ty] + be32(payload.len() as u32) + payload + tail, true) matches Parsed::Fault {
            fault,
            used,
        } && used == 5 + payload.len() && fault.kind == ReadErrorKind::InvalidData && fault.message
            == "failed to fill whole buffer"@,
{
    let header = be32(payload.len() as u32);
    let s = seq![ty] + header + payload + tail;
    lemma_payload_parts(ty, header, payload, tail);
    lemma_be32_round_trip(payload.len() as u32, s.skip(1), 0);
    reveal(payload_contents);
}

/// An event of a type that no reader knows is read by a reader of events as it was
/// written; the bytes behind it are left.
pub proof fn lemma_written_envelope_is_read(
    b: &mut ReceivedBytes,
    e: std::result::Result<DeviceEvent, DeviceReadError>,
    ty: u8,
    payload: Seq<u8>,
    tail: Seq<u8>,
)
    requires
        old(b).valid(),
        ty > 4,
        payload.len() <= 262_139,
        old(b)@.rest == envelope_bytes(ty, payload) + tail,
        call_ensures(ReceivedBytes::read_next_event, (b,), e),
    ensures
        final(b)@.rest == tail,
        e matches Ok(v) && v@ == (EventView::UnknownEnvelope { msg_type: ty, payload }),
{
    lemma_unknown_event_round_trip(ty, payload, tail);
    let u = envelope_bytes(ty, payload);
    assert(u.len() == 5 + payload.len());
    assert((u + tail).skip(u.len() as int) =~= tail);
}

/// An output report is read as it was written by either reader; the bytes behind it are
/// left.
pub proof fn lemma_written_report_is_read(
    b: &mut ReceivedBytes,
    e: std::result::Result<DeviceEvent, DeviceReadError>,
    m: std::result::Result<DeviceMessage, DeviceReadError>,
    id: u16,
    data: Seq<u8>,
    tail: Seq<u8>,
)
    requires
        old(b).valid(),
        data.len() <= u16::MAX,
        old(b)@.rest == uhid_output_bytes(id, data) + tail,
    ensures
        call_ensures(ReceivedBytes::read_next_event, (b,), e) ==> final(b)@.rest == tail && (
        e matches Ok(v) && v@ == (EventView::UhidOutput { id, data })),
        call_ensures(ReceivedBytes::read_next, (b,), m) ==> final(b)@.rest == tail && (
        m matches Ok(v) && v@ == (EventView::UhidOutput { id, data })),
{
    lemma_uhid_output_round_trip(id, data, tail, true);
    lemma_uhid_output_round_trip(id, data, tail, false);
    let o = uhid_output_bytes(id, data);
    assert(o.len() == 5 + data.len());
    assert((o + tail).skip(o.len() as int) =~= tail);
}

} // verus!
