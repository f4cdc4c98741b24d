//! Control messages, their wire form, and scanning of a control stream.
use vstd::prelude::*;
use vstd::utf8::encode_utf8;

use crate::error::{Error, Result};
use crate::types::HID_MAX_SIZE;
use crate::wire::{
    be16, be32, be64, lemma_be16_round_trip, lemma_be32_round_trip, lemma_bytes_weigh_by_place,
    push_be16, push_be32, push_be64, read_u16, read_u32, u16_at, u32_at,
};

verus! {

pub const TAG_BACK_OR_SCREEN_ON: u8 = 4;

pub const TAG_SET_CLIPBOARD: u8 = 9;

pub const TAG_SET_DISPLAY_POWER: u8 = 10;

pub const TAG_UHID_CREATE: u8 = 12;

pub const TAG_UHID_INPUT: u8 = 13;

pub const TAG_UHID_DESTROY: u8 = 14;

pub const TAG_START_APP: u8 = 16;

pub const TAG_AI_CONFIG: u8 = 22;

pub const TAG_AI_QUERY: u8 = 23;

pub const TAG_AI_PAUSE: u8 = 24;

/// Longest string that a one-byte length can frame.
pub const TINY_TEXT_MAX: usize = 255;

/// Longest report descriptor that a two-byte length can frame.
pub const REPORT_DESC_MAX: usize = 65535;

/// Longest clipboard text that fits a control message of 256 KiB.
pub const CLIPBOARD_TEXT_MAX: usize = 262130;

/// Creation of a virtual HID device.
#[derive(Debug)]
pub struct UhidCreate {
    pub id: u16,
    pub vendor_id: u16,
    pub product_id: u16,
    pub name: String,
    pub report_desc: Vec<u8>,
}

/// One input report of a virtual HID device; the first `size` bytes count.
#[derive(Debug, Clone, Copy)]
pub struct UhidInput {
    pub id: u16,
    pub size: u16,
    pub data: [u8; HID_MAX_SIZE],
}

/// Removal of a virtual HID device.
#[derive(Debug, Clone, Copy)]
pub struct UhidDestroy {
    pub id: u16,
}

#[derive(Debug, Clone, Copy)]
pub struct BackOrScreenOn {
    pub action: u8,
}

#[derive(Debug, Clone, Copy)]
pub struct SetDisplayPower {
    pub on: bool,
}

#[derive(Debug)]
pub struct StartApp {
    pub name: String,
}

#[derive(Debug)]
pub struct SetClipboard {
    pub sequence: u64,
    pub paste: bool,
    pub text: String,
}

#[derive(Debug, Clone, Copy)]
pub struct AiConfig {
    pub flags: u8,
    pub sample_interval_ms: u16,
    pub feature_dim: u16,
}

#[derive(Debug, Clone, Copy)]
pub struct AiQuery {
    pub since_timestamp_ms: u64,
}

/// A message to the device.
#[derive(Debug)]
pub enum ControlMessage {
    UhidCreate(UhidCreate),
    UhidInput(UhidInput),
    UhidDestroy(UhidDestroy),
    BackOrScreenOn(BackOrScreenOn),
    SetDisplayPower(SetDisplayPower),
    StartApp(StartApp),
    SetClipboard(SetClipboard),
    AiConfig(AiConfig),
    AiQuery(AiQuery),
    AiPause,
}

/// A flag as a wire byte.
pub open spec fn flag_byte(on: bool) -> u8 {
    if on {
        1
    } else {
        0
    }
}

/// The wire form of an input report.
pub open spec fn uhid_input_bytes(id: u16, size: int, data: Seq<u8>) -> Seq<u8> {
    seq![TAG_UHID_INPUT] + be16(id) + be16(size as u16) + data.take(size)
}

impl ControlMessage {
    /// Whether the message must reach the device by itself and in order: device
    /// creation and removal.
    pub open spec fn critical(&self) -> bool {
        self is UhidCreate || self is UhidDestroy
    }

    /// The variable part's size and the largest that its length field or report
    /// slot can frame.
    pub open spec fn body_and_limit(&self) -> (nat, nat) {
        match self {
            ControlMessage::UhidCreate(m) => if encode_utf8(m.name@).len() > TINY_TEXT_MAX {
                (encode_utf8(m.name@).len(), TINY_TEXT_MAX as nat)
            } else {
                (m.report_desc@.len(), REPORT_DESC_MAX as nat)
            },
            ControlMessage::UhidInput(m) => (m.size as nat, HID_MAX_SIZE as nat),
            ControlMessage::StartApp(m) => (encode_utf8(m.name@).len(), TINY_TEXT_MAX as nat),
            ControlMessage::SetClipboard(m) => (
                encode_utf8(m.text@).len(),
                CLIPBOARD_TEXT_MAX as nat,
            ),
            _ => (0, 0),
        }
    }

    /// Whether the message has a wire form.
    pub open spec fn encodable(&self) -> bool {
        self.body_and_limit().0 <= self.body_and_limit().1
    }

    /// The error of a message without a wire form.
    pub open spec fn too_large(&self) -> Error {
        let (size, max) = self.body_and_limit();
        if self is UhidInput {
            Error::ControlMessageTooLarge { size: size as usize, max: (max + 5) as usize }
        } else {
            Error::ControlMessageTooLarge { size: size as usize, max: max as usize }
        }
    }

    /// The wire form.
    pub open spec fn bytes(&self) -> Seq<u8> {
        match self {
            ControlMessage::UhidCreate(m) => seq![TAG_UHID_CREATE] + be16(m.id) + be16(m.vendor_id)
                + be16(m.product_id) + seq![encode_utf8(m.name@).len() as u8] + encode_utf8(m.name@)
                + be16(m.report_desc@.len() as u16) + m.report_desc@,
            ControlMessage::UhidInput(m) => uhid_input_bytes(m.id, m.size as int, m.data@),
            ControlMessage::UhidDestroy(m) => seq![TAG_UHID_DESTROY] + be16(m.id),
            ControlMessage::BackOrScreenOn(m) => seq![TAG_BACK_OR_SCREEN_ON, m.action],
            ControlMessage::SetDisplayPower(m) => seq![TAG_SET_DISPLAY_POWER, flag_byte(m.on)],
            ControlMessage::StartApp(m) => seq![
                TAG_START_APP,
                encode_utf8(m.name@).len() as u8,
            ] + encode_utf8(m.name@),
            ControlMessage::SetClipboard(m) => seq![TAG_SET_CLIPBOARD] + be64(m.sequence) + seq![
                flag_byte(m.paste),
            ] + be32(encode_utf8(m.text@).len() as u32) + encode_utf8(m.text@),
            ControlMessage::AiConfig(m) => seq![TAG_AI_CONFIG, m.flags] + be16(m.sample_interval_ms)
                + be16(m.feature_dim),
            ControlMessage::AiQuery(m) => seq![TAG_AI_QUERY] + be64(m.since_timestamp_ms),
            ControlMessage::AiPause => seq![TAG_AI_PAUSE],
        }
    }

    /// Whether the message must reach the device by itself and in order.
    pub fn is_critical(&self) -> (r: bool)
        ensures
            r == self.critical(),
    {
        match self {
            ControlMessage::UhidCreate(_) => true,
            ControlMessage::UhidDestroy(_) => true,
            _ => false,
        }
    }

    /// Appends the wire form to `out`; a message without one leaves `out` alone.
    pub fn serialize_into(&self, out: &mut Vec<u8>) -> (r: Result<()>)
        ensures
            self.encodable() ==> r is Ok && final(out)@ == old(out)@ + self.bytes(),
            !self.encodable() ==> r == Err::<(), Error>(
                self.too_large()
            ) && final(out)@ == old(out)@,
    {
        let ghost start = out@;
        match self {
            ControlMessage::UhidCreate(m) => {
                let name: Vec<u8> = m.name.as_str().as_bytes_vec();
                if name.len() > TINY_TEXT_MAX {
                    return Err(
                        Error::ControlMessageTooLarge { size: name.len(), max: TINY_TEXT_MAX },
                    );
                }
                if m.report_desc.len() > REPORT_DESC_MAX {
                    return Err(
                        Error::ControlMessageTooLarge {
                            size: m.report_desc.len(),
                            max: REPORT_DESC_MAX,
                        },
                    );
                }
                out.push(TAG_UHID_CREATE);
                push_be16(out, m.id);
                push_be16(out, m.vendor_id);
                push_be16(out, m.product_id);
                out.push(name.len() as u8);
                out.extend_from_slice(name.as_slice());
                push_be16(out, m.report_desc.len() as u16);
                out.extend_from_slice(m.report_desc.as_slice());
                assert(out@ =~= start + self.bytes());
            },
            ControlMessage::UhidInput(m) => {
                return push_uhid_input_to_buf(out, m.id, m.size as usize, m.data.as_slice());
            },
            ControlMessage::UhidDestroy(m) => {
                out.push(TAG_UHID_DESTROY);
                push_be16(out, m.id);
                assert(out@ =~= start + self.bytes());
            },
            ControlMessage::BackOrScreenOn(m) => {
                out.push(TAG_BACK_OR_SCREEN_ON);
                out.push(m.action);
                assert(out@ =~= start + self.bytes());
            },
            ControlMessage::SetDisplayPower(m) => {
                out.push(TAG_SET_DISPLAY_POWER);
                out.push(if m.on { 1 } else { 0 });
                assert(out@ =~= start + self.bytes());
            },
            ControlMessage::StartApp(m) => {
                let name: Vec<u8> = m.name.as_str().as_bytes_vec();
                if name.len() > TINY_TEXT_MAX {
                    return Err(
                        Error::ControlMessageTooLarge { size: name.len(), max: TINY_TEXT_MAX },
                    );
                }
                out.push(TAG_START_APP);
                out.push(name.len() as u8);
                out.extend_from_slice(name.as_slice());
                assert(out@ =~= start + self.bytes());
            },
            ControlMessage::SetClipboard(m) => {
                let text: Vec<u8> = m.text.as_str().as_bytes_vec();
                if text.len() > CLIPBOARD_TEXT_MAX {
                    return Err(
                        Error::ControlMessageTooLarge {
                            size: text.len(),
                            max: CLIPBOARD_TEXT_MAX,
                        },
                    );
                }
                out.push(TAG_SET_CLIPBOARD);
                push_be64(out, m.sequence);
                out.push(if m.paste { 1 } else { 0 });
                push_be32(out, text.len() as u32);
                out.extend_from_slice(text.as_slice());
                assert(out@ =~= start + self.bytes());
            },
            ControlMessage::AiConfig(m) => {
                out.push(TAG_AI_CONFIG);
                out.push(m.flags);
                push_be16(out, m.sample_interval_ms);
                push_be16(out, m.feature_dim);
                assert(out@ =~= start + self.bytes());
            },
            ControlMessage::AiQuery(m) => {
                out.push(TAG_AI_QUERY);
                push_be64(out, m.since_timestamp_ms);
                assert(out@ =~= start + self.bytes());
            },
            ControlMessage::AiPause => {
                out.push(TAG_AI_PAUSE);
                assert(out@ =~= start + self.bytes());
            },
        }
        Ok(())
    }
}

/// Appends an input report of `size` bytes of `data`. A report longer than its
/// slot or than its data is refused, and `buf` stays as it was.
pub fn push_uhid_input_to_buf(buf: &mut Vec<u8>, id: u16, size: usize, data: &[u8]) -> (r: Result<
    (),
>)
    ensures
        size <= HID_MAX_SIZE && size <= data@.len() ==> r is Ok && final(buf)@ == old(buf)@
            + uhid_input_bytes(id, size as int, data@),
        !(size <= HID_MAX_SIZE && size <= data@.len()) ==> r == Err::<(), Error>(
            Error::ControlMessageTooLarge { size, max: (HID_MAX_SIZE + 5) as usize },
        ) && final(buf)@ == old(buf)@,
{
    let ghost start = buf@;
    if size > HID_MAX_SIZE || size > data.len() {
        return Err(Error::ControlMessageTooLarge { size, max: HID_MAX_SIZE + 5 });
    }
    buf.push(TAG_UHID_INPUT);
    push_be16(buf, id);
    push_be16(buf, size as u16);
    buf.extend_from_slice(&data[0..size]);
    assert(buf@ =~= start + uhid_input_bytes(id, size as int, data@));
    Ok(())
}

/// The length that the message at `i` declares, where enough of it is there to
/// tell.
pub open spec fn declared_len(s: Seq<u8>, i: int) -> Option<nat> {
    let have = s.len() - i;
    match s[i] {
        0 => Some(14),
        1 => if have < 5 { None } else { Some((5 + u32_at(s, i + 1)) as nat) },
        2 => Some(32),
        3 => Some(21),
        4 => Some(2),
        5 => Some(1),
        6 => Some(1),
        7 => Some(1),
        8 => Some(2),
        9 => if have < 14 { None } else { Some((14 + u32_at(s, i + 10)) as nat) },
        10 => Some(2),
        11 => Some(1),
        12 => if have < 8 || have < 10 + s[i + 7] {
            None
        } else {
            Some((10 + s[i + 7] + u16_at(s, i + 8 + s[i + 7])) as nat)
        },
        13 => if have < 5 { None } else { Some((5 + u16_at(s, i + 3)) as nat) },
        14 => Some(3),
        15 => Some(1),
        16 => if have < 2 { None } else { Some((2 + s[i + 1]) as nat) },
        17 => Some(1),
        18 => Some(2),
        19 => Some(1),
        20 => Some(1),
        21 => Some(5),
        22 => Some(6),
        23 => Some(9),
        24 => Some(1),
        _ => None,
    }
}

/// The length of the whole message at `i`, if one starts there and is complete.
pub open spec fn message_len_at(s: Seq<u8>, i: int) -> Option<nat> {
    if !(0 <= i < s.len()) {
        None
    } else {
        match declared_len(s, i) {
            Some(n) => if i + n <= s.len() { Some(n) } else { None },
            None => None,
        }
    }
}

/// The length of the complete control message at `i`.
pub fn control_message_len_at(buf: &[u8], i: usize) -> (r: Option<usize>)
    ensures
        match r {
            Some(n) => message_len_at(buf@, i as int) == Some(n as nat) && n > 0,
            None => message_len_at(buf@, i as int) is None,
        },
{
    if i >= buf.len() {
        return None;
    }
    let have: usize = buf.len() - i;
    let len: u64 = match buf[i] {
        0 => 14,
        1 => {
            if have < 5 {
                return None;
            }
            5 + read_u32(buf, i + 1) as u64
        },
        2 => 32,
        3 => 21,
        4 => 2,
        5 | 6 | 7 | 11 | 15 | 17 | 19 | 20 => 1,
        18 => 2,
        8 => 2,
        9 => {
            if have < 14 {
                return None;
            }
            14 + read_u32(buf, i + 10) as u64
        },
        10 => 2,
        12 => {
            if have < 8 {
                return None;
            }
            let name_len: usize = buf[i + 7] as usize;
            if have < 10 + name_len {
                return None;
            }
            10 + name_len as u64 + read_u16(buf, i + 8 + name_len) as u64
        },
        13 => {
            if have < 5 {
                return None;
            }
            5 + read_u16(buf, i + 3) as u64
        },
        14 => 3,
        16 => {
            if have < 2 {
                return None;
            }
            2 + buf[i + 1] as u64
        },
        21 => 5,
        22 => 6,
        23 => 9,
        24 => 1,
        _ => {
            return None;
        },
    };
    if len <= have as u64 {
        Some(len as usize)
    } else {
        None
    }
}

/// The tags of the complete messages from `i` on.
pub open spec fn tags_from(s: Seq<u8>, i: int) -> Seq<u8>
    decreases s.len() - i,
{
    match message_len_at(s, i) {
        Some(n) => if n > 0 { seq![s[i]] + tags_from(s, i + n) } else { Seq::empty() },
        None => Seq::empty(),
    }
}

/// The tags of the messages in a control stream, up to the first that is
/// incomplete or unknown.
pub fn control_message_tags(buf: &[u8]) -> (tags: Vec<u8>)
    ensures
        tags@ == tags_from(buf@, 0),
{
    let mut i: usize = 0;
    let mut tags: Vec<u8> = Vec::new();
    while i < buf.len()
        invariant
            i <= buf@.len(),
            tags@ + tags_from(buf@, i as int) == tags_from(buf@, 0),
        decreases buf@.len() - i,
    {
        match control_message_len_at(buf, i) {
            None => {
                assert(tags@ + Seq::<u8>::empty() =~= tags@);
                return tags;
            },
            Some(len) => {
                let ghost before = tags@;
                tags.push(buf[i]);
                assert(before + (seq![buf@[i as int]] + tags_from(buf@, i + len)) =~= tags@
                    + tags_from(buf@, i + len));
                i = i + len;
            },
        }
    }
    assert(tags@ + Seq::<u8>::empty() =~= tags@);
    tags
}

/// How many of the tags equal `tag`.
pub open spec fn occurrences(tags: Seq<u8>, tag: u8) -> nat
    decreases tags.len(),
{
    if tags.len() == 0 {
        0
    } else {
        occurrences(tags.drop_last(), tag) + if tags.last() == tag { 1nat } else { 0nat }
    }
}

/// How many messages with `tag` the stream holds before it breaks off.
pub fn count_control_messages(buf: &[u8], tag: u8) -> (n: usize)
    ensures
        n == occurrences(tags_from(buf@, 0), tag),
{
    let tags: Vec<u8> = control_message_tags(buf);
    let mut n: usize = 0;
    let mut i: usize = 0;
    while i < tags.len()
        invariant
            i <= tags@.len(),
            n <= i,
            n == occurrences(tags@.take(i as int), tag),
        decreases tags@.len() - i,
    {
        assert(tags@.take(i + 1).drop_last() =~= tags@.take(i as int));
        if tags[i] == tag {
            n = n + 1;
        }
        i = i + 1;
    }
    assert(tags@.take(i as int) =~= tags@);
    n
}

/// Where the first complete message with `tag` lies, from `i` on.
pub open spec fn found_from(s: Seq<u8>, i: int, tag: u8) -> Option<(int, int)>
    decreases s.len() - i,
{
    match message_len_at(s, i) {
        Some(n) => if n == 0 {
            None
        } else if s[i] == tag {
            Some((i, i + n))
        } else {
            found_from(s, i + n, tag)
        },
        None => None,
    }
}

/// The first message with `tag`, if the stream reaches one.
pub fn find_control_message(buf: &[u8], tag: u8) -> (r: Option<Vec<u8>>)
    ensures
        match found_from(buf@, 0, tag) {
            Some((from, to)) => r matches Some(m) && m@ == buf@.subrange(from, to),
            None => r is None,
        },
{
    let mut i: usize = 0;
    while i < buf.len()
        invariant
            i <= buf@.len(),
            found_from(buf@, i as int, tag) == found_from(buf@, 0, tag),
        decreases buf@.len() - i,
    {
        match control_message_len_at(buf, i) {
            None => {
                return None;
            },
            Some(len) => {
                if buf[i] == tag {
                    let mut m: Vec<u8> = Vec::new();
                    m.extend_from_slice(&buf[i..i + len]);
                    return Some(m);
                }
                i = i + len;
            },
        }
    }
    None
}

/// Input reports from `i` on in a stream of device creations, removals and
/// input reports; anything else ends the count. A report whose header is there
/// counts even where its data is cut off.
pub open spec fn uhid_inputs_from(s: Seq<u8>, i: int) -> nat
    decreases
            if 0 <= i < s.len() {
                s.len() - i
            } else {
                0
            },
{
    if !(0 <= i < s.len()) {
        0
    } else if s[i] == TAG_UHID_CREATE || s[i] == TAG_UHID_INPUT || s[i] == TAG_UHID_DESTROY {
        match declared_len(s, i) {
            Some(n) => if n == 0 {
                0
            } else {
                uhid_inputs_from(s, i + n) + if s[i] == TAG_UHID_INPUT { 1nat } else { 0nat }
            },
            None => 0,
        }
    } else {
        0
    }
}

/// Counts input reports in a stream of virtual-device messages.
pub fn count_uhid_inputs(buf: &[u8]) -> (n: usize)
    ensures
        n == uhid_inputs_from(buf@, 0),
{
    let mut i: usize = 0;
    let mut n: usize = 0;
    while i < buf.len()
        invariant
            0 <= i,
            n <= i,
            i <= buf@.len(),
            n + uhid_inputs_from(buf@, i as int) == uhid_inputs_from(buf@, 0),
        decreases buf@.len() - i,
    {
        let have: usize = buf.len() - i;
        let mut step: usize = 3;
        let mut input = false;
        if buf[i] == TAG_UHID_CREATE {
            if have < 8 {
                return n;
            }
            let name_len: usize = buf[i + 7] as usize;
            if have < 10 + name_len {
                return n;
            }
            step = 10 + name_len + read_u16(buf, i + 8 + name_len) as usize;
        } else if buf[i] == TAG_UHID_INPUT {
            if have < 5 {
                return n;
            }
            step = 5 + read_u16(buf, i + 3) as usize;
            input = true;
        } else if buf[i] != TAG_UHID_DESTROY {
            return n;
        }
        if input {
            n = n + 1;
        }
        if step >= have {
            assert(uhid_inputs_from(buf@, i + step) == 0);
            return n;
        }
        i = i + step;
    }
    n
}

proof fn lemma_scan_create(c: UhidCreate, s: Seq<u8>, i: int)
    requires
        0 <= i,
        encode_utf8(c.name@).len() <= TINY_TEXT_MAX,
        c.report_desc@.len() <= REPORT_DESC_MAX,
        i + ControlMessage::UhidCreate(c).bytes().len() <= s.len(),
        s.subrange(i, i + ControlMessage::UhidCreate(c).bytes().len())
            == ControlMessage::UhidCreate(c).bytes(),
    ensures
        message_len_at(s, i) == Some(ControlMessage::UhidCreate(c).bytes().len()),
{
    let b = ControlMessage::UhidCreate(c).bytes();
    let name = encode_utf8(c.name@);
    let rd = c.report_desc@;
    let t = s.subrange(i, i + b.len());
    assert(b.len() == 10 + name.len() + rd.len());
    assert(t[0] == TAG_UHID_CREATE);
    assert(t[7] == name.len() as u8);
    assert(s[i] == t[0]);
    assert(s[i + 7] == t[7]);
    let at = i + 8 + name.len();
    assert(s.subrange(at, at + 2) =~= t.subrange(8 + name.len() as int, 10 + name.len() as int));
    assert(b.subrange(8 + name.len() as int, 10 + name.len() as int) =~= be16(rd.len() as u16));
    lemma_be16_round_trip(rd.len() as u16, s, at);
}

proof fn lemma_scan_input(c: UhidInput, s: Seq<u8>, i: int)
    requires
        0 <= i,
        c.size <= HID_MAX_SIZE,
        i + ControlMessage::UhidInput(c).bytes().len() <= s.len(),
        s.subrange(i, i + ControlMessage::UhidInput(c).bytes().len())
            == ControlMessage::UhidInput(c).bytes(),
    ensures
        message_len_at(s, i) == Some(ControlMessage::UhidInput(c).bytes().len()),
{
    let b = ControlMessage::UhidInput(c).bytes();
    let t = s.subrange(i, i + b.len());
    assert(b.len() == 5 + c.size);
    assert(t[0] == TAG_UHID_INPUT);
    assert(s[i] == t[0]);
    assert(s.subrange(i + 3, i + 5) =~= t.subrange(3, 5));
    assert(b.subrange(3, 5) =~= be16(c.size));
    lemma_be16_round_trip(c.size, s, i + 3);
}

proof fn lemma_scan_clipboard(c: SetClipboard, s: Seq<u8>, i: int)
    requires
        0 <= i,
        encode_utf8(c.text@).len() <= CLIPBOARD_TEXT_MAX,
        i + ControlMessage::SetClipboard(c).bytes().len() <= s.len(),
        s.subrange(i, i + ControlMessage::SetClipboard(c).bytes().len())
            == ControlMessage::SetClipboard(c).bytes(),
    ensures
        message_len_at(s, i) == Some(ControlMessage::SetClipboard(c).bytes().len()),
{
    let b = ControlMessage::SetClipboard(c).bytes();
    let n = encode_utf8(c.text@).len() as u32;
    let t = s.subrange(i, i + b.len());
    assert(b.len() == 14 + n);
    assert(t[0] == TAG_SET_CLIPBOARD);
    assert(s[i] == t[0]);
    assert(s.subrange(i + 10, i + 14) =~= t.subrange(10, 14));
    assert(b.subrange(10, 14) =~= be32(n));
    lemma_be32_round_trip(n, s, i + 10);
}

/// A message that has a wire form is found whole wherever it stands in a
/// stream: the scanner sees its exact length and its tag.
pub proof fn lemma_scan_finds_message(m: ControlMessage, pre: Seq<u8>, post: Seq<u8>)
    requires
        m.encodable(),
    ensures
        message_len_at(pre + m.bytes() + post, pre.len() as int) == Some(m.bytes().len()),
        (pre + m.bytes() + post)[pre.len() as int] == m.bytes()[0],
        m.bytes().len() > 0,
{
    let b = m.bytes();
    let s = pre + b + post;
    let i = pre.len() as int;
    assert(b.len() > 0);
    assert(s[i] == b[0]);
    assert(s.subrange(i, i + b.len()) =~= b);
    match m {
        ControlMessage::UhidCreate(c) => lemma_scan_create(c, s, i),
        ControlMessage::UhidInput(c) => lemma_scan_input(c, s, i),
        ControlMessage::SetClipboard(c) => lemma_scan_clipboard(c, s, i),
        ControlMessage::StartApp(c) => {
            assert(s[i + 1] == b[1]);
        },
        _ => {},
    }
}

/// The concatenated wire forms of messages.
pub open spec fn stream(ms: Seq<ControlMessage>) -> Seq<u8>
    decreases ms.len(),
{
    if ms.len() == 0 {
        Seq::empty()
    } else {
        ms[0].bytes() + stream(ms.drop_first())
    }
}

/// Scanning a stream of messages gives back their tags, in order and none
/// missing.
pub proof fn lemma_scan_recovers_tags(ms: Seq<ControlMessage>, pre: Seq<u8>)
    requires
        forall|k: int| 0 <= k < ms.len() ==> (#[trigger] ms[k]).encodable(),
    ensures
        tags_from(pre + stream(ms), pre.len() as int) == ms.map_values(
            |m: ControlMessage| m.bytes()[0],
        ),
    decreases ms.len(),
{
    let f = |m: ControlMessage| m.bytes()[0];
    if ms.len() == 0 {
        assert(pre + stream(ms) =~= pre);
        assert(ms.map_values(f) =~= Seq::<u8>::empty());
    } else {
        let rest = stream(ms.drop_first());
        let b = ms[0].bytes();
        lemma_scan_finds_message(ms[0], pre, rest);
        assert(pre + stream(ms) =~= pre + b + rest);
        assert forall|k: int| 0 <= k < ms.drop_first().len() implies (
        #[trigger] ms.drop_first()[k]).encodable() by {
            assert(ms.drop_first()[k] == ms[k + 1]);
        }
        lemma_scan_recovers_tags(ms.drop_first(), pre + b);
        assert(ms.map_values(f) =~= seq![f(ms[0])] + ms.drop_first().map_values(f));
    }
}

/// What stands where in a message: its tag first, then its fields at their places,
/// numbers most significant byte first, and texts and lists behind their lengths.
pub proof fn lemma_message_reads_back(m: ControlMessage)
    requires
        m.encodable(),
    ensures
        ({
            let b = m.bytes();
            match m {
                ControlMessage::UhidCreate(c) => {
                    let n = encode_utf8(c.name@).len() as int;
                    &&& b[0] == 12
                    &&& b[1] * 256 + b[2] == c.id
                    &&& b[3] * 256 + b[4] == c.vendor_id
                    &&& b[5] * 256 + b[6] == c.product_id
                    &&& b[7] == n
                    &&& b.subrange(8, 8 + n) == encode_utf8(c.name@)
                    &&& b[8 + n] * 256 + b[9 + n] == c.report_desc@.len()
                    &&& b.skip(10 + n) == c.report_desc@
                },
                ControlMessage::UhidInput(i) => {
                    &&& b[0] == 13
                    &&& b[1] * 256 + b[2] == i.id
                    &&& b[3] * 256 + b[4] == i.size
                    &&& b.len() == 5 + i.size
                    &&& forall|k: int| 0 <= k < i.size ==> #[trigger] b[5 + k] == i.data@[k]
                },
                ControlMessage::UhidDestroy(d) => {
                    &&& b[0] == 14
                    &&& b[1] * 256 + b[2] == d.id
                    &&& b.len() == 3
                },
                ControlMessage::BackOrScreenOn(k) => b.len() == 2 && b[0] == 4 && b[1] == k.action,
                ControlMessage::SetDisplayPower(p) => {
                    &&& b.len() == 2
                    &&& b[0] == 10
                    &&& p.on ==> b[1] == 1
                    &&& !p.on ==> b[1] == 0
                },
                ControlMessage::StartApp(a) => {
                    &&& b[0] == 16
                    &&& b[1] == encode_utf8(a.name@).len()
                    &&& b.skip(2) == encode_utf8(a.name@)
                },
                ControlMessage::SetClipboard(c) => {
                    &&& b[0] == 9
                    &&& (((b[1] * 256 + b[2]) * 256 + b[3]) * 256 + b[4]) * 0x1_0000_0000 + ((b[5]
                        * 256 + b[6]) * 256 + b[7]) * 256 + b[8] == c.sequence
                    &&& c.paste ==> b[9] == 1
                    &&& !c.paste ==> b[9] == 0
                    &&& ((b[10] * 256 + b[11]) * 256 + b[12]) * 256 + b[13] == encode_utf8(
                        c.text@,
                    ).len()
                    &&& b.skip(14) == encode_utf8(c.text@)
                },
                ControlMessage::AiConfig(a) => {
                    &&& b.len() == 6
                    &&& b[0] == 22
                    &&& b[1] == a.flags
                    &&& b[2] * 256 + b[3] == a.sample_interval_ms
                    &&& b[4] * 256 + b[5] == a.feature_dim
                },
                ControlMessage::AiQuery(q) => {
                    &&& b.len() == 9
                    &&& b[0] == 23
                    &&& (((b[1] * 256 + b[2]) * 256 + b[3]) * 256 + b[4]) * 0x1_0000_0000 + ((b[5]
                        * 256 + b[6]) * 256 + b[7]) * 256 + b[8] == q.since_timestamp_ms
                },
                ControlMessage::AiPause => b.len() == 1 && b[0] == 24,
            }
        }),
{
    let b = m.bytes();
    match m {
        ControlMessage::UhidCreate(c) => {
            let name = encode_utf8(c.name@);
            let n = name.len() as int;
            lemma_bytes_weigh_by_place(c.id, 0, 0);
            lemma_bytes_weigh_by_place(c.vendor_id, 0, 0);
            lemma_bytes_weigh_by_place(c.product_id, 0, 0);
            lemma_bytes_weigh_by_place(c.report_desc@.len() as u16, 0, 0);
            assert(b[8 + n] == be16(c.report_desc@.len() as u16)[0]);
            assert(b[9 + n] == be16(c.report_desc@.len() as u16)[1]);
            assert(b.subrange(8, 8 + n) =~= name);
            assert(b.skip(10 + n) =~= c.report_desc@);
        },
        ControlMessage::UhidInput(i) => {
            lemma_bytes_weigh_by_place(i.id, 0, 0);
            lemma_bytes_weigh_by_place(i.size, 0, 0);
        },
        ControlMessage::UhidDestroy(d) => {
            lemma_bytes_weigh_by_place(d.id, 0, 0);
        },
        ControlMessage::StartApp(a) => {
            assert(b.skip(2) =~= encode_utf8(a.name@));
        },
        ControlMessage::SetClipboard(c) => {
            let n = encode_utf8(c.text@).len() as u32;
            lemma_bytes_weigh_by_place(0, n, c.sequence);
            assert(b[1] == be64(c.sequence)[0] && b[2] == be64(c.sequence)[1]);
            assert(b[3] == be64(c.sequence)[2] && b[4] == be64(c.sequence)[3]);
            assert(b[5] == be64(c.sequence)[4] && b[6] == be64(c.sequence)[5]);
            assert(b[7] == be64(c.sequence)[6] && b[8] == be64(c.sequence)[7]);
            assert(b[10] == be32(n)[0] && b[11] == be32(n)[1]);
            assert(b[12] == be32(n)[2] && b[13] == be32(n)[3]);
            assert(b.skip(14) =~= encode_utf8(c.text@));
        },
        ControlMessage::AiConfig(a) => {
            lemma_bytes_weigh_by_place(a.sample_interval_ms, 0, 0);
            lemma_bytes_weigh_by_place(a.feature_dim, 0, 0);
        },
        ControlMessage::AiQuery(q) => {
            let t = be64(q.since_timestamp_ms);
            lemma_bytes_weigh_by_place(0, 0, q.since_timestamp_ms);
            assert(b[1] == t[0] && b[2] == t[1] && b[3] == t[2] && b[4] == t[3]);
            assert(b[5] == t[4] && b[6] == t[5] && b[7] == t[6] && b[8] == t[7]);
        },
        _ => {},
    }
}

/// The messages that may not wait are those that make or remove a device, tags 12
/// and 14.
pub proof fn lemma_critical_by_tag(m: ControlMessage)
    ensures
        m.critical() <==> m.bytes()[0] == 12 || m.bytes()[0] == 14,
{
}

/// A message has a wire form exactly where its length fields can hold its lengths:
/// a byte for names, two bytes for a report descriptor, the report slot for an
/// input, and 256 KiB in all for a clipboard. A refusal names the length that does
/// not fit.
pub proof fn lemma_encodable_by_lengths(m: ControlMessage)
    ensures
        match m {
            ControlMessage::UhidCreate(c) => {
                &&& m.encodable() <==> encode_utf8(c.name@).len() < 256 && c.report_desc@.len()
                    < 65536
                &&& encode_utf8(c.name@).len() >= 256 ==> m.too_large()
                    == (Error::ControlMessageTooLarge {
                    size: encode_utf8(c.name@).len() as usize,
                    max: 255,
                })
            },
            ControlMessage::UhidInput(i) => {
                &&& m.encodable() <==> i.size <= i.data@.len()
                &&& m.too_large() == (Error::ControlMessageTooLarge {
                    size: i.size as usize,
                    max: (i.data@.len() + 5) as usize,
                })
            },
            ControlMessage::StartApp(a) => {
                &&& m.encodable() <==> encode_utf8(a.name@).len() < 256
                &&& m.too_large() == (Error::ControlMessageTooLarge {
                    size: encode_utf8(a.name@).len() as usize,
                    max: 255,
                })
            },
            ControlMessage::SetClipboard(c) => {
                &&& m.encodable() <==> encode_utf8(c.text@).len() + 14 <= 256 * 1024
                &&& m.encodable() ==> m.bytes().len() <= 256 * 1024
            },
            _ => m.encodable(),
        },
{
}

/// The length of a message without a length field is the sum of its fields.
pub proof fn lemma_fixed_lengths(s: Seq<u8>, i: int)
    requires
        0 <= i < s.len(),
    ensures
        // Key: action, code, repeat, modifiers.
        s[i] == 0 ==> declared_len(s, i) == Some((1 + 1 + 4 + 4 + 4) as nat),
        // Touch: action, pointer, position and screen, pressure, two button masks.
        s[i] == 2 ==> declared_len(s, i) == Some((1 + 1 + 8 + 12 + 2 + 4 + 4) as nat),
        // Scroll: position and screen, two deltas, buttons.
        s[i] == 3 ==> declared_len(s, i) == Some((1 + 12 + 2 + 2 + 4) as nat),
        // One byte of body.
        s[i] == 4 || s[i] == 8 || s[i] == 10 || s[i] == 18 ==> declared_len(s, i) == Some(
            (1 + 1) as nat,
        ),
        // A device number.
        s[i] == 14 ==> declared_len(s, i) == Some((1 + 2) as nat),
        // Two dimensions.
        s[i] == 21 ==> declared_len(s, i) == Some((1 + 2 + 2) as nat),
        // Flags, interval, dimension.
        s[i] == 22 ==> declared_len(s, i) == Some((1 + 1 + 2 + 2) as nat),
        // A time.
        s[i] == 23 ==> declared_len(s, i) == Some((1 + 8) as nat),
        // Nothing but the tag.
        5 <= s[i] <= 7 || s[i] == 11 || s[i] == 15 || s[i] == 17 || s[i] == 19 || s[i] == 20
            || s[i] == 24 ==> declared_len(s, i) == Some(1nat),
        s[i] > 24 ==> declared_len(s, i) is None,
{
}

/// Text to type stands behind its length, so a longer text moves the end of the
/// message by as much.
pub proof fn lemma_text_length_counts(s: Seq<u8>, i: int)
    requires
        0 <= i,
        i + 5 <= s.len(),
        s[i] == 1,
    ensures
        declared_len(s, i) == Some(
            (5 + ((s[i + 1] * 256 + s[i + 2]) * 256 + s[i + 3]) * 256 + s[i + 4]) as nat,
        ),
{
}

/// A scanned message never reaches past the end of the stream, and where the scan
/// stops nothing further is reported.
pub proof fn lemma_scan_stays_inside(s: Seq<u8>, i: int)
    ensures
        match message_len_at(s, i) {
            Some(n) => {
                &&& 0 <= i < s.len()
                &&& 0 < n
                &&& i + n <= s.len()
                &&& tags_from(s, i).len() == tags_from(s, i + n).len() + 1
                &&& tags_from(s, i)[0] == s[i]
                &&& tags_from(s, i).drop_first() == tags_from(s, i + n)
            },
            None => tags_from(s, i).len() == 0,
        },
{
    if let Some(n) = message_len_at(s, i) {
        assert(tags_from(s, i).drop_first() =~= tags_from(s, i + n));
    }
}

/// In a stream of messages the search for a tag gives the first message with that
/// tag, whole, or nothing where there is none.
pub proof fn lemma_search_finds_first(ms: Seq<ControlMessage>, pre: Seq<u8>, tag: u8)
    requires
        forall|k: int| 0 <= k < ms.len() ==> (#[trigger] ms[k]).encodable(),
    ensures
        match found_from(pre + stream(ms), pre.len() as int, tag) {
            Some((from, to)) => exists|k: int|
                0 <= k < ms.len() && (#[trigger] ms[k]).bytes()[0] == tag && (pre + stream(
                    ms,
                )).subrange(from, to) == ms[k].bytes() && pre.len() <= from < to <= (pre + stream(
                    ms,
                )).len() && (forall|j: int| 0 <= j < k ==> (#[trigger] ms[j]).bytes()[0] != tag),
            None => forall|j: int| 0 <= j < ms.len() ==> (#[trigger] ms[j]).bytes()[0] != tag,
        },
    decreases ms.len(),
{
    let s = pre + stream(ms);
    if ms.len() == 0 {
        assert(s =~= pre);
    } else {
        let b = ms[0].bytes();
        let tail = ms.drop_first();
        let rest = stream(tail);
        lemma_scan_finds_message(ms[0], pre, rest);
        assert(s =~= pre + b + rest);
        if b[0] == tag {
            assert(s.subrange(pre.len() as int, (pre.len() + b.len()) as int) =~= b);
            assert(ms[0].bytes()[0] == tag);
        } else {
            assert forall|k: int| 0 <= k < tail.len() implies (#[trigger] tail[k]).encodable() by {
                assert(tail[k] == ms[k + 1]);
            }
            lemma_search_finds_first(tail, pre + b, tag);
            match found_from(s, pre.len() as int, tag) {
                Some((from, to)) => {
                    let k = choose|k: int|
                        0 <= k < tail.len() && (#[trigger] tail[k]).bytes()[0] == tag && s.subrange(
                            from,
                            to,
                        ) == tail[k].bytes() && (pre + b).len() <= from < to <= s.len() && (forall|
                            j: int,
                        |
                            0 <= j < k ==> (#[trigger] tail[j]).bytes()[0] != tag);
                    assert(ms[k + 1] == tail[k]);
                    assert forall|j: int| 0 <= j < k + 1 implies (#[trigger] ms[j]).bytes()[0]
                        != tag by {
                        if j > 0 {
                            assert(tail[j - 1] == ms[j]);
                        }
                    }
                },
                None => {
                    assert forall|j: int| 0 <= j < ms.len() implies (#[trigger] ms[j]).bytes()[0]
                        != tag by {
                        if j > 0 {
                            assert(tail[j - 1] == ms[j]);
                        }
                    }
                },
            }
        }
    }
}

/// How many input messages there are among messages.
pub open spec fn input_count(ms: Seq<ControlMessage>) -> nat
    decreases ms.len(),
{
    if ms.len() == 0 {
        0
    } else {
        input_count(ms.drop_first()) + if ms[0] is UhidInput {
            1nat
        } else {
            0nat
        }
    }
}

/// In a stream of virtual-device messages each input message is counted once, and
/// nothing else.
pub proof fn lemma_inputs_are_counted(ms: Seq<ControlMessage>, pre: Seq<u8>)
    requires
        forall|k: int|
            0 <= k < ms.len() ==> (#[trigger] ms[k]).encodable() && (ms[k] is UhidCreate
                || ms[k] is UhidInput || ms[k] is UhidDestroy),
    ensures
        uhid_inputs_from(pre + stream(ms), pre.len() as int) == input_count(ms),
    decreases ms.len(),
{
    let s = pre + stream(ms);
    if ms.len() == 0 {
        assert(s =~= pre);
    } else {
        let b = ms[0].bytes();
        let tail = ms.drop_first();
        lemma_scan_finds_message(ms[0], pre, stream(tail));
        assert(s =~= pre + b + stream(tail));
        assert(ms[0].encodable());
        assert forall|k: int| 0 <= k < tail.len() implies (#[trigger] tail[k]).encodable() && (
        tail[k] is UhidCreate || tail[k] is UhidInput || tail[k] is UhidDestroy) by {
            assert(tail[k] == ms[k + 1]);
        }
        lemma_inputs_are_counted(tail, pre + b);
    }
}

/// Counting tags goes tag by tag: a list and another behind it count together, and
/// one tag counts once if it is the one asked for.
pub proof fn lemma_occurrences_add_up(a: Seq<u8>, b: Seq<u8>, tag: u8)
    ensures
        occurrences(a + b, tag) == occurrences(a, tag) + occurrences(b, tag),
        occurrences(seq![tag], tag) == 1,
        forall|t: u8| t != tag ==> #[trigger] occurrences(seq![t], tag) == 0,
        occurrences(a, tag) > 0 <==> a.contains(tag),
    decreases a.len() + b.len(),
{
    reveal_with_fuel(occurrences, 2);
    assert forall|t: u8| #[trigger] occurrences(seq![t], tag) == if t == tag {
        1nat
    } else {
        0nat
    } by {
        assert(seq![t].drop_last() =~= Seq::<u8>::empty());
    }
    if b.len() > 0 {
        lemma_occurrences_add_up(a, b.drop_last(), tag);
        assert((a + b).drop_last() =~= a + b.drop_last());
    } else {
        assert(a + b =~= a);
    }
    if a.len() > 0 {
        lemma_occurrences_add_up(a.drop_last(), Seq::empty(), tag);
        if a.contains(tag) {
            let i = choose|i: int| 0 <= i < a.len() && a[i] == tag;
            if i < a.len() - 1 {
                assert(a.drop_last()[i] == tag);
            }
        }
        if a.drop_last().contains(tag) {
            let i = choose|i: int| 0 <= i < a.len() - 1 && a.drop_last()[i] == tag;
            assert(a[i] == tag);
        }
        if a.last() == tag {
            assert(a[a.len() - 1] == tag);
        }
    }
}

/// A message goes behind what was written before, with its tag first; one without a wire
/// form is refused and nothing is written. Only what makes or ends a device is critical.
pub proof fn lemma_messages_are_appended(
    m: &ControlMessage,
    out: &mut Vec<u8>,
    r: Result<()>,
    critical: bool,
)
    ensures
        call_ensures(ControlMessage::serialize_into, (m, out), r) ==> {
            &&& r is Err ==> final(out)@ == old(out)@
            &&& r is Ok ==> {
                &&& m.encodable()
                &&& final(out)@.take(old(out)@.len() as int) == old(out)@
                &&& final(out)@.skip(old(out)@.len() as int) == m.bytes()
                &&& message_len_at(final(out)@, old(out)@.len() as int) == Some(
                    (final(out)@.len() - old(out)@.len()) as nat,
                )
            }
            &&& m.encodable() ==> r is Ok
        },
        call_ensures(ControlMessage::is_critical, (m,), critical) ==> (critical <==> m is UhidCreate
            || m is UhidDestroy),
{
    if call_ensures(ControlMessage::serialize_into, (m, out), r) && m.encodable() {
        let pre = old(out)@;
        lemma_scan_finds_message(*m, pre, Seq::empty());
        assert(pre + m.bytes() + Seq::<u8>::empty() =~= pre + m.bytes());
        assert((pre + m.bytes()).take(pre.len() as int) =~= pre);
        assert((pre + m.bytes()).skip(pre.len() as int) =~= m.bytes());
    }
}

/// An input report is appended as its tag, the device, the size and as many bytes of the
/// data; it is refused exactly if it is longer than a slot or than its data.
pub proof fn lemma_input_is_appended(
    buf: &mut Vec<u8>,
    id: u16,
    size: usize,
    data: &[u8],
    r: Result<()>,
    k: int,
)
    requires
        call_ensures(push_uhid_input_to_buf, (buf, id, size, data), r),
    ensures
        r is Ok <==> size <= 15 && size <= data@.len(),
        r is Err ==> final(buf)@ == old(buf)@,
        r is Ok ==> {
            let n = old(buf)@.len() as int;
            let s = final(buf)@;
            &&& s.len() == n + 5 + size
            &&& s.take(n) == old(buf)@
            &&& s[n] == 13
            &&& s[n + 1] * 256 + s[n + 2] == id
            &&& s[n + 3] * 256 + s[n + 4] == size
            &&& 0 <= k < size ==> s[n + 5 + k] == data@[k]
        },
{
    if r is Ok {
        let n = old(buf)@.len() as int;
        lemma_bytes_weigh_by_place(id, 0, 0);
        lemma_bytes_weigh_by_place(size as u16, 0, 0);
        let b = uhid_input_bytes(id, size as int, data@);
        let s = old(buf)@ + b;
        assert(s.take(n) =~= old(buf)@);
        assert(b[1] == be16(id)[0] && b[2] == be16(id)[1]);
        assert(b[3] == be16(size as u16)[0] && b[4] == be16(size as u16)[1]);
        if 0 <= k < size {
            assert(b[5 + k] == data@[k]);
        }
    }
}

/// Looking over a stream of messages gives back what was written: the tags in order, how
/// many there are of a tag, and the first of them whole.
pub proof fn lemma_stream_is_looked_over(
    ms: Seq<ControlMessage>,
    buf: &[u8],
    tag: u8,
    tags: Vec<u8>,
    n: usize,
    found: Option<Vec<u8>>,
    i: int,
)
    requires
        forall|k: int| 0 <= k < ms.len() ==> (#[trigger] ms[k]).encodable(),
        buf@ == stream(ms),
        call_ensures(control_message_tags, (buf,), tags),
        call_ensures(count_control_messages, (buf, tag), n),
        call_ensures(find_control_message, (buf, tag), found),
    ensures
        tags@.len() == ms.len(),
        0 <= i < ms.len() ==> tags@[i] == ms[i].bytes()[0],
        n == 0 <==> !tags@.contains(tag),
        found is None <==> n == 0,
        found is Some && 0 <= i < ms.len() && ms[i].bytes()[0] == tag && (forall|j: int|
            0 <= j < i ==> (#[trigger] ms[j]).bytes()[0] != tag) ==> found->0@ == ms[i].bytes(),
{
    let pre = Seq::<u8>::empty();
    assert(pre + stream(ms) =~= buf@);
    lemma_scan_recovers_tags(ms, pre);
    lemma_search_finds_first(ms, pre, tag);
    lemma_occurrences_add_up(tags@, Seq::empty(), tag);
    if found is None {
        if tags@.contains(tag) {
            let j = tags@.index_of(tag);
            assert(ms[j].bytes()[0] == tag);
        }
    } else {
        let (from, to) = found_from(buf@, 0, tag)->0;
        let k = choose|k: int|
            0 <= k < ms.len() && (#[trigger] ms[k]).bytes()[0] == tag && buf@.subrange(from, to)
                == ms[k].bytes() && (forall|j: int|
                0 <= j < k ==> (#[trigger] ms[j]).bytes()[0] != tag);
        assert(tags@[k] == tag);
        if 0 <= i < ms.len() && ms[i].bytes()[0] == tag && (forall|j: int|
            0 <= j < i ==> (#[trigger] ms[j]).bytes()[0] != tag) {
            if i < k {
                assert(ms[i].bytes()[0] != tag);
            }
            if k < i {
                assert(ms[k].bytes()[0] != tag);
            }
        }
    }
}

/// The length of the message that stands at a place, told of a whole one only.
pub proof fn lemma_length_is_told(buf: &[u8], i: usize, r: Option<usize>, pre: Seq<u8>, m: ControlMessage, post: Seq<u8>)
    requires
        call_ensures(control_message_len_at, (buf, i), r),
    ensures
        r matches Some(n) ==> 0 < n && i + n <= buf@.len(),
        i >= buf@.len() ==> r is None,
        m.encodable() && buf@ == pre + m.bytes() + post && i == pre.len() ==> r == Some(
            m.bytes().len() as usize,
        ),
{
    lemma_scan_stays_inside(buf@, i as int);
    if m.encodable() && buf@ == pre + m.bytes() + post && i == pre.len() {
        lemma_scan_finds_message(m, pre, post);
    }
}

/// In a stream of virtual-device messages the reports are counted; one whose header is
/// there counts, though its data is cut off.
pub proof fn lemma_reports_are_counted(ms: Seq<ControlMessage>, buf: &[u8], n: usize)
    requires
        call_ensures(count_uhid_inputs, (buf,), n),
        forall|k: int|
            0 <= k < ms.len() ==> (#[trigger] ms[k]).encodable() && (ms[k] is UhidCreate
                || ms[k] is UhidInput || ms[k] is UhidDestroy),
    ensures
        buf@ == stream(ms) ==> n == input_count(ms),
        buf@.len() >= 5 && buf@[0] == 13 ==> n >= 1,
        buf@.len() > 0 && buf@[0] != 12 && buf@[0] != 13 && buf@[0] != 14 ==> n == 0,
        buf@.len() == 0 || (buf@[0] == 13 && buf@.len() < 5) ==> n == 0,
{
    let pre = Seq::<u8>::empty();
    assert(pre + stream(ms) =~= stream(ms));
    lemma_inputs_are_counted(ms, pre);
}

} // verus!
