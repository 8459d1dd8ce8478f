//! Assembling whole messages and reading them back.

use vstd::prelude::*;

use crate::bytes::{be_u32_at, copy_range, push_all};
use crate::error::DFParseError;
use crate::header::{
    decode_header, df01_header_bytes, df01_header_of, df01_header_valid, df01_open, df02_open,
    header_size, lemma_header_decodes, meta_type_of_code, opens_with, DFBinaryHeader, MetaType,
    DF01_HEADER_LEN,
};
use crate::json::{json_accepts, json_from_slice, json_to_vec_pretty, json_value_of, pretty_json_of};

verus! {

/// A decoded message: its metadata value and its payload, absent when empty.
pub struct DFMessage<T> {
    pub meta: T,
    pub data: Option<Vec<u8>>,
}

/// The terminator written after the JSON text of a metadata block: `\r\n`.
pub open spec fn meta_ending() -> Seq<u8> {
    seq![13u8, 10u8]
}

/// The bytes of an optional payload, as a sequence.
pub open spec fn opt_bytes(d: Option<Vec<u8>>) -> Option<Seq<u8>> {
    match d {
        Some(v) => Some(v@),
        None => None,
    }
}

/// The payload bytes that follow the metadata block; none for an absent payload.
pub open spec fn payload_of(d: Option<Seq<u8>>) -> Seq<u8> {
    match d {
        Some(s) => s,
        None => Seq::empty(),
    }
}

/// Whether a metadata text and a payload fit the 32-bit lengths of a DF01 header.
pub open spec fn fits_df01(meta_json: Seq<u8>, data: Option<Seq<u8>>) -> bool {
    meta_json.len() + 2 <= u32::MAX && payload_of(data).len() <= u32::MAX
}

/// The complete DF01 message for a metadata text, a payload and a time.
pub open spec fn message_bytes(meta_json: Seq<u8>, data: Option<Seq<u8>>, time: u32) -> Seq<u8> {
    df01_header_bytes(
        (meta_json.len() + 2) as u32,
        payload_of(data).len() as u32,
        MetaType::Json,
        time,
    ) + meta_json + meta_ending() + payload_of(data)
}

/// Where the message that starts `b` ends, by the lengths its header announces.
pub open spec fn frame_end(b: Seq<u8>) -> int {
    30 + be_u32_at(b, 14) + be_u32_at(b, 22)
}

/// The metadata block of the message that starts `b`.
pub open spec fn frame_meta(b: Seq<u8>) -> Seq<u8> {
    b.subrange(30, 30 + be_u32_at(b, 14))
}

/// The payload of the message that starts `b`: absent when its length is zero.
pub open spec fn frame_data(b: Seq<u8>) -> Option<Seq<u8>> {
    if be_u32_at(b, 22) == 0 {
        None
    } else {
        Some(b.subrange(30 + be_u32_at(b, 14), frame_end(b)))
    }
}

/// Whether `b` starts with a whole, valid DF01 message.
pub open spec fn holds_frame(b: Seq<u8>) -> bool {
    df01_header_valid(b) && b.len() >= frame_end(b)
}

/// Frames a metadata text and an optional payload as one DF01 message.
/// The text is followed by `\r\n`; an empty payload is announced as none.
pub fn assemble_message(meta_json: &[u8], data: &Option<Vec<u8>>, time: u32) -> (r: Result<
    Vec<u8>,
    DFParseError,
>)
    ensures
        match r {
            Ok(buf) => fits_df01(meta_json@, opt_bytes(*data)) && buf@ == message_bytes(
                meta_json@,
                opt_bytes(*data),
                time,
            ),
            Err(DFParseError::MalformedHeader(m)) => !fits_df01(meta_json@, opt_bytes(*data))
                && m@ == "metadata or payload too long for a DF01 header"@,
            Err(_) => false,
        },
{
    let data_len: usize = match data {
        Some(d) => d.len(),
        None => 0,
    };
    if meta_json.len() > 0xffff_fffd || data_len > 0xffff_ffff {
        return Err(
            DFParseError::MalformedHeader(
                String::from_str("metadata or payload too long for a DF01 header"),
            ),
        );
    }
    let mut buf: Vec<u8> = Vec::new();
    crate::header::serialize_header(
        &mut buf,
        (meta_json.len() + 2) as u32,
        data_len as u32,
        MetaType::Json,
        time,
    );
    push_all(&mut buf, meta_json);
    let ending: [u8; 2] = [13, 10];
    push_all(&mut buf, ending.as_slice());
    assert(ending@ =~= meta_ending());
    match data {
        Some(d) => push_all(&mut buf, d.as_slice()),
        None => {},
    }
    assert(buf@ =~= message_bytes(meta_json@, opt_bytes(*data), time));
    Ok(buf)
}


/// A framed message reads back as what was framed: for any metadata text and
/// any payload that fit the header's lengths (and a payload that, if present,
/// is not empty), the bytes hold a valid DF01 header that names JSON, the
/// metadata block is the text followed by `\r\n`, the payload is the one given,
/// and the message ends where the framed bytes end, whatever follows them.
pub proof fn lemma_message_round_trip(meta_json: Seq<u8>, data: Option<Seq<u8>>, time: u32, rest: Seq<u8>)
    requires
        fits_df01(meta_json, data),
        data != Some(Seq::<u8>::empty()),
    ensures
        ({
            let b = message_bytes(meta_json, data, time) + rest;
            &&& holds_frame(b)
            &&& df01_header_of(b) == (DFBinaryHeader::DF01 {
                time,
                meta_type: MetaType::Json,
                meta_len: (meta_json.len() + 2) as usize,
                data_type: 0,
                data_len: payload_of(data).len() as usize,
            })
            &&& frame_meta(b) == meta_json + meta_ending()
            &&& frame_data(b) == data
            &&& frame_end(b) == message_bytes(meta_json, data, time).len()
        }),
{
    let ml = (meta_json.len() + 2) as u32;
    let p = payload_of(data);
    let dl = p.len() as u32;
    let h = df01_header_bytes(ml, dl, MetaType::Json, time);
    let tail = meta_json + meta_ending() + p + rest;
    let b = message_bytes(meta_json, data, time) + rest;
    assert(b =~= h + tail);
    lemma_header_decodes(ml, dl, MetaType::Json, time, tail);
    assert(frame_meta(b) =~= meta_json + meta_ending());
    if dl != 0 {
        assert(b.subrange(30 + ml, frame_end(b)) =~= p);
    } else {
        assert(p =~= Seq::<u8>::empty());
    }
}

/// A message framed without a payload announces a payload length of zero,
/// reads back with no payload, and ends right after its metadata block, so
/// no byte that follows it is taken as payload.
pub proof fn lemma_zero_payload(meta_json: Seq<u8>, time: u32, rest: Seq<u8>)
    requires
        fits_df01(meta_json, None),
    ensures
        ({
            let b = message_bytes(meta_json, None, time) + rest;
            &&& holds_frame(b)
            &&& df01_header_of(b).spec_data_len() == 0
            &&& frame_data(b) is None
            &&& frame_end(b) == 30 + meta_json.len() + 2
        }),
{
    lemma_message_round_trip(meta_json, None, time, rest);
}

/// A stream reader reads no payload before the metadata is decoded: on every
/// prefix of a framed message that stops short of the end of its metadata
/// block, the bytes received so far need more, and the next read reaches at
/// most that end.
pub proof fn lemma_reads_stay_within_head(meta_json: Seq<u8>, data: Option<Seq<u8>>, time: u32, k: int)
    requires
        fits_df01(meta_json, data),
        data != Some(Seq::<u8>::empty()),
        0 <= k < 30 + meta_json.len() + 2,
    ensures
        ({
            let m = message_bytes(meta_json, data, time);
            let p = m.subrange(0, k);
            needs_more(p) && read_target(p) <= 30 + meta_json.len() + 2
        }),
{
    let m = message_bytes(meta_json, data, time);
    let p = m.subrange(0, k);
    lemma_message_round_trip(meta_json, data, time, Seq::<u8>::empty());
    assert(m + Seq::<u8>::empty() =~= m);
    if k >= 2 {
        assert(p.subrange(0, 2) =~= m.subrange(0, 2));
        assert(m.subrange(0, 2)[1] == 33u8);
    }
    if k >= 30 {
        assert(p.subrange(26, 30) =~= m.subrange(26, 30));
        assert(forall|i: int| 0 <= i < 30 ==> p[i] == m[i]);
        assert(be_u32_at(p, 2) == be_u32_at(m, 2));
        assert(be_u32_at(p, 10) == be_u32_at(m, 10));
        assert(be_u32_at(p, 14) == be_u32_at(m, 14));
        assert(be_u32_at(p, 22) == be_u32_at(m, 22));
    }
}

/// Where the header and metadata block of the message that starts `b` end.
pub open spec fn head_end(b: Seq<u8>) -> int {
    30 + be_u32_at(b, 14)
}

/// Whether `b` starts with a valid DF01 header and its whole metadata block.
pub open spec fn holds_head(b: Seq<u8>) -> bool {
    df01_header_valid(b) && b.len() >= head_end(b)
}

/// The error kinds that the received bytes already decide by their header,
/// whatever follows them.
pub open spec fn stream_fault(b: Seq<u8>, e: DFParseError) -> bool {
    match e {
        DFParseError::NotADFMessage(_) => b.len() >= 2 && !opens_with(b, df01_open()) && !opens_with(
            b,
            df02_open(),
        ),
        DFParseError::Unimplemented(_) => b.len() >= 24 && opens_with(b, df02_open()),
        DFParseError::MalformedHeader(_) => b.len() >= 30 && opens_with(b, df01_open())
            && !df01_header_valid(b),
        _ => false,
    }
}

/// The error kinds that a whole metadata block decides: a type other than
/// JSON, or bytes that are not one JSON value.
pub open spec fn meta_fault(b: Seq<u8>, e: DFParseError) -> bool {
    holds_head(b) && match e {
        DFParseError::Unimplemented(_) => meta_type_of_code(be_u32_at(b, 10)) != Some(
            MetaType::Json,
        ),
        DFParseError::MetaError(_) => meta_type_of_code(be_u32_at(b, 10)) == Some(MetaType::Json)
            && !json_accepts(frame_meta(b)),
        _ => false,
    }
}

/// Whether the metadata block of a whole head decodes.
pub open spec fn meta_decodes(b: Seq<u8>) -> bool {
    meta_type_of_code(be_u32_at(b, 10)) == Some(MetaType::Json) && json_accepts(frame_meta(b))
}

/// How many bytes in all the next read must bring, while the received bytes
/// decide no error and hold no whole head: the marker, then the header, then
/// the metadata block.
pub open spec fn read_target(b: Seq<u8>) -> int {
    if b.len() < 2 {
        2
    } else if opens_with(b, df02_open()) {
        24
    } else if b.len() < 30 {
        30
    } else {
        head_end(b)
    }
}

/// Whether the received bytes fall short of the stage of the head they are in.
pub open spec fn needs_more(b: Seq<u8>) -> bool {
    ||| b.len() < 2
    ||| opens_with(b, df02_open()) && b.len() < 24
    ||| opens_with(b, df01_open()) && b.len() < 30
    ||| df01_header_valid(b) && b.len() < head_end(b)
}

/// The header of a message, and how far its header and metadata block reach.
enum HeadStep {
    Need(u64),
    Whole(DFBinaryHeader),
}

/// Decodes the header at the start of `buf` and checks that its metadata
/// block is all there.
fn decode_head(buf: &[u8]) -> (r: Result<HeadStep, DFParseError>)
    ensures
        match r {
            Ok(HeadStep::Need(n)) => needs_more(buf@) && n == read_target(buf@) && n > buf@.len(),
            Ok(HeadStep::Whole(h)) => {
                &&& holds_head(buf@)
                &&& h == df01_header_of(buf@)
                &&& h.spec_meta_len() == be_u32_at(buf@, 14)
                &&& h.spec_data_len() == be_u32_at(buf@, 22)
                &&& 30 + h.spec_meta_len() <= buf@.len()
            },
            Err(e) => stream_fault(buf@, e),
        },
{
    if buf.len() < 2 {
        return Ok(HeadStep::Need(2));
    }
    let scope: [u8; 2] = [buf[0], buf[1]];
    assert(scope@ =~= buf@.subrange(0, 2));
    let size = match header_size(&scope) {
        Ok(n) => n,
        Err(e) => return Err(e),
    };
    if buf.len() < size {
        return Ok(HeadStep::Need(size as u64));
    }
    if size != DF01_HEADER_LEN {
        return Err(
            DFParseError::Unimplemented(String::from_str("DF02 format parsing is not implemented")),
        );
    }
    let header = match decode_header(buf) {
        Ok(h) => h,
        Err(e) => return Err(e),
    };
    let meta_len = header.get_meta_len();
    if buf.len() - DF01_HEADER_LEN < meta_len {
        return Ok(HeadStep::Need(DF01_HEADER_LEN as u64 + meta_len as u64));
    }
    Ok(HeadStep::Whole(header))
}

/// A message whose header is decoded and whose blocks are cut out of a buffer.
pub struct DFFrame {
    pub header: DFBinaryHeader,
    /// The metadata block, still encoded.
    pub meta: Vec<u8>,
    /// The payload; absent when the header announces none.
    pub data: Option<Vec<u8>>,
    /// How many bytes of the buffer the message takes up.
    pub consumed: usize,
}

/// Relies on `std::io::Error::from(ErrorKind::UnexpectedEof)`: the error for
/// bytes that end before the message does.
#[verifier::external_body]
fn unexpected_end() -> std::io::Error {
    std::io::Error::from(std::io::ErrorKind::UnexpectedEof)
}

/// Cuts the payload announced by `header` out of `buf`, after `from`.
fn take_payload(buf: &[u8], header: &DFBinaryHeader, from: usize) -> (r: Result<
    Option<Vec<u8>>,
    DFParseError,
>)
    requires
        from <= buf@.len(),
    ensures
        match r {
            Ok(d) => buf@.len() >= from + header.spec_data_len() && opt_bytes(d) == (if header.spec_data_len()
                == 0 {
                None
            } else {
                Some(buf@.subrange(from as int, from + header.spec_data_len()))
            }),
            Err(DFParseError::IoError(_)) => buf@.len() < from + header.spec_data_len(),
            Err(_) => false,
        },
{
    match header.payload_len() {
        Some(n) => {
            if buf.len() - from < n {
                return Err(DFParseError::IoError(unexpected_end()));
            }
            Ok(Some(copy_range(buf, from, from + n)))
        },
        None => Ok(None),
    }
}

/// Cuts the message at the start of `buf` into its header, metadata block and
/// payload, without decoding the metadata; bytes that end before the message
/// does are an I/O error.
pub fn split_message(buf: &[u8]) -> (r: Result<DFFrame, DFParseError>)
    ensures
        match r {
            Ok(f) => {
                &&& holds_frame(buf@)
                &&& f.header == df01_header_of(buf@)
                &&& f.meta@ == frame_meta(buf@)
                &&& opt_bytes(f.data) == frame_data(buf@)
                &&& f.consumed == frame_end(buf@)
            },
            Err(DFParseError::IoError(_)) => needs_more(buf@) || (holds_head(buf@) && !holds_frame(
                buf@,
            )),
            Err(e) => stream_fault(buf@, e),
        },
{
    let header = match decode_head(buf) {
        Ok(HeadStep::Whole(h)) => h,
        Ok(HeadStep::Need(_)) => return Err(DFParseError::IoError(unexpected_end())),
        Err(e) => return Err(e),
    };
    let total = buf.len();
    assert(30 + header.spec_meta_len() <= total);
    let meta_end = DF01_HEADER_LEN + header.get_meta_len();
    let data = match take_payload(buf, &header, meta_end) {
        Ok(d) => d,
        Err(e) => return Err(e),
    };
    let meta = copy_range(buf, DF01_HEADER_LEN, meta_end);
    Ok(DFFrame { header, meta, data, consumed: meta_end + header.get_data_len() })
}

/// A message's header with its metadata decoded, read before any payload.
pub struct DFHead {
    pub header: DFBinaryHeader,
    pub meta: serde_json::Value,
    /// How many bytes the header and metadata block take up.
    pub consumed: usize,
}

/// What a reader does next with the bytes it has received so far.
pub enum ReadStep {
    /// Read on until this many bytes have been received in all.
    Need(u64),
    /// The header and metadata are read and decoded; the payload, if the
    /// header announces one, follows.
    Head(DFHead),
}

/// Decodes a metadata block by the codec that the header names. Only JSON
/// is handled; the other types are recognized and refused.
pub fn parse_meta(header: &DFBinaryHeader, meta_bytes: Vec<u8>) -> (r: Result<
    serde_json::Value,
    DFParseError,
>)
    ensures
        match *header {
            DFBinaryHeader::DF01 { meta_type, .. } => match r {
                Ok(v) => meta_type == MetaType::Json && json_accepts(meta_bytes@) && v
                    == json_value_of(meta_bytes@),
                Err(DFParseError::MetaError(_)) => meta_type == MetaType::Json && !json_accepts(
                    meta_bytes@,
                ),
                Err(DFParseError::Unimplemented(m)) => meta_type != MetaType::Json && m@
                    == "MetaType::"@ + meta_type.spec_name() + " handling is not implemented"@,
                Err(_) => false,
            },
        },
{
    match header {
        DFBinaryHeader::DF01 { meta_type, .. } => match meta_type {
            MetaType::Json => match json_from_slice(meta_bytes.as_slice()) {
                Ok(v) => Ok(v),
                Err(e) => Err(DFParseError::MetaError(e)),
            },
            other => {
                let mut m = String::from_str("MetaType::");
                let name = other.name();
                m.append(name.as_str());
                m.append(" handling is not implemented");
                Err(DFParseError::Unimplemented(m))
            },
        },
    }
}

/// Decides the next step of reading a message from a stream, given every
/// byte received so far: how many bytes to wait for, the header with its
/// decoded metadata once both are in, or the error that those bytes already
/// decide. It never asks for payload bytes, so a metadata error is reported
/// before any of them are read.
pub fn next_read(received: &[u8]) -> (r: Result<ReadStep, DFParseError>)
    ensures
        holds_head(received@) && meta_type_of_code(be_u32_at(received@, 10)) == Some(
            MetaType::Qdatastream,
        ) ==> (r matches Err(DFParseError::Unimplemented(m)) && m@ == "MetaType::"@
            + "Qdatastream"@ + " handling is not implemented"@),
        match r {
            Ok(ReadStep::Need(n)) => needs_more(received@) && n == read_target(received@) && n
                > received@.len(),
            Ok(ReadStep::Head(h)) => {
                &&& holds_head(received@)
                &&& meta_decodes(received@)
                &&& h.header == df01_header_of(received@)
                &&& h.meta == json_value_of(frame_meta(received@))
                &&& h.consumed == head_end(received@)
            },
            Err(e) => stream_fault(received@, e) || meta_fault(received@, e),
        },
{
    let header = match decode_head(received) {
        Ok(HeadStep::Whole(h)) => h,
        Ok(HeadStep::Need(n)) => return Ok(ReadStep::Need(n)),
        Err(e) => return Err(e),
    };
    let total = received.len();
    assert(30 + header.spec_meta_len() <= total);
    let meta_end = DF01_HEADER_LEN + header.get_meta_len();
    let meta = match parse_meta(&header, copy_range(received, DF01_HEADER_LEN, meta_end)) {
        Ok(v) => v,
        Err(e) => return Err(e),
    };
    Ok(ReadStep::Head(DFHead { header, meta, consumed: meta_end }))
}

/// Reads the whole message at the start of `buf` as a stream reader would:
/// header, then metadata, decoded before any payload byte is looked at, then
/// payload.
pub fn read_df_message_bytes(buf: &[u8]) -> (r: Result<DFMessage<serde_json::Value>, DFParseError>)
    ensures
        match r {
            Ok(msg) => {
                &&& holds_frame(buf@)
                &&& meta_decodes(buf@)
                &&& msg.meta == json_value_of(frame_meta(buf@))
                &&& opt_bytes(msg.data) == frame_data(buf@)
            },
            Err(DFParseError::IoError(_)) => needs_more(buf@) || (holds_head(buf@) && meta_decodes(
                buf@,
            ) && !holds_frame(buf@)),
            Err(e) => stream_fault(buf@, e) || meta_fault(buf@, e),
        },
{
    let head = match next_read(buf) {
        Ok(ReadStep::Head(h)) => h,
        Ok(ReadStep::Need(_)) => return Err(DFParseError::IoError(unexpected_end())),
        Err(e) => return Err(e),
    };
    let data = match take_payload(buf, &head.header, head.consumed) {
        Ok(d) => d,
        Err(e) => return Err(e),
    };
    Ok(DFMessage { meta: head.meta, data })
}

/// Relies on `SystemTime::now` measured from `UNIX_EPOCH`: the whole seconds
/// since the epoch, or none when the clock reads a time before it.
#[verifier::external_body]
fn now_epoch_secs() -> (r: Option<u64>) {
    std::time::SystemTime::now().duration_since(std::time::UNIX_EPOCH).ok().map(|d| d.as_secs())
}

/// The header time for a clock reading: its low 32 bits, and zero for a
/// clock set before the epoch.
pub open spec fn header_time(secs: Option<u64>) -> u32 {
    match secs {
        Some(s) => (s % 0x1_0000_0000) as u32,
        None => 0,
    }
}

/// The header time for a clock reading: its low 32 bits, and zero for a
/// clock set before the epoch.
pub fn header_time_of(secs: Option<u64>) -> (r: u32)
    ensures
        r == header_time(secs),
{
    match secs {
        Some(s) => (s % 0x1_0000_0000) as u32,
        None => 0,
    }
}

/// Frames a metadata text and an optional payload as one DF01 message,
/// stamped with the current time.
pub fn frame_message_now(meta_json: &[u8], data: &Option<Vec<u8>>) -> (r: Result<Vec<u8>, DFParseError>)
    ensures
        match r {
            Ok(buf) => fits_df01(meta_json@, opt_bytes(*data)) && exists|secs: Option<u64>|
                buf@ == #[trigger] message_bytes(meta_json@, opt_bytes(*data), header_time(secs)),
            Err(DFParseError::MalformedHeader(m)) => !fits_df01(meta_json@, opt_bytes(*data))
                && m@ == "metadata or payload too long for a DF01 header"@,
            Err(_) => false,
        },
{
    let secs = now_epoch_secs();
    let time = header_time_of(secs);
    assemble_message(meta_json, data, time)
}

/// Encodes `meta` as indented JSON and frames it with an optional payload,
/// stamped with the current time.
pub fn make_message(meta: &serde_json::Value, data: &Option<Vec<u8>>) -> (r: Result<
    Vec<u8>,
    DFParseError,
>)
    ensures
        match r {
            Ok(buf) => fits_df01(pretty_json_of(*meta), opt_bytes(*data)) && exists|t: u32|
                buf@ == #[trigger] message_bytes(pretty_json_of(*meta), opt_bytes(*data), t),
            Err(DFParseError::MalformedHeader(m)) => !fits_df01(pretty_json_of(*meta), opt_bytes(*data))
                && m@ == "metadata or payload too long for a DF01 header"@,
            Err(_) => false,
        },
{
    let json = match json_to_vec_pretty(meta) {
        Ok(j) => j,
        Err(e) => return Err(DFParseError::MetaError(e)),
    };
    frame_message_now(json.as_slice(), data)
}

} // verus!
