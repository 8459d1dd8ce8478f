//! The DF header: its markers, its fields and their wire layout.

use vstd::prelude::*;

use crate::bytes::{be_u32_at, copy_range, lemma_be_at, push_all, push_u32_be, read_u32_be, u32_be};
use crate::error::DFParseError;
use crate::text::{lower_hex_of, push_lower_hex, utf8_lossy, utf8_lossy_of};

verus! {

/// Length in bytes of a DF01 header.
pub const DF01_HEADER_LEN: usize = 30;

/// Length in bytes announced for a DF02 header, whose layout is not decoded.
pub const DF02_HEADER_LEN: usize = 24;

/// The type code that every DF01 header carries after its opening marker.
pub const DF01_MAGIC: u32 = 0x00014000;

/// Wire code of `MetaType::Undefined`.
pub const META_CODE_UNDEFINED: u32 = 0x00000000;

/// Wire code of `MetaType::Json`.
pub const META_CODE_JSON: u32 = 0x00010000;

/// Wire code of `MetaType::Qdatastream`.
pub const META_CODE_QDATASTREAM: u32 = 0x00010007;

/// Opening marker of a DF01 message: `#!`.
pub open spec fn df01_open() -> Seq<u8> {
    seq![35u8, 33u8]
}

/// Opening marker of a DF02 message: `#~`.
pub open spec fn df02_open() -> Seq<u8> {
    seq![35u8, 126u8]
}

/// Closing marker of a DF01 header: `!#\r\n`.
pub open spec fn df01_close() -> Seq<u8> {
    seq![33u8, 35u8, 13u8, 10u8]
}

/// The codec that the metadata block is written in.
#[derive(Debug, Clone, Copy, PartialEq, Eq, Structural)]
pub enum MetaType {
    Undefined,
    Json,
    Qdatastream,
}

/// The metadata type that a wire code stands for, if any.
pub open spec fn meta_type_of_code(c: int) -> Option<MetaType> {
    if c == META_CODE_UNDEFINED {
        Some(MetaType::Undefined)
    } else if c == META_CODE_JSON {
        Some(MetaType::Json)
    } else if c == META_CODE_QDATASTREAM {
        Some(MetaType::Qdatastream)
    } else {
        None
    }
}

impl MetaType {
    /// The wire code of this metadata type.
    pub open spec fn spec_code(self) -> u32 {
        match self {
            MetaType::Undefined => META_CODE_UNDEFINED,
            MetaType::Json => META_CODE_JSON,
            MetaType::Qdatastream => META_CODE_QDATASTREAM,
        }
    }

    /// The variant's name.
    pub open spec fn spec_name(self) -> Seq<char> {
        match self {
            MetaType::Undefined => "Undefined"@,
            MetaType::Json => "Json"@,
            MetaType::Qdatastream => "Qdatastream"@,
        }
    }

    /// The wire code of this metadata type.
    pub fn code(&self) -> (r: u32)
        ensures
            r == self.spec_code(),
            meta_type_of_code(r as int) == Some(*self),
    {
        match self {
            MetaType::Undefined => META_CODE_UNDEFINED,
            MetaType::Json => META_CODE_JSON,
            MetaType::Qdatastream => META_CODE_QDATASTREAM,
        }
    }

    /// The variant's name, as it appears in messages.
    pub fn name(&self) -> (r: String)
        ensures
            r@ == self.spec_name(),
    {
        match self {
            MetaType::Undefined => String::from_str("Undefined"),
            MetaType::Json => String::from_str("Json"),
            MetaType::Qdatastream => String::from_str("Qdatastream"),
        }
    }

    /// The metadata type of a wire code; an unknown code is a malformed header.
    pub fn try_from(v: u32) -> (r: Result<MetaType, DFParseError>)
        ensures
            match r {
                Ok(t) => meta_type_of_code(v as int) == Some(t),
                Err(DFParseError::MalformedHeader(m)) => meta_type_of_code(v as int) is None
                    && m@ == "No meta type for 0x"@ + lower_hex_of(v as nat) + " code!"@,
                Err(_) => false,
            },
    {
        if v == META_CODE_UNDEFINED {
            Ok(MetaType::Undefined)
        } else if v == META_CODE_JSON {
            Ok(MetaType::Json)
        } else if v == META_CODE_QDATASTREAM {
            Ok(MetaType::Qdatastream)
        } else {
            let mut m = String::from_str("No meta type for 0x");
            push_lower_hex(&mut m, v);
            m.append(" code!");
            Err(DFParseError::MalformedHeader(m))
        }
    }
}


/// The fixed preamble of one message. Only the DF01 layout is decoded.
#[derive(Debug, Clone, Copy, PartialEq, Eq, Structural)]
pub enum DFBinaryHeader {
    DF01 { time: u32, meta_type: MetaType, meta_len: usize, data_type: u32, data_len: usize },
}

impl DFBinaryHeader {
    /// Byte length of the metadata block that follows the header.
    pub open spec fn spec_meta_len(self) -> usize {
        match self {
            DFBinaryHeader::DF01 { meta_len, .. } => meta_len,
        }
    }

    /// Byte length of the payload block that follows the metadata block.
    pub open spec fn spec_data_len(self) -> usize {
        match self {
            DFBinaryHeader::DF01 { data_len, .. } => data_len,
        }
    }

    /// Byte length of the metadata block that follows the header.
    pub fn get_meta_len(&self) -> (r: usize)
        ensures
            r == self.spec_meta_len(),
    {
        match self {
            DFBinaryHeader::DF01 { meta_len, .. } => *meta_len,
        }
    }

    /// Byte length of the payload block that follows the metadata block.
    pub fn get_data_len(&self) -> (r: usize)
        ensures
            r == self.spec_data_len(),
    {
        match self {
            DFBinaryHeader::DF01 { data_len, .. } => *data_len,
        }
    }

    /// How many payload bytes to read after the metadata: none when the
    /// header announces an empty payload.
    pub fn payload_len(&self) -> (r: Option<usize>)
        ensures
            r is None <==> self.spec_data_len() == 0,
            r matches Some(n) ==> n == self.spec_data_len(),
    {
        let n = self.get_data_len();
        if n != 0 {
            Some(n)
        } else {
            None
        }
    }
}

/// Whether `b` starts with the two bytes of `marker`.
pub open spec fn opens_with(b: Seq<u8>, marker: Seq<u8>) -> bool {
    b.len() >= 2 && b.subrange(0, 2) == marker
}

/// Whether a DF01 header's fields all pass validation.
pub open spec fn df01_header_valid(b: Seq<u8>) -> bool {
    &&& b.len() >= 30
    &&& opens_with(b, df01_open())
    &&& be_u32_at(b, 2) == DF01_MAGIC
    &&& meta_type_of_code(be_u32_at(b, 10)) is Some
    &&& b.subrange(26, 30) == df01_close()
}

/// The header that a valid DF01 header's bytes encode.
pub open spec fn df01_header_of(b: Seq<u8>) -> DFBinaryHeader {
    DFBinaryHeader::DF01 {
        time: be_u32_at(b, 6) as u32,
        meta_type: meta_type_of_code(be_u32_at(b, 10))->0,
        meta_len: be_u32_at(b, 14) as usize,
        data_type: be_u32_at(b, 18) as u32,
        data_len: be_u32_at(b, 22) as usize,
    }
}

/// The text of the error for an unknown opening marker.
pub open spec fn unknown_marker_text(marker: Seq<u8>) -> Seq<char> {
    "unsupported opening scope "@ + utf8_lossy_of(marker)
}

/// The text of the error for a closing marker that does not match the opening one.
pub open spec fn marker_mismatch_text(open: Seq<u8>, close: Seq<u8>) -> Seq<char> {
    "open scope '"@ + utf8_lossy_of(open) + "' does not match closing '"@ + utf8_lossy_of(close)
        + "'"@
}

fn is_marker(b: &[u8], m0: u8, m1: u8) -> (r: bool)
    requires
        b@.len() >= 2,
    ensures
        r == (b@.subrange(0, 2) == seq![m0, m1]),
{
    let r = b[0] == m0 && b[1] == m1;
    assert(r ==> b@.subrange(0, 2) =~= seq![m0, m1]);
    assert(b@.subrange(0, 2) == seq![m0, m1] ==> b@.subrange(0, 2)[0] == m0 && b@.subrange(0, 2)[1] == m1);
    r
}

fn unknown_marker_error(marker: &[u8]) -> (r: DFParseError)
    ensures
        r matches DFParseError::NotADFMessage(m) && m@ == unknown_marker_text(marker@),
{
    let mut m = String::from_str("unsupported opening scope ");
    let shown = utf8_lossy(marker);
    m.append(shown.as_str());
    DFParseError::NotADFMessage(m)
}

/// Total header length for an opening marker: 30 for DF01, 24 for DF02.
pub fn header_size(scope: &[u8; 2]) -> (r: Result<usize, DFParseError>)
    ensures
        match r {
            Ok(n) => (scope@ == df01_open() && n == DF01_HEADER_LEN) || (scope@ == df02_open()
                && n == DF02_HEADER_LEN),
            Err(DFParseError::NotADFMessage(m)) => scope@ != df01_open() && scope@ != df02_open()
                && m@ == unknown_marker_text(scope@),
            Err(_) => false,
        },
{
    let b = scope.as_slice();
    assert(b@.subrange(0, 2) =~= scope@);
    if is_marker(b, 35, 33) {
        Ok(DF01_HEADER_LEN)
    } else if is_marker(b, 35, 126) {
        Ok(DF02_HEADER_LEN)
    } else {
        Err(unknown_marker_error(b))
    }
}


/// Whether bytes 26 to 30 hold the DF01 closing marker.
fn has_df01_close(b: &[u8]) -> (r: bool)
    requires
        b@.len() >= 30,
    ensures
        r == (b@.subrange(26, 30) == df01_close()),
{
    let r = b[26] == 33 && b[27] == 35 && b[28] == 13 && b[29] == 10;
    assert(r ==> b@.subrange(26, 30) =~= df01_close());
    assert(b@.subrange(26, 30) == df01_close() ==> b@.subrange(26, 30)[0] == 33 && b@.subrange(
        26,
        30,
    )[1] == 35 && b@.subrange(26, 30)[2] == 13 && b@.subrange(26, 30)[3] == 10);
    r
}

/// What decoding the header at the start of `b` gives: the header when every
/// field passes validation, else the error for the first check that fails
/// (marker, magic, metadata type code, closing marker), with its message.
pub open spec fn header_outcome(b: Seq<u8>, r: Result<DFBinaryHeader, DFParseError>) -> bool {
    match r {
        Ok(h) => df01_header_valid(b) && h == df01_header_of(b),
        Err(DFParseError::NotADFMessage(m)) => !opens_with(b, df01_open()) && !opens_with(
            b,
            df02_open(),
        ) && m@ == unknown_marker_text(b.subrange(0, 2)),
        Err(DFParseError::Unimplemented(m)) => opens_with(b, df02_open()) && m@
            == "DF02 format parsing is not implemented"@,
        Err(DFParseError::MalformedHeader(m)) => {
            &&& opens_with(b, df01_open())
            &&& !df01_header_valid(b)
            &&& be_u32_at(b, 2) != DF01_MAGIC ==> m@ == "header_type != 0x14000"@
            &&& be_u32_at(b, 2) == DF01_MAGIC && meta_type_of_code(be_u32_at(b, 10)) is None
                ==> m@ == "No meta type for 0x"@ + lower_hex_of(be_u32_at(b, 10) as u32 as nat)
                + " code!"@
            &&& be_u32_at(b, 2) == DF01_MAGIC && meta_type_of_code(be_u32_at(b, 10)) is Some
                ==> m@ == marker_mismatch_text(b.subrange(0, 2), b.subrange(26, 30))
        },
        Err(_) => false,
    }
}

/// Decodes and validates a header of 30 bytes, the opening marker included.
pub fn parse_header(header_bytes: &[u8; 30]) -> (r: Result<DFBinaryHeader, DFParseError>)
    ensures
        opens_with(header_bytes@, df01_open()) && be_u32_at(header_bytes@, 2) != DF01_MAGIC
            ==> r matches Err(DFParseError::MalformedHeader(_)),
        ({
            let b = header_bytes@;
            opens_with(b, df01_open()) && be_u32_at(b, 2) == DF01_MAGIC && meta_type_of_code(
                be_u32_at(b, 10),
            ) is Some && b.subrange(26, 30) != df01_close() ==> (r matches Err(
                DFParseError::MalformedHeader(m),
            ) && m@ == marker_mismatch_text(b.subrange(0, 2), b.subrange(26, 30)))
        }),
        header_outcome(header_bytes@, r),
{
    assert(header_bytes@.subrange(0, 2) == df01_open() ==> header_bytes@.subrange(0, 2)[1] == 33);
    decode_header(header_bytes.as_slice())
}

/// Decodes and validates the header at the start of `header_bytes`.
pub(crate) fn decode_header(header_bytes: &[u8]) -> (r: Result<DFBinaryHeader, DFParseError>)
    requires
        header_bytes@.len() >= 30,
    ensures
        header_outcome(header_bytes@, r),
{
    let b = header_bytes;
    if is_marker(b, 35, 33) {
        let header_type = read_u32_be(b, 2);
        if header_type != DF01_MAGIC {
            return Err(DFParseError::MalformedHeader(String::from_str("header_type != 0x14000")));
        }
        let time = read_u32_be(b, 6);
        let meta_type = match MetaType::try_from(read_u32_be(b, 10)) {
            Ok(t) => t,
            Err(e) => return Err(e),
        };
        let meta_len = read_u32_be(b, 14) as usize;
        let data_type = read_u32_be(b, 18);
        let data_len = read_u32_be(b, 22) as usize;
        if !has_df01_close(b) {
            let mut m = String::from_str("open scope '");
            let open = utf8_lossy(copy_range(b, 0, 2).as_slice());
            m.append(open.as_str());
            m.append("' does not match closing '");
            let close = utf8_lossy(copy_range(b, 26, 30).as_slice());
            m.append(close.as_str());
            m.append("'");
            return Err(DFParseError::MalformedHeader(m));
        }
        Ok(DFBinaryHeader::DF01 { time, meta_type, meta_len, data_type, data_len })
    } else if is_marker(b, 35, 126) {
        Err(DFParseError::Unimplemented(String::from_str("DF02 format parsing is not implemented")))
    } else {
        Err(unknown_marker_error(copy_range(b, 0, 2).as_slice()))
    }
}

/// The 30 bytes of a DF01 header with a reserved data type of zero.
#[verifier::opaque]
pub open spec fn df01_header_bytes(meta_len: u32, data_len: u32, meta_type: MetaType, time: u32) -> Seq<u8> {
    df01_open() + u32_be(DF01_MAGIC) + u32_be(time) + u32_be(meta_type.spec_code()) + u32_be(
        meta_len,
    ) + u32_be(0) + u32_be(data_len) + df01_close()
}

/// The bytes of a serialized header, whatever follows them, decode to the
/// fields it was made from and pass validation.
pub proof fn lemma_header_decodes(meta_len: u32, data_len: u32, meta_type: MetaType, time: u32, post: Seq<u8>)
    ensures
        ({
            let b = df01_header_bytes(meta_len, data_len, meta_type, time) + post;
            &&& df01_header_valid(b)
            &&& df01_header_of(b) == (DFBinaryHeader::DF01 {
                time,
                meta_type,
                meta_len: meta_len as usize,
                data_type: 0,
                data_len: data_len as usize,
            })
            &&& be_u32_at(b, 14) == meta_len
            &&& be_u32_at(b, 22) == data_len
            &&& df01_header_bytes(meta_len, data_len, meta_type, time).len() == 30
        }),
{
    reveal(df01_header_bytes);
    let h = df01_header_bytes(meta_len, data_len, meta_type, time);
    let b = h + post;
    assert(h.len() == 30);
    assert(b.subrange(0, 2) =~= df01_open());
    assert(b.subrange(2, 6) =~= u32_be(DF01_MAGIC));
    assert(b.subrange(6, 10) =~= u32_be(time));
    assert(b.subrange(10, 14) =~= u32_be(meta_type.spec_code()));
    assert(b.subrange(14, 18) =~= u32_be(meta_len));
    assert(b.subrange(18, 22) =~= u32_be(0));
    assert(b.subrange(22, 26) =~= u32_be(data_len));
    assert(b.subrange(26, 30) =~= df01_close());
    lemma_be_at(b, 2, DF01_MAGIC);
    lemma_be_at(b, 6, time);
    lemma_be_at(b, 10, meta_type.spec_code());
    lemma_be_at(b, 14, meta_len);
    lemma_be_at(b, 18, 0);
    lemma_be_at(b, 22, data_len);
}

/// Appends a DF01 header announcing the given block lengths, metadata type and time.
pub fn serialize_header(buf: &mut Vec<u8>, meta_len: u32, data_len: u32, meta_type: MetaType, time: u32)
    ensures
        final(buf)@ == old(buf)@ + df01_header_bytes(meta_len, data_len, meta_type, time),
{
    let open: [u8; 2] = [35, 33];
    let close: [u8; 4] = [33, 35, 13, 10];
    push_all(buf, open.as_slice());
    assert(open@ =~= df01_open());
    push_u32_be(buf, DF01_MAGIC);
    push_u32_be(buf, time);
    push_u32_be(buf, meta_type.code());
    push_u32_be(buf, meta_len);
    push_u32_be(buf, 0);
    push_u32_be(buf, data_len);
    push_all(buf, close.as_slice());
    assert(close@ =~= df01_close());
    reveal(df01_header_bytes);
    assert(final(buf)@ =~= old(buf)@ + df01_header_bytes(meta_len, data_len, meta_type, time));
}

} // verus!
