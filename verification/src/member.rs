//! The decoded header of one gzip member, and the decoder itself.
//!
//! [`Member::from_reader`] consumes the header fields in their fixed order:
//! magic pair, compression method, flags, modification time, extra flags,
//! operating system, then — each gated by its flag bit — the extra block,
//! the zero-terminated file name and comment, and the header checksum.
//! Its contract is stated against [`parse`], a specification-level decoder
//! over the byte sequence still in front of the cursor.

use vstd::prelude::*;

use crate::error::{Error, FormatError, IoError};
use crate::reader::{find_zero, le16, le32, read_to_vec, Reader};

verus! {

/// First byte of the magic signature.
pub const MAGIC1: u8 = 0x1f;

/// Second byte of the magic signature.
pub const MAGIC2: u8 = 0x8b;

/// Flag bit: the payload is probably text.
pub const FLAG_TEXT: u8 = 0x01;

/// Flag bit: a header checksum follows the optional fields.
pub const FLAG_HCRC: u8 = 0x02;

/// Flag bit: an extra block follows the fixed fields.
pub const FLAG_EXTRA: u8 = 0x04;

/// Flag bit: a zero-terminated original file name is present.
pub const FLAG_NAME: u8 = 0x08;

/// Flag bit: a zero-terminated comment is present.
pub const FLAG_COMMENT: u8 = 0x10;

/// The compression method byte. All codes below the deflate code are
/// reserved by the format; any unrecognized code decodes to `Unknown`
/// rather than failing, for forward compatibility.
#[derive(Clone, Copy, Debug, PartialEq, Eq, Structural)]
pub enum CompressionMethod {
    Reserved0,
    Reserved1,
    Reserved2,
    Reserved3,
    Reserved4,
    Reserved5,
    Reserved6,
    Reserved7,
    Deflate,
    Unknown,
}

/// The operating system the member was produced on. Any unrecognized code
/// decodes to `Unknown` rather than failing.
#[derive(Clone, Copy, Debug, PartialEq, Eq, Structural)]
pub enum OperatingSystem {
    Fat,
    Amiga,
    Vms,
    Unix,
    VmCms,
    Atari,
    Hpfs,
    Macintosh,
    ZSystem,
    CPM,
    Top20,
    Ntfs,
    QDos,
    AcornRiscOS,
    Unknown,
}

/// The flags byte. Five bits gate optional fields or hint at content;
/// the remaining bits are preserved as opaque state, never rejected.
#[derive(Clone, Copy, Debug, PartialEq, Eq, Structural)]
pub struct Flags {
    pub bits: u8,
}

/// The vendor extension block: two identifying bytes and a
/// length-prefixed opaque payload.
#[derive(Debug)]
pub struct Extra {
    pub subid1: u8,
    pub subid2: u8,
    pub length: u16,
    pub data: Vec<u8>,
}

/// One decoded member header. The payload fields `data`, `crc32` and
/// `size` belong to downstream stages and are left empty and zero here.
#[derive(Debug)]
pub struct Member {
    pub magic1: u8,
    pub magic2: u8,
    pub compression_method: CompressionMethod,
    pub flags: Flags,
    pub modification_time: u32,
    pub extra_flags: u8,
    pub operating_system: OperatingSystem,
    pub extra_fields: Option<Extra>,
    pub original_file_name: Option<String>,
    pub comment: Option<String>,
    pub crc16: Option<u16>,
    pub data: Vec<u8>,
    pub crc32: u32,
    pub size: u32,
}

/// Whether the text bit is set in a flags byte.
pub open spec fn flag_text(bits: u8) -> bool {
    bits & FLAG_TEXT != 0
}

/// Whether the header-checksum bit is set in a flags byte.
pub open spec fn flag_hcrc(bits: u8) -> bool {
    bits & FLAG_HCRC != 0
}

/// Whether the extra-block bit is set in a flags byte.
pub open spec fn flag_extra(bits: u8) -> bool {
    bits & FLAG_EXTRA != 0
}

/// Whether the file-name bit is set in a flags byte.
pub open spec fn flag_name(bits: u8) -> bool {
    bits & FLAG_NAME != 0
}

/// Whether the comment bit is set in a flags byte.
pub open spec fn flag_comment(bits: u8) -> bool {
    bits & FLAG_COMMENT != 0
}

impl Flags {
    /// Whether the text bit is set.
    pub fn has_text(&self) -> (b: bool)
        ensures
            b == flag_text(self.bits),
    {
        self.bits & FLAG_TEXT != 0
    }

    /// Whether the header-checksum bit is set.
    pub fn has_hcrc(&self) -> (b: bool)
        ensures
            b == flag_hcrc(self.bits),
    {
        self.bits & FLAG_HCRC != 0
    }

    /// Whether the extra-block bit is set.
    pub fn has_extra(&self) -> (b: bool)
        ensures
            b == flag_extra(self.bits),
    {
        self.bits & FLAG_EXTRA != 0
    }

    /// Whether the file-name bit is set.
    pub fn has_name(&self) -> (b: bool)
        ensures
            b == flag_name(self.bits),
    {
        self.bits & FLAG_NAME != 0
    }

    /// Whether the comment bit is set.
    pub fn has_comment(&self) -> (b: bool)
        ensures
            b == flag_comment(self.bits),
    {
        self.bits & FLAG_COMMENT != 0
    }
}

/// The compression method a method byte decodes to.
pub open spec fn method_of(b: u8) -> CompressionMethod {
    if b == 0x00 {
        CompressionMethod::Reserved0
    } else if b == 0x01 {
        CompressionMethod::Reserved1
    } else if b == 0x02 {
        CompressionMethod::Reserved2
    } else if b == 0x03 {
        CompressionMethod::Reserved3
    } else if b == 0x04 {
        CompressionMethod::Reserved4
    } else if b == 0x05 {
        CompressionMethod::Reserved5
    } else if b == 0x06 {
        CompressionMethod::Reserved6
    } else if b == 0x07 {
        CompressionMethod::Reserved7
    } else if b == 0x08 {
        CompressionMethod::Deflate
    } else {
        CompressionMethod::Unknown
    }
}

/// The operating system an OS byte decodes to.
pub open spec fn os_of(b: u8) -> OperatingSystem {
    if b == 0x00 {
        OperatingSystem::Fat
    } else if b == 0x01 {
        OperatingSystem::Amiga
    } else if b == 0x02 {
        OperatingSystem::Vms
    } else if b == 0x03 {
        OperatingSystem::Unix
    } else if b == 0x04 {
        OperatingSystem::VmCms
    } else if b == 0x05 {
        OperatingSystem::Atari
    } else if b == 0x06 {
        OperatingSystem::Hpfs
    } else if b == 0x07 {
        OperatingSystem::Macintosh
    } else if b == 0x08 {
        OperatingSystem::ZSystem
    } else if b == 0x09 {
        OperatingSystem::CPM
    } else if b == 0x0a {
        OperatingSystem::Top20
    } else if b == 0x0b {
        OperatingSystem::Ntfs
    } else if b == 0x0c {
        OperatingSystem::QDos
    } else if b == 0x0d {
        OperatingSystem::AcornRiscOS
    } else {
        OperatingSystem::Unknown
    }
}

impl CompressionMethod {
    /// Decode a method byte; unrecognized codes give `Unknown`.
    pub fn from_u8(b: u8) -> (m: CompressionMethod)
        ensures
            m == method_of(b),
    {
        match b {
            0x00 => CompressionMethod::Reserved0,
            0x01 => CompressionMethod::Reserved1,
            0x02 => CompressionMethod::Reserved2,
            0x03 => CompressionMethod::Reserved3,
            0x04 => CompressionMethod::Reserved4,
            0x05 => CompressionMethod::Reserved5,
            0x06 => CompressionMethod::Reserved6,
            0x07 => CompressionMethod::Reserved7,
            0x08 => CompressionMethod::Deflate,
            _ => CompressionMethod::Unknown,
        }
    }
}

impl OperatingSystem {
    /// Decode an OS byte; unrecognized codes give `Unknown`.
    pub fn from_u8(b: u8) -> (m: OperatingSystem)
        ensures
            m == os_of(b),
    {
        match b {
            0x00 => OperatingSystem::Fat,
            0x01 => OperatingSystem::Amiga,
            0x02 => OperatingSystem::Vms,
            0x03 => OperatingSystem::Unix,
            0x04 => OperatingSystem::VmCms,
            0x05 => OperatingSystem::Atari,
            0x06 => OperatingSystem::Hpfs,
            0x07 => OperatingSystem::Macintosh,
            0x08 => OperatingSystem::ZSystem,
            0x09 => OperatingSystem::CPM,
            0x0a => OperatingSystem::Top20,
            0x0b => OperatingSystem::Ntfs,
            0x0c => OperatingSystem::QDos,
            0x0d => OperatingSystem::AcornRiscOS,
            _ => OperatingSystem::Unknown,
        }
    }
}

/// The extra block as the specification sees it.
pub ghost struct ExtraView {
    pub subid1: u8,
    pub subid2: u8,
    pub length: u16,
    pub data: Seq<u8>,
}

/// Everything a successful parse of a header determines, with the two
/// string fields kept as their raw bytes.
pub ghost struct ParsedMember {
    pub compression_method: CompressionMethod,
    pub flags: u8,
    pub modification_time: u32,
    pub extra_flags: u8,
    pub operating_system: OperatingSystem,
    pub extra: Option<ExtraView>,
    pub name_bytes: Option<Seq<u8>>,
    pub comment_bytes: Option<Seq<u8>>,
    pub crc16: Option<u16>,
}

/// What decoding a byte sequence must come to: a parsed header together
/// with the number of bytes it occupies, a magic failure carrying the
/// offending byte, or an input too short to decide.
pub ghost enum ParseOutcome {
    TooShort,
    BadMagic1(u8),
    BadMagic2(u8),
    Parsed(ParsedMember, int),
}

/// Parse the extra block at offset `off` of `s`: two identifying bytes, a
/// little-endian length, and exactly that many payload bytes. `None` means
/// the input ended first.
pub open spec fn parse_extra_at(s: Seq<u8>, off: int) -> Option<(ExtraView, int)> {
    if off + 4 <= s.len() {
        let l = le16(s[off + 2], s[off + 3]) as int;
        if off + 4 + l <= s.len() {
            Some(
                (
                    ExtraView {
                        subid1: s[off],
                        subid2: s[off + 1],
                        length: le16(s[off + 2], s[off + 3]),
                        data: s.subrange(off + 4, off + 4 + l),
                    },
                    off + 4 + l,
                ),
            )
        } else {
            None
        }
    } else {
        None
    }
}

/// Parse a zero-terminated byte string at offset `off` of `s`: the bytes
/// before the first zero byte, the terminator consumed but not kept.
/// `None` means no zero byte is left.
pub open spec fn parse_zstr_at(s: Seq<u8>, off: int) -> Option<(Seq<u8>, int)> {
    let i = find_zero(s.skip(off));
    if i >= 0 {
        Some((s.subrange(off, off + i), off + i + 1))
    } else {
        None
    }
}

/// Parse the extra block at `off` if its flag bit is set, else nothing.
pub open spec fn parse_opt_extra(fl: u8, s: Seq<u8>, off: int) -> Option<
    (Option<ExtraView>, int),
> {
    if !flag_extra(fl) {
        Some((None, off))
    } else {
        match parse_extra_at(s, off) {
            Some((e, end)) => Some((Some(e), end)),
            None => None,
        }
    }
}

/// Parse a zero-terminated string at `off` if `present`, else nothing.
pub open spec fn parse_opt_zstr(present: bool, s: Seq<u8>, off: int) -> Option<
    (Option<Seq<u8>>, int),
> {
    if !present {
        Some((None, off))
    } else {
        match parse_zstr_at(s, off) {
            Some((b, end)) => Some((Some(b), end)),
            None => None,
        }
    }
}

/// Parse the little-endian header checksum at `off` if its flag bit is
/// set, else nothing.
pub open spec fn parse_opt_crc(fl: u8, s: Seq<u8>, off: int) -> Option<(Option<u16>, int)> {
    if !flag_hcrc(fl) {
        Some((None, off))
    } else if off + 2 <= s.len() {
        Some((Some(le16(s[off], s[off + 1])), off + 2))
    } else {
        None
    }
}

/// The specification-level decoder: what any correct decode of the byte
/// sequence `s` must produce, field order and byte positions included.
pub open spec fn parse(s: Seq<u8>) -> ParseOutcome {
    if s.len() < 1 {
        ParseOutcome::TooShort
    } else if s[0] != MAGIC1 {
        ParseOutcome::BadMagic1(s[0])
    } else if s.len() < 2 {
        ParseOutcome::TooShort
    } else if s[1] != MAGIC2 {
        ParseOutcome::BadMagic2(s[1])
    } else if s.len() < 10 {
        ParseOutcome::TooShort
    } else {
        let fl = s[3];
        match parse_opt_extra(fl, s, 10) {
            None => ParseOutcome::TooShort,
            Some((extra, off1)) => match parse_opt_zstr(flag_name(fl), s, off1) {
                None => ParseOutcome::TooShort,
                Some((name, off2)) => match parse_opt_zstr(flag_comment(fl), s, off2) {
                    None => ParseOutcome::TooShort,
                    Some((comment, off3)) => match parse_opt_crc(fl, s, off3) {
                        None => ParseOutcome::TooShort,
                        Some((crc, off4)) => ParseOutcome::Parsed(
                            ParsedMember {
                                compression_method: method_of(s[2]),
                                flags: fl,
                                modification_time: le32(s[4], s[5], s[6], s[7]),
                                extra_flags: s[8],
                                operating_system: os_of(s[9]),
                                extra,
                                name_bytes: name,
                                comment_bytes: comment,
                                crc16: crc,
                            },
                            off4,
                        ),
                    },
                },
            },
        }
    }
}

/// The text that a sequence of bytes decodes to under best-effort UTF-8
/// decoding; a pure function of the bytes.
pub uninterp spec fn lossy_utf8(bytes: Seq<u8>) -> Seq<char>;

/// Relies on String::from_utf8_lossy: the text is a function of the bytes
/// alone, and a sequence of bytes that all lie below 0x80 is valid ASCII,
/// hence valid UTF-8, and converts losslessly, each byte to the character
/// of the same value.
#[verifier::external_body]
fn bytes_to_text(buf: &Vec<u8>) -> (s: String)
    ensures
        s@ == lossy_utf8(buf@),
        (forall|i: int| 0 <= i < buf@.len() ==> buf@[i] < 0x80) ==> s@ == Seq::new(
            buf@.len(),
            |i: int| buf@[i] as char,
        ),
{
    String::from_utf8_lossy(buf).into_owned()
}

/// Whether the exec header `m` carries exactly what the parse `p`
/// determined: every field equal, the two strings being the best-effort
/// text of their parsed bytes, and the payload fields left empty.
pub open spec fn member_matches(m: Member, p: ParsedMember) -> bool {
    &&& m.magic1 == MAGIC1
    &&& m.magic2 == MAGIC2
    &&& m.compression_method == p.compression_method
    &&& m.flags.bits == p.flags
    &&& m.modification_time == p.modification_time
    &&& m.extra_flags == p.extra_flags
    &&& m.operating_system == p.operating_system
    &&& match (m.extra_fields, p.extra) {
        (Option::None, Option::None) => true,
        (Option::Some(e), Option::Some(ev)) => {
            &&& e.subid1 == ev.subid1
            &&& e.subid2 == ev.subid2
            &&& e.length == ev.length
            &&& e.data@ == ev.data
        },
        _ => false,
    }
    &&& match (m.original_file_name, p.name_bytes) {
        (Option::None, Option::None) => true,
        (Option::Some(t), Option::Some(b)) => t@ == lossy_utf8(b),
        _ => false,
    }
    &&& match (m.comment, p.comment_bytes) {
        (Option::None, Option::None) => true,
        (Option::Some(t), Option::Some(b)) => t@ == lossy_utf8(b),
        _ => false,
    }
    &&& m.crc16 == p.crc16
    &&& m.data@ == Seq::<u8>::empty()
    &&& m.crc32 == 0
    &&& m.size == 0
}

impl Member {
    /// Decode one member header from the front of `r`.
    ///
    /// The outcome and the exact number of bytes consumed are those of
    /// [`parse`] on the bytes in front of the cursor: on success the
    /// cursor sits on the first payload byte; a wrong first or second
    /// magic byte fails after consuming exactly one or two bytes; an
    /// input that ends inside the header consumes everything and fails
    /// with a transport error.
    #[verifier::rlimit(100)]
    pub fn from_reader(r: &mut Reader) -> (res: Result<Member, Error>)
        requires
            old(r).wf(),
        ensures
            final(r).wf(),
            final(r).data == old(r).data,
            match parse(old(r).remaining()) {
                ParseOutcome::Parsed(p, n) => res matches Ok(m) && member_matches(m, p)
                    && final(r).pos == old(r).pos + n,
                ParseOutcome::BadMagic1(b) => res == Err::<Member, Error>(
                    Error::Format(FormatError::InvalidMagic1(b)),
                ) && final(r).pos == old(r).pos + 1,
                ParseOutcome::BadMagic2(b) => res == Err::<Member, Error>(
                    Error::Format(FormatError::InvalidMagic2(b)),
                ) && final(r).pos == old(r).pos + 2,
                ParseOutcome::TooShort => res == Err::<Member, Error>(
                    Error::Io(IoError::UnexpectedEof),
                ) && final(r).pos == old(r).data@.len(),
            },
    {
        let ghost s = old(r).remaining();
        let ghost pos0 = old(r).pos as int;

        let magic1 = match r.read_u8() {
            Ok(b) => b,
            Err(e) => {
                return Err(e);
            },
        };
        proof {
            assert(magic1 == s[0]);
        }
        if magic1 != MAGIC1 {
            return Err(Error::Format(FormatError::InvalidMagic1(magic1)));
        }
        let magic2 = match r.read_u8() {
            Ok(b) => b,
            Err(e) => {
                return Err(e);
            },
        };
        proof {
            assert(magic2 == s[1]);
        }
        if magic2 != MAGIC2 {
            return Err(Error::Format(FormatError::InvalidMagic2(magic2)));
        }
        let cm_b = match r.read_u8() {
            Ok(b) => b,
            Err(e) => {
                return Err(e);
            },
        };
        let compression_method = CompressionMethod::from_u8(cm_b);
        let fl_b = match r.read_u8() {
            Ok(b) => b,
            Err(e) => {
                return Err(e);
            },
        };
        let flags = Flags { bits: fl_b };
        let modification_time = match r.read_u32_le() {
            Ok(v) => v,
            Err(e) => {
                return Err(e);
            },
        };
        let extra_flags = match r.read_u8() {
            Ok(b) => b,
            Err(e) => {
                return Err(e);
            },
        };
        let os_b = match r.read_u8() {
            Ok(b) => b,
            Err(e) => {
                return Err(e);
            },
        };
        let operating_system = OperatingSystem::from_u8(os_b);
        proof {
            assert(s.len() >= 10);
            assert(cm_b == s[2]);
            assert(fl_b == s[3]);
            assert(modification_time == le32(s[4], s[5], s[6], s[7]));
            assert(extra_flags == s[8]);
            assert(os_b == s[9]);
            assert(r.pos == pos0 + 10);
        }

        let extra_fields = if flags.has_extra() {
            let subid1 = match r.read_u8() {
                Ok(b) => b,
                Err(e) => {
                    return Err(e);
                },
            };
            let subid2 = match r.read_u8() {
                Ok(b) => b,
                Err(e) => {
                    return Err(e);
                },
            };
            let length = match r.read_u16_le() {
                Ok(v) => v,
                Err(e) => {
                    return Err(e);
                },
            };
            proof {
                assert(subid1 == s[10]);
                assert(subid2 == s[11]);
                assert(length == le16(s[12], s[13]));
            }
            let data = match read_to_vec(r, length) {
                Ok(v) => v,
                Err(e) => {
                    return Err(e);
                },
            };
            proof {
                assert(data@ =~= s.subrange(14, 14 + length as int));
                assert(parse_extra_at(s, 10) == Some(
                    (
                        ExtraView { subid1, subid2, length, data: data@ },
                        14 + length as int,
                    ),
                ));
            }
            Some(Extra { subid1, subid2, length, data })
        } else {
            None
        };
        let ghost extra_view: Option<ExtraView> = match &extra_fields {
            Option::Some(e) => Some(
                ExtraView { subid1: e.subid1, subid2: e.subid2, length: e.length, data: e.data@ },
            ),
            Option::None => None,
        };
        let ghost off1 = r.pos - pos0;
        proof {
            assert(parse_opt_extra(fl_b, s, 10) == Some((extra_view, off1)));
        }

        let original_file_name = if flags.has_name() {
            proof {
                assert(r.remaining() =~= s.skip(off1));
            }
            let buf = match r.read_until_zero() {
                Ok(v) => v,
                Err(e) => {
                    return Err(e);
                },
            };
            proof {
                let i = find_zero(s.skip(off1));
                assert(buf@ =~= s.subrange(off1, off1 + i));
            }
            Some(bytes_to_text(&buf))
        } else {
            None
        };
        let ghost off2 = r.pos - pos0;
        let ghost name_bytes = match parse_opt_zstr(flag_name(fl_b), s, off1) {
            Option::Some((b, _end)) => b,
            Option::None => None,
        };
        proof {
            assert(parse_opt_zstr(flag_name(fl_b), s, off1) == Some((name_bytes, off2)));
        }

        let comment = if flags.has_comment() {
            proof {
                assert(r.remaining() =~= s.skip(off2));
            }
            let buf = match r.read_until_zero() {
                Ok(v) => v,
                Err(e) => {
                    return Err(e);
                },
            };
            proof {
                let i = find_zero(s.skip(off2));
                assert(buf@ =~= s.subrange(off2, off2 + i));
            }
            Some(bytes_to_text(&buf))
        } else {
            None
        };
        let ghost off3 = r.pos - pos0;
        let ghost comment_bytes = match parse_opt_zstr(flag_comment(fl_b), s, off2) {
            Option::Some((b, _end)) => b,
            Option::None => None,
        };
        proof {
            assert(parse_opt_zstr(flag_comment(fl_b), s, off2) == Some((comment_bytes, off3)));
        }

        let crc16 = if flags.has_hcrc() {
            let v = match r.read_u16_le() {
                Ok(v) => v,
                Err(e) => {
                    return Err(e);
                },
            };
            proof {
                assert(v == le16(s[off3], s[off3 + 1]));
            }
            Some(v)
        } else {
            None
        };
        let ghost off4 = r.pos - pos0;
        proof {
            assert(parse_opt_crc(fl_b, s, off3) == Some(
                (
                    match crc16 {
                        Option::Some(v) => Some(v),
                        Option::None => None,
                    },
                    off4,
                ),
            ));
        }

        let data = Vec::new();
        let crc32: u32 = 0;
        let size: u32 = 0;

        Ok(
            Member {
                magic1,
                magic2,
                compression_method,
                flags,
                modification_time,
                extra_flags,
                operating_system,
                extra_fields,
                original_file_name,
                comment,
                crc16,
                data,
                crc32,
                size,
            },
        )
    }
}

} // verus!
