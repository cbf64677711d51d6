//! Proved properties of the header format.
//!
//! The laws here are stated against [`parse`](crate::member::parse), the
//! same specification the decoder's contract is stated against, so each
//! of them carries over to [`Member::from_reader`](crate::member::Member)
//! through its `ensures`: a header with no flag bits occupies exactly ten
//! bytes; the zero-terminated string fields keep everything before the
//! terminator and nothing else; a wrong magic byte is rejected at once;
//! the method and operating-system bytes can never cause a rejection; and
//! a specification-level encoding of any well-formed header decodes back
//! to exactly that header.

use vstd::prelude::*;

use crate::member::{
    flag_comment, flag_extra, flag_hcrc, flag_name, method_of, os_of, parse, parse_opt_crc,
    parse_opt_extra, parse_opt_zstr, parse_zstr_at, CompressionMethod, ExtraView, OperatingSystem,
    ParseOutcome, ParsedMember, MAGIC1, MAGIC2,
};
use crate::reader::{find_zero, le16, le32, lemma_find_zero, lemma_find_zero_at};

verus! {

/// A header whose flags byte is zero has no optional fields and occupies
/// exactly the ten fixed bytes.
pub proof fn lemma_no_flags_fixed_size(s: Seq<u8>)
    requires
        s.len() >= 10,
        s[0] == MAGIC1,
        s[1] == MAGIC2,
        s[3] == 0,
    ensures
        parse(s) == ParseOutcome::Parsed(
            ParsedMember {
                compression_method: method_of(s[2]),
                flags: 0,
                modification_time: le32(s[4], s[5], s[6], s[7]),
                extra_flags: s[8],
                operating_system: os_of(s[9]),
                extra: None,
                name_bytes: None,
                comment_bytes: None,
                crc16: None,
            },
            10,
        ),
{
    assert(0u8 & 0x04u8 == 0) by (bit_vector);
    assert(0u8 & 0x08u8 == 0) by (bit_vector);
    assert(0u8 & 0x10u8 == 0) by (bit_vector);
    assert(0u8 & 0x02u8 == 0) by (bit_vector);
}

/// Whatever follows the first byte, a wrong first magic byte is rejected,
/// carrying the byte that was read.
pub proof fn lemma_wrong_magic1(s: Seq<u8>)
    requires
        s.len() >= 1,
        s[0] != MAGIC1,
    ensures
        parse(s) == ParseOutcome::BadMagic1(s[0]),
{
}

/// Whatever follows the second byte, a wrong second magic byte after a
/// correct first one is rejected, carrying the byte that was read.
pub proof fn lemma_wrong_magic2(s: Seq<u8>)
    requires
        s.len() >= 2,
        s[0] == MAGIC1,
        s[1] != MAGIC2,
    ensures
        parse(s) == ParseOutcome::BadMagic2(s[1]),
{
}

/// A zero-terminated string field keeps exactly the bytes before the
/// first zero byte — none of them zero — and consumes the terminator
/// with them.
pub proof fn lemma_zstr_terminator(s: Seq<u8>, off: int, b: Seq<u8>, end: int)
    requires
        0 <= off <= s.len(),
        parse_zstr_at(s, off) == Some((b, end)),
    ensures
        off <= end - 1 < s.len(),
        s[end - 1] == 0,
        b == s.subrange(off, end - 1),
        forall|j: int| off <= j < end - 1 ==> s[j] != 0,
{
    let t = s.skip(off);
    lemma_find_zero(t);
    let i = find_zero(t);
    assert(i >= 0);
    assert(s[end - 1] == t[i]);
    assert forall|j: int| off <= j < end - 1 implies s[j] != 0 by {
        assert(t[j - off] != 0);
    }
}

/// A decoded file name never contains a zero byte: the field ends at the
/// first zero byte of the input, which is consumed but not kept.
pub proof fn lemma_name_excludes_terminator(s: Seq<u8>, p: ParsedMember, n: int)
    requires
        parse(s) == ParseOutcome::Parsed(p, n),
        flag_name(p.flags),
    ensures
        p.name_bytes matches Some(b) && forall|j: int| 0 <= j < b.len() ==> b[j] != 0,
{
    let fl = s[3];
    match parse_opt_extra(fl, s, 10) {
        Some((extra, off1)) => {
            match parse_zstr_at(s, off1) {
                Some((b, end)) => {
                    lemma_zstr_terminator(s, off1, b, end);
                },
                None => {
                    assert(false);
                },
            }
        },
        None => {
            assert(false);
        },
    }
}

/// A decoded comment never contains a zero byte either: it is gated and
/// terminated exactly as the file name is.
pub proof fn lemma_comment_excludes_terminator(s: Seq<u8>, p: ParsedMember, n: int)
    requires
        parse(s) == ParseOutcome::Parsed(p, n),
        flag_comment(p.flags),
    ensures
        p.comment_bytes matches Some(b) && forall|j: int| 0 <= j < b.len() ==> b[j] != 0,
{
    let fl = s[3];
    match parse_opt_extra(fl, s, 10) {
        Some((extra, off1)) => {
            match parse_opt_zstr(flag_name(fl), s, off1) {
                Some((name, off2)) => {
                    assert(0 <= off2 <= s.len()) by {
                        if flag_name(fl) {
                            lemma_find_zero(s.skip(off1));
                        }
                    }
                    match parse_zstr_at(s, off2) {
                        Some((b, end)) => {
                            lemma_zstr_terminator(s, off2, b, end);
                        },
                        None => {
                            assert(false);
                        },
                    }
                },
                None => {
                    assert(false);
                },
            }
        },
        None => {
            assert(false);
        },
    }
}

/// Every compression-method byte outside the known codes decodes to
/// `Unknown`, never to an error.
pub proof fn lemma_unknown_method(b: u8)
    requires
        b > 0x08,
    ensures
        method_of(b) == CompressionMethod::Unknown,
{
}

/// Every operating-system byte outside the known codes decodes to
/// `Unknown`, never to an error.
pub proof fn lemma_unknown_os(b: u8)
    requires
        b > 0x0d,
    ensures
        os_of(b) == OperatingSystem::Unknown,
{
}

/// The method and operating-system bytes never decide acceptance:
/// replacing both changes nothing about the outcome but the decoded
/// method and system themselves. In particular an unrecognized code in
/// either position cannot turn a decodable header into an error.
pub proof fn lemma_codes_never_reject(s: Seq<u8>, b2: u8, b9: u8)
    requires
        s.len() >= 10,
    ensures
        ({
            let t = s.update(2, b2).update(9, b9);
            match parse(s) {
                ParseOutcome::Parsed(p, n) => parse(t) == ParseOutcome::Parsed(
                    ParsedMember {
                        compression_method: method_of(b2),
                        operating_system: os_of(b9),
                        ..p
                    },
                    n,
                ),
                outcome => parse(t) == outcome,
            }
        }),
{
    let t = s.update(2, b2).update(9, b9);
    assert(t.len() == s.len());
    assert(t[0] == s[0] && t[1] == s[1] && t[3] == s[3]);
    assert(t[4] == s[4] && t[5] == s[5] && t[6] == s[6] && t[7] == s[7] && t[8] == s[8]);
    let fl = s[3];
    assert(parse_opt_extra(fl, t, 10) == parse_opt_extra(fl, s, 10)) by {
        if flag_extra(fl) && 14 <= s.len() {
            assert(t[10] == s[10] && t[11] == s[11] && t[12] == s[12] && t[13] == s[13]);
            let l = le16(s[12], s[13]) as int;
            if 14 + l <= s.len() {
                assert(t.subrange(14, 14 + l) =~= s.subrange(14, 14 + l));
            }
        }
    }
    match parse_opt_extra(fl, s, 10) {
        Some((extra, off1)) => {
            assert(10 <= off1 <= s.len());
            assert(t.skip(off1) =~= s.skip(off1));
            assert(parse_opt_zstr(flag_name(fl), t, off1) == parse_opt_zstr(
                flag_name(fl),
                s,
                off1,
            )) by {
                let i = find_zero(s.skip(off1));
                if flag_name(fl) && i >= 0 {
                    lemma_find_zero(s.skip(off1));
                    assert(t.subrange(off1, off1 + i) =~= s.subrange(off1, off1 + i));
                }
            }
            match parse_opt_zstr(flag_name(fl), s, off1) {
                Some((name, off2)) => {
                    assert(off1 <= off2 <= s.len()) by {
                        if flag_name(fl) {
                            lemma_find_zero(s.skip(off1));
                        }
                    }
                    assert(t.skip(off2) =~= s.skip(off2));
                    assert(parse_opt_zstr(flag_comment(fl), t, off2) == parse_opt_zstr(
                        flag_comment(fl),
                        s,
                        off2,
                    )) by {
                        let i = find_zero(s.skip(off2));
                        if flag_comment(fl) && i >= 0 {
                            lemma_find_zero(s.skip(off2));
                            assert(t.subrange(off2, off2 + i) =~= s.subrange(off2, off2 + i));
                        }
                    }
                    match parse_opt_zstr(flag_comment(fl), s, off2) {
                        Some((comment, off3)) => {
                            if flag_hcrc(fl) && off3 + 2 <= s.len() {
                                assert(t[off3] == s[off3] && t[off3 + 1] == s[off3 + 1]);
                            }
                            assert(parse_opt_crc(fl, t, off3) == parse_opt_crc(fl, s, off3));
                        },
                        None => {},
                    }
                },
                None => {},
            }
        },
        None => {},
    }
}

/// A value in little-endian bytes, two of them.
pub open spec fn encode_u16(v: u16) -> Seq<u8> {
    seq![(v % 0x100) as u8, (v / 0x100) as u8]
}

/// A value in little-endian bytes, four of them.
pub open spec fn encode_u32(v: u32) -> Seq<u8> {
    seq![
        (v % 0x100) as u8,
        ((v / 0x100) % 0x100) as u8,
        ((v / 0x1_0000) % 0x100) as u8,
        ((v / 0x100_0000) % 0x100) as u8,
    ]
}

/// The byte a compression method is written as; `Unknown` keeps the code
/// no known method claims.
pub open spec fn method_byte(m: CompressionMethod) -> u8 {
    match m {
        CompressionMethod::Reserved0 => 0x00,
        CompressionMethod::Reserved1 => 0x01,
        CompressionMethod::Reserved2 => 0x02,
        CompressionMethod::Reserved3 => 0x03,
        CompressionMethod::Reserved4 => 0x04,
        CompressionMethod::Reserved5 => 0x05,
        CompressionMethod::Reserved6 => 0x06,
        CompressionMethod::Reserved7 => 0x07,
        CompressionMethod::Deflate => 0x08,
        CompressionMethod::Unknown => 0xff,
    }
}

/// The byte an operating system is written as; `Unknown` keeps the code
/// no known system claims.
pub open spec fn os_byte(o: OperatingSystem) -> u8 {
    match o {
        OperatingSystem::Fat => 0x00,
        OperatingSystem::Amiga => 0x01,
        OperatingSystem::Vms => 0x02,
        OperatingSystem::Unix => 0x03,
        OperatingSystem::VmCms => 0x04,
        OperatingSystem::Atari => 0x05,
        OperatingSystem::Hpfs => 0x06,
        OperatingSystem::Macintosh => 0x07,
        OperatingSystem::ZSystem => 0x08,
        OperatingSystem::CPM => 0x09,
        OperatingSystem::Top20 => 0x0a,
        OperatingSystem::Ntfs => 0x0b,
        OperatingSystem::QDos => 0x0c,
        OperatingSystem::AcornRiscOS => 0x0d,
        OperatingSystem::Unknown => 0xff,
    }
}

/// The extra block on the wire, or nothing.
pub open spec fn encode_extra(e: Option<ExtraView>) -> Seq<u8> {
    match e {
        Option::None => Seq::empty(),
        Option::Some(ev) => seq![ev.subid1, ev.subid2] + encode_u16(ev.length) + ev.data,
    }
}

/// A zero-terminated string field on the wire, or nothing.
pub open spec fn encode_zstr(b: Option<Seq<u8>>) -> Seq<u8> {
    match b {
        Option::None => Seq::empty(),
        Option::Some(bs) => bs + seq![0u8],
    }
}

/// The header checksum on the wire, or nothing.
pub open spec fn encode_crc(c: Option<u16>) -> Seq<u8> {
    match c {
        Option::None => Seq::empty(),
        Option::Some(v) => encode_u16(v),
    }
}

/// One member header on the wire: the ten fixed bytes, then each
/// optional field its flag announces, in the fixed order.
pub open spec fn encode_member(p: ParsedMember) -> Seq<u8> {
    seq![MAGIC1, MAGIC2, method_byte(p.compression_method), p.flags] + encode_u32(
        p.modification_time,
    ) + seq![p.extra_flags, os_byte(p.operating_system)] + encode_extra(p.extra) + encode_zstr(
        p.name_bytes,
    ) + encode_zstr(p.comment_bytes) + encode_crc(p.crc16)
}

/// A header that can be written at all: each optional field present
/// exactly when its flag bit says so, the extra payload as long as its
/// length field, and no stray zero byte inside either string field.
pub open spec fn wf_parsed(p: ParsedMember) -> bool {
    &&& (p.extra is Some <==> flag_extra(p.flags))
    &&& (p.name_bytes is Some <==> flag_name(p.flags))
    &&& (p.comment_bytes is Some <==> flag_comment(p.flags))
    &&& (p.crc16 is Some <==> flag_hcrc(p.flags))
    &&& (p.extra matches Some(e) ==> e.data.len() == e.length)
    &&& (p.name_bytes matches Some(b) ==> forall|j: int| 0 <= j < b.len() ==> b[j] != 0)
    &&& (p.comment_bytes matches Some(b) ==> forall|j: int| 0 <= j < b.len() ==> b[j] != 0)
}

/// Round trip: writing any well-formed header and reading it back — with
/// any payload following it — reproduces every field exactly, the extra
/// payload and the string bytes included, and consumes exactly the
/// header's own bytes, leaving the cursor on the first payload byte.
#[verifier::rlimit(100)]
pub proof fn lemma_encode_round_trip(p: ParsedMember, rest: Seq<u8>)
    requires
        wf_parsed(p),
    ensures
        parse(encode_member(p) + rest) == ParseOutcome::Parsed(p, encode_member(p).len() as int),
{
    let e = encode_member(p);
    let s = e + rest;
    let fixed = seq![MAGIC1, MAGIC2, method_byte(p.compression_method), p.flags] + encode_u32(
        p.modification_time,
    ) + seq![p.extra_flags, os_byte(p.operating_system)];
    assert(fixed.len() == 10);
    let ex = encode_extra(p.extra);
    let nm = encode_zstr(p.name_bytes);
    let cm = encode_zstr(p.comment_bytes);
    let cr = encode_crc(p.crc16);
    assert(e =~= fixed + ex + nm + cm + cr);
    let off1 = 10 + ex.len() as int;
    let off2 = off1 + nm.len() as int;
    let off3 = off2 + cm.len() as int;
    let off4 = off3 + cr.len() as int;
    assert(e.len() == off4);
    assert(s.len() >= 10);
    assert(s[0] == MAGIC1 && s[1] == MAGIC2);
    assert(s[2] == method_byte(p.compression_method));
    assert(s[3] == p.flags);
    assert(method_of(s[2]) == p.compression_method);
    assert(os_of(s[9]) == p.operating_system);
    assert(le32(s[4], s[5], s[6], s[7]) == p.modification_time) by {
        let v = p.modification_time;
        assert(v == (v % 0x100) + 0x100 * ((v / 0x100) % 0x100) + 0x1_0000 * ((v / 0x1_0000)
            % 0x100) + 0x100_0000 * ((v / 0x100_0000) % 0x100));
    }
    assert(s[8] == p.extra_flags);

    assert(parse_opt_extra(p.flags, s, 10) == Some((p.extra, off1))) by {
        match p.extra {
            Option::Some(ev) => {
                assert(s[10] == ev.subid1 && s[11] == ev.subid2);
                assert(s[12] == (ev.length % 0x100) as u8 && s[13] == (ev.length / 0x100) as u8);
                assert(le16(s[12], s[13]) == ev.length);
                assert(s.subrange(14, 14 + ev.data.len() as int) =~= ev.data);
            },
            Option::None => {},
        }
    }

    assert(parse_opt_zstr(flag_name(p.flags), s, off1) == Some((p.name_bytes, off2))) by {
        match p.name_bytes {
            Option::Some(b) => {
                lemma_zstr_encode(s, off1, b);
            },
            Option::None => {},
        }
    }

    assert(parse_opt_zstr(flag_comment(p.flags), s, off2) == Some((p.comment_bytes, off3))) by {
        match p.comment_bytes {
            Option::Some(b) => {
                lemma_zstr_encode(s, off2, b);
            },
            Option::None => {},
        }
    }

    assert(parse_opt_crc(p.flags, s, off3) == Some((p.crc16, off4))) by {
        match p.crc16 {
            Option::Some(v) => {
                assert(s[off3] == (v % 0x100) as u8 && s[off3 + 1] == (v / 0x100) as u8);
                assert(le16(s[off3], s[off3 + 1]) == v);
            },
            Option::None => {},
        }
    }
}

/// A string field laid down with its terminator parses back to exactly
/// its own bytes, with the cursor moved past the terminator.
proof fn lemma_zstr_encode(s: Seq<u8>, off: int, b: Seq<u8>)
    requires
        0 <= off,
        off + b.len() < s.len(),
        forall|j: int| 0 <= j < b.len() ==> b[j] != 0,
        forall|j: int| 0 <= j < b.len() ==> s[off + j] == b[j],
        s[off + b.len()] == 0,
    ensures
        parse_zstr_at(s, off) == Some((b, off + b.len() + 1)),
{
    let t = s.skip(off);
    assert forall|j: int| 0 <= j < b.len() implies t[j] != 0 by {
        assert(s[off + j] == b[j]);
        assert(b[j] != 0);
        assert(t[j] == s[off + j]);
    }
    assert(t[b.len() as int] == 0);
    lemma_find_zero_at(t, b.len() as int);
    assert(s.subrange(off, off + b.len()) =~= b);
}

} // verus!
