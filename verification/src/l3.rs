//! The internetwork-layer header: packed sub-byte fields and a trailing
//! options region whose length is derived from the header-length field.

use vstd::prelude::*;
use crate::bytes::{
    be16_hi, be16_lo, be16_join, be32_b0, be32_b1, be32_b2, be32_b3, be32_join, eq_bytes,
    read_be16, read_be32, lemma_be16_roundtrip, lemma_be32_roundtrip,
};
use crate::packet_writer::PacketWriter;
use crate::{ConvError, ParseOps};
use vstd::slice::{slice_index_get, slice_subrange, slice_to_vec};

verus! {

/// Minimum encoded size of this header in bytes: 5 words of 4 bytes and
/// an empty options region.
pub const IP_MIN_HDR_LEN: usize = 20;

/// A decoded internetwork-layer header.  The options region is copied out
/// of the input buffer, so the record does not borrow from it.
#[derive(Debug)]
pub struct IPv4Hdr {
    pub version: u8,
    pub hdr_length: u8,
    pub dscp: u8,
    pub ecn: u8,
    pub pk_length: u16,
    pub ident: u16,
    pub do_not_fragment: bool,
    pub more_packets: bool,
    pub packet_offset: u16,
    pub ttl: u8,
    pub proto: u8,
    pub checksum: u16,
    pub source_ip: u32,
    pub dest_ip: u32,
    pub options: Vec<u8>,
}

/// Mathematical model of an internetwork-layer header.
#[verifier::ext_equal]
pub struct IPv4HdrV {
    pub version: u8,
    pub hdr_length: u8,
    pub dscp: u8,
    pub ecn: u8,
    pub pk_length: u16,
    pub ident: u16,
    pub do_not_fragment: bool,
    pub more_packets: bool,
    pub packet_offset: u16,
    pub ttl: u8,
    pub proto: u8,
    pub checksum: u16,
    pub source_ip: u32,
    pub dest_ip: u32,
    pub options: Seq<u8>,
}

impl View for IPv4Hdr {
    type V = IPv4HdrV;

    open spec fn view(&self) -> IPv4HdrV {
        IPv4HdrV {
            version: self.version,
            hdr_length: self.hdr_length,
            dscp: self.dscp,
            ecn: self.ecn,
            pk_length: self.pk_length,
            ident: self.ident,
            do_not_fragment: self.do_not_fragment,
            more_packets: self.more_packets,
            packet_offset: self.packet_offset,
            ttl: self.ttl,
            proto: self.proto,
            checksum: self.checksum,
            source_ip: self.source_ip,
            dest_ip: self.dest_ip,
            options: self.options@,
        }
    }
}

/// A well-formed header: every packed sub-field fits its bit width, the
/// header length is in the legal range of 5 to 15 words, and the options
/// region holds exactly the bytes the header length calls for.  A header
/// length of exactly 5 words carries an empty options sequence.
pub open spec fn ip_wf(m: IPv4HdrV) -> bool {
    &&& m.version < 16
    &&& 5 <= m.hdr_length <= 15
    &&& m.dscp < 64
    &&& m.ecn < 4
    &&& m.packet_offset < 0x2000
    &&& m.options.len() == 4 * m.hdr_length - 20
}

/// The 16-bit flags/offset word: do-not-fragment at bit 14, more-packets
/// at bit 13, fragment offset in the low 13 bits.
pub open spec fn ip_flags_word(m: IPv4HdrV) -> u16 {
    ((if m.do_not_fragment {
        0x4000u16
    } else {
        0u16
    }) | (if m.more_packets {
        0x2000u16
    } else {
        0u16
    })) | m.packet_offset
}

/// Canonical byte layout: version and header length packed in the first
/// byte, service bits in the second, then the fixed 16- and 32-bit fields
/// in network byte order, then the raw options bytes.
pub open spec fn ip_encode(m: IPv4HdrV) -> Seq<u8> {
    seq![
        (m.version << 4) | m.hdr_length,
        (m.dscp << 2) | m.ecn,
        be16_hi(m.pk_length),
        be16_lo(m.pk_length),
        be16_hi(m.ident),
        be16_lo(m.ident),
        be16_hi(ip_flags_word(m)),
        be16_lo(ip_flags_word(m)),
        m.ttl,
        m.proto,
        be16_hi(m.checksum),
        be16_lo(m.checksum),
        be32_b0(m.source_ip),
        be32_b1(m.source_ip),
        be32_b2(m.source_ip),
        be32_b3(m.source_ip),
        be32_b0(m.dest_ip),
        be32_b1(m.dest_ip),
        be32_b2(m.dest_ip),
        be32_b3(m.dest_ip),
    ] + m.options
}

/// Decoding reads the fixed 20-byte prefix, splits the packed sub-fields,
/// and slices the options region whose length the header-length field
/// derives.  A header length under 5 words, or one calling for more bytes
/// than the buffer holds, is a malformed header; trailing payload bytes
/// are ignored.
pub open spec fn ip_decode(s: Seq<u8>) -> Result<IPv4HdrV, ConvError> {
    if s.len() < 20 {
        Err(ConvError::InsufficientLength)
    } else if (s[0] & 0x0f) < 5 || s.len() < 4 * (s[0] & 0x0f) {
        Err(ConvError::MalformedHeader)
    } else {
        Ok(
            IPv4HdrV {
                version: s[0] >> 4,
                hdr_length: s[0] & 0x0f,
                dscp: s[1] >> 2,
                ecn: s[1] & 0x03,
                pk_length: be16_join(s[2], s[3]),
                ident: be16_join(s[4], s[5]),
                do_not_fragment: be16_join(s[6], s[7]) & 0x4000 == 0x4000,
                more_packets: be16_join(s[6], s[7]) & 0x2000 == 0x2000,
                packet_offset: be16_join(s[6], s[7]) & 0x1fff,
                ttl: s[8],
                proto: s[9],
                checksum: be16_join(s[10], s[11]),
                source_ip: be32_join(s[12], s[13], s[14], s[15]),
                dest_ip: be32_join(s[16], s[17], s[18], s[19]),
                options: s.subrange(20, 4 * (s[0] & 0x0f)),
            },
        )
    }
}

/// Stripping reads only the first byte, computes the header length in
/// bytes, and yields everything past it.
pub open spec fn ip_strip(s: Seq<u8>) -> Result<Seq<u8>, ConvError> {
    if s.len() < 20 {
        Err(ConvError::InsufficientLength)
    } else if (s[0] & 0x0f) < 5 {
        Err(ConvError::MalformedHeader)
    } else if s.len() < 4 * (s[0] & 0x0f) {
        Err(ConvError::InsufficientLength)
    } else {
        Ok(s.subrange(4 * (s[0] & 0x0f), s.len() as int))
    }
}

impl ParseOps for IPv4Hdr {
    open spec fn model_wf(m: IPv4HdrV) -> bool {
        ip_wf(m)
    }

    open spec fn model_encode(m: IPv4HdrV) -> Seq<u8> {
        ip_encode(m)
    }

    open spec fn model_decode(s: Seq<u8>) -> Result<IPv4HdrV, ConvError> {
        ip_decode(s)
    }

    open spec fn model_strip(s: Seq<u8>) -> Result<Seq<u8>, ConvError> {
        ip_strip(s)
    }

    fn to_bytes(self) -> (r: Result<Vec<u8>, ConvError>) {
        let mut pw = PacketWriter::new();
        pw.write_u8(((self.version & 0x0f) << 4) | (self.hdr_length & 0x0f))?;
        pw.write_u8(((self.dscp & 0x3f) << 2) | (self.ecn & 0x03))?;
        pw.write_u16(self.pk_length)?;
        pw.write_u16(self.ident)?;
        let dnf_bit: u16 = if self.do_not_fragment {
            0x4000
        } else {
            0
        };
        let mp_bit: u16 = if self.more_packets {
            0x2000
        } else {
            0
        };
        pw.write_u16((dnf_bit | mp_bit) | (self.packet_offset & 0x1fff))?;
        pw.write_u8(self.ttl)?;
        pw.write_u8(self.proto)?;
        pw.write_u16(self.checksum)?;
        pw.write_u32(self.source_ip)?;
        pw.write_u32(self.dest_ip)?;
        pw.write_bytes(self.options.as_slice())?;
        proof {
            let v = self.version;
            let h = self.hdr_length;
            let d = self.dscp;
            let e = self.ecn;
            let po = self.packet_offset;
            assert(((v & 0x0f) << 4) | (h & 0x0f) == (v << 4) | h) by (bit_vector)
                requires
                    v < 16,
                    h < 16,
            ;
            assert(((d & 0x3f) << 2) | (e & 0x03) == (d << 2) | e) by (bit_vector)
                requires
                    d < 64,
                    e < 4,
            ;
            assert(po & 0x1fff == po) by (bit_vector)
                requires
                    po < 0x2000,
            ;
            assert(pw@ =~= ip_encode(self@));
        }
        Ok(pw.get_result())
    }

    fn from_bytes(buf: &[u8]) -> (r: Result<IPv4Hdr, ConvError>) {
        if buf.len() < IP_MIN_HDR_LEN {
            return Err(ConvError::InsufficientLength);
        }
        let b0 = *slice_index_get(buf, 0);
        let hdr_length = b0 & 0x0f;
        proof {
            assert(b0 & 0x0f <= 15) by (bit_vector);
        }
        let hdr_bytes = (hdr_length as usize) * 4;
        if hdr_length < 5 || buf.len() < hdr_bytes {
            return Err(ConvError::MalformedHeader);
        }
        let b1 = *slice_index_get(buf, 1);
        let flags_and_offset = read_be16(buf, 6);
        let h = IPv4Hdr {
            version: b0 >> 4,
            hdr_length,
            dscp: b1 >> 2,
            ecn: b1 & 0x03,
            pk_length: read_be16(buf, 2),
            ident: read_be16(buf, 4),
            do_not_fragment: flags_and_offset & 0x4000 == 0x4000,
            more_packets: flags_and_offset & 0x2000 == 0x2000,
            packet_offset: flags_and_offset & 0x1fff,
            ttl: *slice_index_get(buf, 8),
            proto: *slice_index_get(buf, 9),
            checksum: read_be16(buf, 10),
            source_ip: read_be32(buf, 12),
            dest_ip: read_be32(buf, 16),
            options: slice_to_vec(slice_subrange(buf, 20, hdr_bytes)),
        };
        proof {
            assert(b0 >> 4 < 16) by (bit_vector);
            assert(b1 >> 2 < 64) by (bit_vector);
            assert(b1 & 0x03 < 4) by (bit_vector);
            assert(flags_and_offset & 0x1fff < 0x2000) by (bit_vector);
            assert(h@ =~= ip_decode(buf@)->Ok_0);
        }
        Ok(h)
    }

    fn strip_header(buf: &[u8]) -> (r: Result<Vec<u8>, ConvError>) {
        if buf.len() < IP_MIN_HDR_LEN {
            return Err(ConvError::InsufficientLength);
        }
        let b0 = *slice_index_get(buf, 0);
        let hdr_length = b0 & 0x0f;
        if hdr_length < 5 {
            return Err(ConvError::MalformedHeader);
        }
        proof {
            assert(b0 & 0x0f <= 15) by (bit_vector);
        }
        let hdr_bytes = (hdr_length as usize) * 4;
        if buf.len() < hdr_bytes {
            return Err(ConvError::InsufficientLength);
        }
        Ok(slice_to_vec(slice_subrange(buf, hdr_bytes, buf.len())))
    }
}

/// Trailing bytes beyond the header are ignored by decode: a well-formed
/// encoded header followed by any payload decodes to the header itself.
pub proof fn lemma_ip_decode_ignores_trailing(m: IPv4HdrV, p: Seq<u8>)
    requires
        ip_wf(m),
    ensures
        ip_decode(ip_encode(m) + p) == Ok::<IPv4HdrV, ConvError>(m),
{
    let enc = ip_encode(m);
    let s = enc + p;
    assert(forall|i: int| 0 <= i < enc.len() ==> s[i] == enc[i]);
    let v = m.version;
    let h = m.hdr_length;
    let d = m.dscp;
    let e = m.ecn;
    let po = m.packet_offset;
    let dnf_bit: u16 = if m.do_not_fragment {
        0x4000
    } else {
        0
    };
    let mp_bit: u16 = if m.more_packets {
        0x2000
    } else {
        0
    };
    let fw = ip_flags_word(m);
    assert(fw == (dnf_bit | mp_bit) | po);
    assert((((v << 4) | h) & 0x0f) == h && (((v << 4) | h) >> 4) == v) by (bit_vector)
        requires
            v < 16,
            h < 16,
    ;
    assert((((d << 2) | e) >> 2) == d && (((d << 2) | e) & 0x03) == e) by (bit_vector)
        requires
            d < 64,
            e < 4,
    ;
    lemma_be16_roundtrip(m.pk_length);
    lemma_be16_roundtrip(m.ident);
    lemma_be16_roundtrip(fw);
    lemma_be16_roundtrip(m.checksum);
    lemma_be32_roundtrip(m.source_ip);
    lemma_be32_roundtrip(m.dest_ip);
    assert({
        &&& (((dnf_bit | mp_bit) | po) & 0x4000 == 0x4000) == (dnf_bit == 0x4000)
        &&& (((dnf_bit | mp_bit) | po) & 0x2000 == 0x2000) == (mp_bit == 0x2000)
        &&& ((dnf_bit | mp_bit) | po) & 0x1fff == po
    }) by (bit_vector)
        requires
            dnf_bit == 0x4000 || dnf_bit == 0,
            mp_bit == 0x2000 || mp_bit == 0,
            po < 0x2000,
    ;
    let dm = ip_decode(s)->Ok_0;
    assert(dm.options =~= m.options);
    assert(dm =~= m);
}

/// Round-trip law: decoding the encoding of any well-formed header gives
/// the header back, and the encoding is exactly `4 * hdr_length` bytes.
pub proof fn lemma_ip_round_trip(m: IPv4HdrV)
    requires
        ip_wf(m),
    ensures
        ip_encode(m).len() == 4 * m.hdr_length,
        ip_decode(ip_encode(m)) == Ok::<IPv4HdrV, ConvError>(m),
{
    lemma_ip_decode_ignores_trailing(m, Seq::<u8>::empty());
    assert(ip_encode(m) + Seq::<u8>::empty() =~= ip_encode(m));
}

/// Strip/decode consistency: stripping a well-formed encoded header
/// followed by arbitrary payload yields exactly the payload, and the
/// bytes consumed equal the encoding's length.
pub proof fn lemma_ip_strip_consistency(m: IPv4HdrV, p: Seq<u8>)
    requires
        ip_wf(m),
    ensures
        ip_strip(ip_encode(m) + p) == Ok::<Seq<u8>, ConvError>(p),
        (ip_encode(m) + p).len() - (ip_strip(ip_encode(m) + p)->Ok_0).len()
            == ip_encode(m).len(),
{
    let s = ip_encode(m) + p;
    let v = m.version;
    let h = m.hdr_length;
    assert(s[0] == (v << 4) | h);
    assert((((v << 4) | h) & 0x0f) == h) by (bit_vector)
        requires
            v < 16,
            h < 16,
    ;
    assert(s.subrange(4 * (s[0] & 0x0f), s.len() as int) =~= p);
}

/// Length floor: on a buffer shorter than the 20-byte minimum, decode and
/// strip both fail with the insufficient-length condition.
pub proof fn lemma_ip_length_floor(s: Seq<u8>)
    requires
        s.len() < 20,
    ensures
        ip_decode(s) == Err::<IPv4HdrV, ConvError>(ConvError::InsufficientLength),
        ip_strip(s) == Err::<Seq<u8>, ConvError>(ConvError::InsufficientLength),
{
}

/// Options length derivation: whenever decoding succeeds the options
/// region holds exactly `4 * hdr_length - 20` bytes, and a header length
/// under 5 words always fails as a malformed header.
pub proof fn lemma_ip_options_length(s: Seq<u8>)
    requires
        s.len() >= 20,
    ensures
        5 <= (s[0] & 0x0f) && 4 * (s[0] & 0x0f) <= s.len() ==> (ip_decode(s) matches Ok(m)
            && m.hdr_length == (s[0] & 0x0f) && m.options.len() == 4 * (s[0] & 0x0f) - 20),
        (s[0] & 0x0f) < 5 ==> ip_decode(s) == Err::<IPv4HdrV, ConvError>(
            ConvError::MalformedHeader,
        ),
{
}

impl PartialEq for IPv4Hdr {
    fn eq(&self, o: &IPv4Hdr) -> (r: bool) {
        let r = self.version == o.version && self.hdr_length == o.hdr_length
            && self.dscp == o.dscp && self.ecn == o.ecn && self.pk_length == o.pk_length
            && self.ident == o.ident && self.do_not_fragment == o.do_not_fragment
            && self.more_packets == o.more_packets && self.packet_offset == o.packet_offset
            && self.ttl == o.ttl && self.proto == o.proto && self.checksum == o.checksum
            && self.source_ip == o.source_ip && self.dest_ip == o.dest_ip
            && eq_bytes(self.options.as_slice(), o.options.as_slice());
        proof {
            if r {
                assert(self@ =~= o@);
            }
        }
        r
    }
}

impl vstd::std_specs::cmp::PartialEqSpecImpl for IPv4Hdr {
    open spec fn obeys_eq_spec() -> bool {
        true
    }

    open spec fn eq_spec(&self, o: &IPv4Hdr) -> bool {
        self@ == o@
    }
}

} // verus!
