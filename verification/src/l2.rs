//! The link-layer header: two 6-byte hardware addresses and a 2-byte
//! type field drawn from a closed set of protocol constants.

use vstd::prelude::*;
use crate::bytes::{be16_bytes, be16_join, eq_bytes, read_be16, lemma_be16_roundtrip};
use crate::packet_writer::PacketWriter;
use crate::{ConvError, ParseOps};
use vstd::slice::{slice_subrange, slice_to_vec};

verus! {

/// Total encoded size of the link-layer header in bytes.
pub const ETH_HDR_LEN: usize = 14;

/// The raw value of the one declared type constant.
pub const ETH_IPV4_RAW: u16 = 0x0800;

/// Closed-value enumeration for the 2-byte type field.  Conversion from a
/// raw integer is fallible: a value outside the declared set is reported
/// as a recoverable failure, never a process abort.
#[derive(Clone, Copy, Debug, PartialEq, Eq, Structural)]
pub enum EthType {
    IPv4,
}

impl EthType {
    /// The raw integer a variant stands for.
    pub open spec fn spec_raw(self) -> u16 {
        match self {
            EthType::IPv4 => ETH_IPV4_RAW,
        }
    }

    /// The variant a raw integer maps to, if any.
    pub open spec fn spec_from_raw(v: u16) -> Result<EthType, ConvError> {
        if v == ETH_IPV4_RAW {
            Ok(EthType::IPv4)
        } else {
            Err(ConvError::UnsupportedValue)
        }
    }

    /// Convert a variant to its raw integer.
    pub fn as_raw(self) -> (r: u16)
        ensures
            r == self.spec_raw(),
    {
        match self {
            EthType::IPv4 => ETH_IPV4_RAW,
        }
    }

    /// Fallible reverse lookup from a raw integer.
    pub fn from_raw(v: u16) -> (r: Result<EthType, ConvError>)
        ensures
            r == EthType::spec_from_raw(v),
    {
        if v == ETH_IPV4_RAW {
            Ok(EthType::IPv4)
        } else {
            Err(ConvError::UnsupportedValue)
        }
    }
}

/// A decoded link-layer header.  Byte-range fields are copied out of the
/// input buffer, so the record does not borrow from it.
#[derive(Debug)]
pub struct EthHdr {
    pub mac_src: Vec<u8>,
    pub mac_dest: Vec<u8>,
    pub eth_type: EthType,
}

/// Mathematical model of a link-layer header.
#[verifier::ext_equal]
pub struct EthHdrV {
    pub mac_src: Seq<u8>,
    pub mac_dest: Seq<u8>,
    pub eth_type: EthType,
}

impl View for EthHdr {
    type V = EthHdrV;

    open spec fn view(&self) -> EthHdrV {
        EthHdrV { mac_src: self.mac_src@, mac_dest: self.mac_dest@, eth_type: self.eth_type }
    }
}

/// A well-formed header carries exactly 6 bytes per address, so its
/// encoding is exactly 14 bytes.
pub open spec fn eth_wf(m: EthHdrV) -> bool {
    &&& m.mac_src.len() == 6
    &&& m.mac_dest.len() == 6
}

/// Canonical byte layout: source address, destination address, then the
/// type field in network byte order.
pub open spec fn eth_encode(m: EthHdrV) -> Seq<u8> {
    m.mac_src + m.mac_dest + be16_bytes(m.eth_type.spec_raw())
}

/// Decoding splits the buffer into 6 + 6 + 2 bytes and resolves the type
/// field against the closed enumeration; trailing bytes are ignored.
pub open spec fn eth_decode(s: Seq<u8>) -> Result<EthHdrV, ConvError> {
    if s.len() < 14 {
        Err(ConvError::InsufficientLength)
    } else {
        match EthType::spec_from_raw(be16_join(s[12], s[13])) {
            Ok(t) => Ok(
                EthHdrV {
                    mac_src: s.subrange(0, 6),
                    mac_dest: s.subrange(6, 12),
                    eth_type: t,
                },
            ),
            Err(e) => Err(e),
        }
    }
}

/// Stripping skips exactly 14 bytes and yields the rest.
pub open spec fn eth_strip(s: Seq<u8>) -> Result<Seq<u8>, ConvError> {
    if s.len() < 14 {
        Err(ConvError::InsufficientLength)
    } else {
        Ok(s.subrange(14, s.len() as int))
    }
}

impl ParseOps for EthHdr {
    open spec fn model_wf(m: EthHdrV) -> bool {
        eth_wf(m)
    }

    open spec fn model_encode(m: EthHdrV) -> Seq<u8> {
        eth_encode(m)
    }

    open spec fn model_decode(s: Seq<u8>) -> Result<EthHdrV, ConvError> {
        eth_decode(s)
    }

    open spec fn model_strip(s: Seq<u8>) -> Result<Seq<u8>, ConvError> {
        eth_strip(s)
    }

    fn to_bytes(self) -> (r: Result<Vec<u8>, ConvError>) {
        let mut pw = PacketWriter::new();
        pw.write_bytes(self.mac_src.as_slice())?;
        pw.write_bytes(self.mac_dest.as_slice())?;
        pw.write_u16(self.eth_type.as_raw())?;
        proof {
            assert(pw@ =~= eth_encode(self@));
        }
        Ok(pw.get_result())
    }

    fn from_bytes(buf: &[u8]) -> (r: Result<EthHdr, ConvError>) {
        if buf.len() < ETH_HDR_LEN {
            return Err(ConvError::InsufficientLength);
        }
        let raw = read_be16(buf, 12);
        match EthType::from_raw(raw) {
            Ok(t) => {
                let h = EthHdr {
                    mac_src: slice_to_vec(slice_subrange(buf, 0, 6)),
                    mac_dest: slice_to_vec(slice_subrange(buf, 6, 12)),
                    eth_type: t,
                };
                proof {
                    assert(h@ =~= eth_decode(buf@)->Ok_0);
                }
                Ok(h)
            },
            Err(e) => Err(e),
        }
    }

    fn strip_header(buf: &[u8]) -> (r: Result<Vec<u8>, ConvError>) {
        if buf.len() < ETH_HDR_LEN {
            return Err(ConvError::InsufficientLength);
        }
        Ok(slice_to_vec(slice_subrange(buf, ETH_HDR_LEN, buf.len())))
    }
}

/// Trailing bytes beyond the header are ignored by decode: a well-formed
/// encoded header followed by any payload decodes to the header itself.
pub proof fn lemma_eth_decode_ignores_trailing(m: EthHdrV, p: Seq<u8>)
    requires
        eth_wf(m),
    ensures
        eth_decode(eth_encode(m) + p) == Ok::<EthHdrV, ConvError>(m),
{
    let e = eth_encode(m);
    let s = e + p;
    let raw = m.eth_type.spec_raw();
    assert(s[12] == be16_bytes(raw)[0]);
    assert(s[13] == be16_bytes(raw)[1]);
    lemma_be16_roundtrip(raw);
    assert(be16_join(s[12], s[13]) == raw);
    let d = eth_decode(s)->Ok_0;
    assert(d.mac_src =~= m.mac_src);
    assert(d.mac_dest =~= m.mac_dest);
    assert(d =~= m);
}

/// Round-trip law: decoding the encoding of any well-formed header gives
/// the header back, and the encoding is exactly 14 bytes long.
pub proof fn lemma_eth_round_trip(m: EthHdrV)
    requires
        eth_wf(m),
    ensures
        eth_encode(m).len() == 14,
        eth_decode(eth_encode(m)) == Ok::<EthHdrV, ConvError>(m),
{
    lemma_eth_decode_ignores_trailing(m, Seq::<u8>::empty());
    assert(eth_encode(m) + Seq::<u8>::empty() =~= eth_encode(m));
}

/// Strip/decode consistency: stripping a well-formed encoded header
/// followed by arbitrary payload yields exactly the payload, and the
/// bytes consumed equal the encoding's length.
pub proof fn lemma_eth_strip_consistency(m: EthHdrV, p: Seq<u8>)
    requires
        eth_wf(m),
    ensures
        eth_strip(eth_encode(m) + p) == Ok::<Seq<u8>, ConvError>(p),
        (eth_encode(m) + p).len() - (eth_strip(eth_encode(m) + p)->Ok_0).len()
            == eth_encode(m).len(),
{
    let s = eth_encode(m) + p;
    assert(s.subrange(14, s.len() as int) =~= p);
}

/// Length floor: on a buffer shorter than the 14-byte minimum, decode and
/// strip both fail with the insufficient-length condition.
pub proof fn lemma_eth_length_floor(s: Seq<u8>)
    requires
        s.len() < 14,
    ensures
        eth_decode(s) == Err::<EthHdrV, ConvError>(ConvError::InsufficientLength),
        eth_strip(s) == Err::<Seq<u8>, ConvError>(ConvError::InsufficientLength),
{
}

/// Unsupported enumeration value: a type field outside the declared set
/// is reported as a recoverable unsupported-value failure.
pub proof fn lemma_eth_unsupported_value(s: Seq<u8>)
    requires
        s.len() >= 14,
        be16_join(s[12], s[13]) != ETH_IPV4_RAW,
    ensures
        eth_decode(s) == Err::<EthHdrV, ConvError>(ConvError::UnsupportedValue),
{
}

impl PartialEq for EthHdr {
    fn eq(&self, o: &EthHdr) -> (r: bool) {
        let r = eq_bytes(self.mac_src.as_slice(), o.mac_src.as_slice())
            && eq_bytes(self.mac_dest.as_slice(), o.mac_dest.as_slice())
            && self.eth_type == o.eth_type;
        proof {
            if self.mac_src@ == o.mac_src@ && self.mac_dest@ == o.mac_dest@
                && self.eth_type == o.eth_type {
                assert(self@ =~= o@);
            }
        }
        r
    }
}

impl vstd::std_specs::cmp::PartialEqSpecImpl for EthHdr {
    open spec fn obeys_eq_spec() -> bool {
        true
    }

    open spec fn eq_spec(&self, o: &EthHdr) -> bool {
        self@ == o@
    }
}

} // verus!
