//! Bidirectional codec for fixed-format network packet headers.
//!
//! Each header type can be parsed from a byte buffer, serialized back into
//! its canonical big-endian byte representation, and stripped off a buffer
//! to expose the remaining payload without a full field decode.

use vstd::prelude::*;

pub mod bytes;
pub mod l2;
pub mod l3;
pub mod packet_writer;

verus! {

/// Failure raised by decoding, stripping or encoding a header.
///
/// Every failure is recoverable by the caller; no operation of this crate
/// aborts the process on bad input.
#[derive(Clone, Copy, Debug, PartialEq, Eq, Structural)]
pub enum ConvError {
    /// The buffer is shorter than the minimum bytes required for a field
    /// or region.
    InsufficientLength,
    /// A derived quantity (such as a computed options length) is invalid:
    /// negative, or in excess of the available buffer.
    MalformedHeader,
    /// A closed-enumeration field holds a value outside its declared set.
    UnsupportedValue,
}

impl ConvError {
    /// A short human-readable description of the failure.
    pub fn description(&self) -> (r: &'static str)
        ensures
            (match self {
                ConvError::InsufficientLength => r@ =~= "buffer too short for header"@,
                ConvError::MalformedHeader => r@ =~= "malformed header"@,
                ConvError::UnsupportedValue => r@ =~= "unsupported enumeration value"@,
            }),
    {
        match self {
            ConvError::InsufficientLength => "buffer too short for header",
            ConvError::MalformedHeader => "malformed header",
            ConvError::UnsupportedValue => "unsupported enumeration value",
        }
    }
}

/// The uniform codec contract every concrete header type implements.
///
/// A header type supplies a mathematical model of itself (its view), a
/// well-formedness condition on that model, and spec-level encode, decode
/// and strip functions; the three executable operations are then pinned to
/// those spec functions exactly.
pub trait ParseOps: View + Sized {
    /// Whether a model value is a syntactically valid header record.
    spec fn model_wf(m: Self::V) -> bool;

    /// The canonical byte representation of a well-formed model value.
    spec fn model_encode(m: Self::V) -> Seq<u8>;

    /// What decoding a byte sequence yields: a model value or a failure.
    spec fn model_decode(s: Seq<u8>) -> Result<Self::V, ConvError>;

    /// What stripping this header off a byte sequence yields: the payload
    /// bytes that follow the header, or a failure.
    spec fn model_strip(s: Seq<u8>) -> Result<Seq<u8>, ConvError>;

    /// Serialize the header into its canonical byte sequence.
    fn to_bytes(self) -> (r: Result<Vec<u8>, ConvError>)
        requires
            Self::model_wf(self@),
        ensures
            r matches Ok(v) && v@ == Self::model_encode(self@),
    ;

    /// Parse a header from the front of `buf`; trailing bytes are ignored.
    fn from_bytes(buf: &[u8]) -> (r: Result<Self, ConvError>)
        ensures
            (match (r, Self::model_decode(buf@)) {
                (Ok(h), Ok(m)) => h@ == m && Self::model_wf(h@),
                (Err(e1), Err(e2)) => e1 == e2,
                _ => false,
            }),
    ;

    /// Skip the header's bytes without decoding its fields and return a
    /// copy of the remaining payload.
    fn strip_header(buf: &[u8]) -> (r: Result<Vec<u8>, ConvError>)
        ensures
            (match (r, Self::model_strip(buf@)) {
                (Ok(p), Ok(m)) => p@ == m,
                (Err(e1), Err(e2)) => e1 == e2,
                _ => false,
            }),
    ;
}

} // verus!
