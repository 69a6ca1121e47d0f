//! The version transform: one 64-bit wire integer packs four 16-bit
//! components. Reading the wire integer's eight bytes in big-endian order as
//! `b0..b7`, each consecutive pair `(b0,b1)`, `(b2,b3)`, `(b4,b5)`, `(b6,b7)`
//! is a little-endian 16-bit value: major, minor, patch, developer.

use vstd::prelude::*;

verus! {

/// A game version: four 16-bit components derived from one 64-bit wire
/// integer by a fixed unpacking rule.
#[derive(Debug, Clone, Copy, PartialEq, Eq, Structural)]
pub struct Version {
    /// First component (bytes 0..2 of the big-endian wire integer).
    pub major: u16,
    /// Second component (bytes 2..4).
    pub minor: u16,
    /// Third component (bytes 4..6).
    pub patch: u16,
    /// Fourth component (bytes 6..8).
    pub developer: u16,
}

/// The 64-bit wire integer that carries the four components: each component
/// contributes its low byte first (little-endian pair), and the eight bytes
/// are then read in big-endian order.
pub open spec fn spec_pack(major: u16, minor: u16, patch: u16, developer: u16) -> u64 {
    ((major as u64 & 0xFF) << 56) | (((major as u64) >> 8) << 48)
        | ((minor as u64 & 0xFF) << 40) | (((minor as u64) >> 8) << 32)
        | ((patch as u64 & 0xFF) << 24) | (((patch as u64) >> 8) << 16)
        | ((developer as u64 & 0xFF) << 8) | ((developer as u64) >> 8)
}

/// The first component of the packed wire integer `v`.
pub open spec fn spec_major(v: u64) -> u16 {
    ((((v >> 56) & 0xFF) | (((v >> 48) & 0xFF) << 8)) & 0xFFFF) as u16
}

/// The second component of the packed wire integer `v`.
pub open spec fn spec_minor(v: u64) -> u16 {
    ((((v >> 40) & 0xFF) | (((v >> 32) & 0xFF) << 8)) & 0xFFFF) as u16
}

/// The third component of the packed wire integer `v`.
pub open spec fn spec_patch(v: u64) -> u16 {
    ((((v >> 24) & 0xFF) | (((v >> 16) & 0xFF) << 8)) & 0xFFFF) as u16
}

/// The fourth component of the packed wire integer `v`.
pub open spec fn spec_developer(v: u64) -> u16 {
    ((((v >> 8) & 0xFF) | ((v & 0xFF) << 8)) & 0xFFFF) as u16
}

/// `Version` unpacked from the wire integer `v`.
pub open spec fn spec_unpack(v: u64) -> Version {
    Version {
        major: spec_major(v),
        minor: spec_minor(v),
        patch: spec_patch(v),
        developer: spec_developer(v),
    }
}

impl Version {
    /// Unpack a 64-bit wire integer into its four 16-bit components.
    pub fn unpack(v: u64) -> (r: Version)
        ensures
            r == spec_unpack(v),
    {
        Version {
            major: ((((v >> 56) & 0xFF) | (((v >> 48) & 0xFF) << 8)) & 0xFFFF) as u16,
            minor: ((((v >> 40) & 0xFF) | (((v >> 32) & 0xFF) << 8)) & 0xFFFF) as u16,
            patch: ((((v >> 24) & 0xFF) | (((v >> 16) & 0xFF) << 8)) & 0xFFFF) as u16,
            developer: ((((v >> 8) & 0xFF) | ((v & 0xFF) << 8)) & 0xFFFF) as u16,
        }
    }

    /// Pack the four components back into the 64-bit wire integer.
    pub fn pack(&self) -> (r: u64)
        ensures
            r == spec_pack(self.major, self.minor, self.patch, self.developer),
    {
        ((self.major as u64 & 0xFF) << 56) | (((self.major as u64) >> 8) << 48)
            | ((self.minor as u64 & 0xFF) << 40) | (((self.minor as u64) >> 8) << 32)
            | ((self.patch as u64 & 0xFF) << 24) | (((self.patch as u64) >> 8) << 16)
            | ((self.developer as u64 & 0xFF) << 8) | ((self.developer as u64) >> 8)
    }
}

impl From<u64> for Version {
    /// Unpacking a wire integer, available through the standard conversion.
    fn from(v: u64) -> (r: Version)
        ensures
            r == spec_unpack(v),
    {
        Version::unpack(v)
    }
}

impl vstd::std_specs::convert::FromSpecImpl<u64> for Version {
    open spec fn obeys_from_spec() -> bool {
        true
    }

    open spec fn from_spec(v: u64) -> Version {
        spec_unpack(v)
    }
}

/// Law: unpacking a packed quadruple gives the quadruple back, for every
/// quadruple of 16-bit components.
pub broadcast proof fn lemma_unpack_pack(a: u16, b: u16, c: u16, d: u16)
    ensures
        #![trigger spec_pack(a, b, c, d)]
        spec_unpack(spec_pack(a, b, c, d)) == (Version { major: a, minor: b, patch: c, developer: d }),
{
    assert(spec_major(spec_pack(a, b, c, d)) == a) by (bit_vector);
    assert(spec_minor(spec_pack(a, b, c, d)) == b) by (bit_vector);
    assert(spec_patch(spec_pack(a, b, c, d)) == c) by (bit_vector);
    assert(spec_developer(spec_pack(a, b, c, d)) == d) by (bit_vector);
}

/// Law: packing the four components unpacked from a wire integer gives the
/// wire integer back, for every 64-bit wire integer.
pub proof fn lemma_pack_unpack(v: u64)
    ensures
        spec_pack(spec_major(v), spec_minor(v), spec_patch(v), spec_developer(v)) == v,
{
    assert(spec_pack(spec_major(v), spec_minor(v), spec_patch(v), spec_developer(v)) == v)
        by (bit_vector);
}

} // verus!
