//! Identifiers derived from a type signature: a name-based scheme over SHA-1 with a fixed
//! namespace, version 5 and the standard variant, whose first field carries the
//! signature's first byte.
use vstd::prelude::*;
use crate::guid::Guid;

verus! {

/// The SHA-1 digest of `data`, 20 bytes.
pub uninterp spec fn sha1_of(data: Seq<u8>) -> Seq<u8>;

/// Relies on const_sha1::sha1 and Digest::as_bytes: the SHA-1 digest of `data` as 20
/// bytes, a function of the bytes alone. The message length is counted in bits in a
/// `u64`, hence the bound on the length.
#[verifier::external_body]
fn sha1_digest(data: &[u8]) -> (r: [u8; 20])
    requires
        data@.len() < 0x2000_0000_0000_0000,
    ensures
        r@ == sha1_of(data@),
{
    const_sha1::sha1(data).as_bytes()
}

/// The namespace that prefixes every signature before it is hashed.
pub open spec fn namespace() -> Seq<u8> {
    seq![
        0x11u8, 0xf4, 0x7a, 0xd5, 0x7b, 0x73, 0x42, 0xc0, 0xab, 0xae, 0x87, 0x8b, 0x1e, 0x16,
        0xad, 0xee,
    ]
}

/// The first byte of `s`, or 0 when `s` is empty.
pub open spec fn first_byte(s: Seq<u8>) -> u8 {
    if s.len() > 0 {
        s[0]
    } else {
        0
    }
}

/// `g` is the identifier built from the first signature byte `first` and the 20-byte
/// digest `d`: bytes 4 to 15 of the digest, big-endian, with the version nibble of
/// `data3` set to 5 and the two top bits of `data4[0]` set to `10`.
pub open spec fn built_from_digest(first: u8, d: Seq<u8>, g: Guid) -> bool {
    &&& g.data1 == first as u32
    &&& g.data2 == ((d[4] as u16) << 8u16) | (d[5] as u16)
    &&& g.data3 == (((((d[6] as u16) << 8u16) | (d[7] as u16)) & 0x0fffu16) | 0x5000u16)
    &&& g.data4[0] == (d[8] & 0x3fu8) | 0x80u8
    &&& forall|i: int| 1 <= i < 8 ==> #[trigger] g.data4[i] == d[8 + i]
}

/// The identifier that the signature `s` yields.
pub open spec fn from_signature_spec(s: Seq<u8>, g: Guid) -> bool {
    built_from_digest(first_byte(s), sha1_of(namespace() + s), g)
}

/// An identifier built from a digest carries the version-5 nibble in `data3` and the
/// standard variant bits `10` at the top of `data4[0]`.
pub proof fn lemma_version_variant(first: u8, d: Seq<u8>, g: Guid)
    requires
        d.len() == 20,
        built_from_digest(first, d, g),
    ensures
        g.data3 >> 12u16 == 5,
        g.data4[0] >> 6u8 == 2,
{
    let (a, b, c) = (d[6], d[7], d[8]);
    assert((((((a as u16) << 8u16) | (b as u16)) & 0x0fffu16) | 0x5000u16) >> 12u16 == 5)
        by (bit_vector);
    assert(((c & 0x3fu8) | 0x80u8) >> 6u8 == 2) by (bit_vector);
}

/// Deriving is deterministic: any two identifiers that one signature yields are equal,
/// so repeated calls of `Guid::from_signature` on the same bytes agree.
pub proof fn lemma_from_signature_deterministic(s: Seq<u8>, g1: Guid, g2: Guid)
    requires
        from_signature_spec(s, g1),
        from_signature_spec(s, g2),
    ensures
        g1 == g2,
{
    assert(g1.data4 =~= g2.data4);
}

impl Guid {
    /// The identifier built from the first signature byte `first` and the SHA-1 digest
    /// `digest` of the namespace followed by the signature.
    pub fn from_digest(first: u8, digest: [u8; 20]) -> (r: Guid)
        ensures
            built_from_digest(first, digest@, r),
    {
        let data2 = ((digest[4] as u16) << 8u16) | (digest[5] as u16);
        let data3 = ((((digest[6] as u16) << 8u16) | (digest[7] as u16)) & 0x0fffu16) | 0x5000u16;
        let data4: [u8; 8] = [
            (digest[8] & 0x3fu8) | 0x80u8,
            digest[9],
            digest[10],
            digest[11],
            digest[12],
            digest[13],
            digest[14],
            digest[15],
        ];
        Guid { data1: first as u32, data2, data3, data4 }
    }

    /// The identifier of a type given by its signature: the SHA-1 digest of the namespace
    /// followed by `signature` supplies all but the first field, which is the first byte
    /// of `signature` (0 for an empty one). The same signature always gives the same
    /// identifier.
    pub fn from_signature(signature: &[u8]) -> (r: Guid)
        requires
            signature@.len() < 0x1fff_ffff_ffff_ff00,
        ensures
            from_signature_spec(signature@, r),
            r.data3 >> 12u16 == 5,
            r.data4[0] >> 6u8 == 2,
            signature@.len() > 0 ==> r.data1 == signature@[0] as u32,
    {
        let ns: [u8; 16] = [
            0x11, 0xf4, 0x7a, 0xd5, 0x7b, 0x73, 0x42, 0xc0, 0xab, 0xae, 0x87, 0x8b, 0x1e, 0x16,
            0xad, 0xee,
        ];
        let mut data: Vec<u8> = Vec::new();
        let mut i: usize = 0;
        while i < 16
            invariant
                0 <= i <= 16,
                ns@ == namespace(),
                data@ == namespace().subrange(0, i as int),
            decreases 16 - i,
        {
            data.push(ns[i]);
            i = i + 1;
            assert(data@ =~= namespace().subrange(0, i as int));
        }
        let mut j: usize = 0;
        while j < signature.len()
            invariant
                0 <= j <= signature@.len(),
                data@ == namespace() + signature@.subrange(0, j as int),
            decreases signature@.len() - j,
        {
            data.push(signature[j]);
            j = j + 1;
            assert(data@ =~= namespace() + signature@.subrange(0, j as int));
        }
        assert(signature@.subrange(0, signature@.len() as int) =~= signature@);
        let first: u8 = if signature.len() > 0 {
            signature[0]
        } else {
            0
        };
        let digest = sha1_digest(data.as_slice());
        let r = Guid::from_digest(first, digest);
        proof {
            lemma_version_variant(first, digest@, r);
        }
        r
    }
}

} // verus!
