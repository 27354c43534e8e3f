use vstd::prelude::*;

verus! {

/// A globally unique identifier: four fields laid out as 4 + 2 + 2 + 8 bytes.
#[derive(Clone, Copy, Debug)]
pub struct Guid {
    pub data1: u32,
    pub data2: u16,
    pub data3: u16,
    pub data4: [u8; 8],
}

/// The 16-byte memory image of `g`: `data1`, `data2` and `data3` little-endian, then the
/// eight bytes of `data4`, with no padding.
pub open spec fn layout_bytes(g: Guid) -> Seq<u8> {
    seq![
        (g.data1 % 256) as u8,
        (g.data1 / 256 % 256) as u8,
        (g.data1 / 65536 % 256) as u8,
        (g.data1 / 16777216) as u8,
        (g.data2 % 256) as u8,
        (g.data2 / 256) as u8,
        (g.data3 % 256) as u8,
        (g.data3 / 256) as u8,
    ] + g.data4@
}

/// Two identifiers with the same memory image are equal, so reading back the bytes of an
/// identifier gives that identifier.
pub proof fn lemma_layout_bytes_injective(g: Guid, h: Guid)
    requires
        layout_bytes(g) == layout_bytes(h),
    ensures
        g == h,
{
    let (a, b) = (layout_bytes(g), layout_bytes(h));
    assert(a[0] == b[0] && a[1] == b[1] && a[2] == b[2] && a[3] == b[3]);
    assert(a[4] == b[4] && a[5] == b[5] && a[6] == b[6] && a[7] == b[7]);
    assert forall|i: int| 0 <= i < 8 implies g.data4[i] == h.data4[i] by {
        assert(a[8 + i] == b[8 + i]);
    }
    assert(g.data4 =~= h.data4);
}

proof fn lemma_le_u32(b0: u32, b1: u32, b2: u32, b3: u32)
    requires
        b0 < 256,
        b1 < 256,
        b2 < 256,
        b3 < 256,
    ensures
        ({
            let x = b0 + b1 * 256 + b2 * 65536 + b3 * 16777216;
            &&& x < 0x1_0000_0000
            &&& x % 256 == b0
            &&& x / 256 % 256 == b1
            &&& x / 65536 % 256 == b2
            &&& x / 16777216 == b3
        }),
{
    assert(b0 + b1 * 256 + b2 * 65536 + b3 * 16777216 < 0x1_0000_0000) by (nonlinear_arith)
        requires
            b0 < 256,
            b1 < 256,
            b2 < 256,
            b3 < 256,
    ;
    let x: u32 = (b0 + b1 * 256 + b2 * 65536 + b3 * 16777216) as u32;
    assert(x == b0 | (b1 << 8u32) | (b2 << 16u32) | (b3 << 24u32)) by (bit_vector)
        requires
            b0 < 256,
            b1 < 256,
            b2 < 256,
            b3 < 256,
            x == b0 + b1 * 256 + b2 * 65536 + b3 * 16777216,
    ;
    assert(x % 256 == b0 && x / 256 % 256 == b1 && x / 65536 % 256 == b2 && x / 16777216 == b3)
        by (bit_vector)
        requires
            b0 < 256,
            b1 < 256,
            b2 < 256,
            b3 < 256,
            x == b0 | (b1 << 8u32) | (b2 << 16u32) | (b3 << 24u32),
    ;
}

impl Guid {
    /// The all-zero identifier, which stands for "no identity".
    pub fn zeroed() -> (r: Guid)
        ensures
            r.data1 == 0,
            r.data2 == 0,
            r.data3 == 0,
            forall|i: int| 0 <= i < 8 ==> r.data4[i] == 0,
    {
        Guid { data1: 0, data2: 0, data3: 0, data4: [0u8, 0, 0, 0, 0, 0, 0, 0] }
    }

    /// An identifier with the given fields, taken as they are.
    pub fn from_values(data1: u32, data2: u16, data3: u16, data4: [u8; 8]) -> (r: Guid)
        ensures
            r == (Guid { data1, data2, data3, data4 }),
    {
        Guid { data1, data2, data3, data4 }
    }

    /// The value that crosses a binary boundary: the identifier itself, whose layout is
    /// the raw 16-byte form.
    pub fn get_abi(&self) -> (r: Guid)
        ensures
            r == *self,
    {
        *self
    }

    /// The place that receives a raw identifier from across a binary boundary: whatever
    /// is written through the returned reference becomes the new value of `self`.
    pub fn set_abi(&mut self) -> (r: &mut Guid)
        ensures
            *r == *old(self),
            *final(self) == *final(r),
    {
        self
    }

    /// The raw 16-byte form, in the layout that crosses a binary boundary.
    pub fn to_bytes(&self) -> (r: [u8; 16])
        ensures
            r@ == layout_bytes(*self),
    {
        let d = self.data4;
        let r: [u8; 16] = [
            (self.data1 % 256) as u8,
            (self.data1 / 256 % 256) as u8,
            (self.data1 / 65536 % 256) as u8,
            (self.data1 / 16777216) as u8,
            (self.data2 % 256) as u8,
            (self.data2 / 256) as u8,
            (self.data3 % 256) as u8,
            (self.data3 / 256) as u8,
            d[0],
            d[1],
            d[2],
            d[3],
            d[4],
            d[5],
            d[6],
            d[7],
        ];
        assert(r@ =~= layout_bytes(*self));
        r
    }

    /// The identifier whose raw 16-byte form is `b`.
    pub fn from_bytes(b: [u8; 16]) -> (r: Guid)
        ensures
            layout_bytes(r) == b@,
    {
        proof {
            lemma_le_u32(b[0] as u32, b[1] as u32, b[2] as u32, b[3] as u32);
            lemma_le_u32(b[4] as u32, b[5] as u32, 0, 0);
            lemma_le_u32(b[6] as u32, b[7] as u32, 0, 0);
        }
        let data1 = b[0] as u32 + (b[1] as u32) * 256 + (b[2] as u32) * 65536 + (b[3] as u32)
            * 16777216;
        let data2 = b[4] as u16 + (b[5] as u16) * 256;
        let data3 = b[6] as u16 + (b[7] as u16) * 256;
        let r = Guid {
            data1,
            data2,
            data3,
            data4: [b[8], b[9], b[10], b[11], b[12], b[13], b[14], b[15]],
        };
        assert(layout_bytes(r) =~= b@);
        r
    }

    /// The three-byte tag `g16` that names this type in runtime type signatures.
    pub fn runtime_signature() -> (r: [u8; 3])
        ensures
            r@ == seq![0x67u8, 0x31u8, 0x36u8],
    {
        [0x67u8, 0x31u8, 0x36u8]
    }
}

impl Default for Guid {
    /// The all-zero identifier.
    fn default() -> (r: Guid)
        ensures
            r == (Guid { data1: 0, data2: 0, data3: 0, data4: r.data4 }),
            forall|i: int| 0 <= i < 8 ==> r.data4[i] == 0,
    {
        Guid::zeroed()
    }
}

impl PartialEq for Guid {
    fn eq(&self, o: &Guid) -> (r: bool) {
        let same = self.data1 == o.data1 && self.data2 == o.data2 && self.data3 == o.data3
            && self.data4[0] == o.data4[0] && self.data4[1] == o.data4[1]
            && self.data4[2] == o.data4[2] && self.data4[3] == o.data4[3]
            && self.data4[4] == o.data4[4] && self.data4[5] == o.data4[5]
            && self.data4[6] == o.data4[6] && self.data4[7] == o.data4[7];
        proof {
            if same {
                assert(self.data4 =~= o.data4);
            }
        }
        same
    }
}

impl vstd::std_specs::cmp::PartialEqSpecImpl for Guid {
    open spec fn obeys_eq_spec() -> bool {
        true
    }

    open spec fn eq_spec(&self, o: &Guid) -> bool {
        *self == *o
    }
}

impl Eq for Guid {
}

} // verus!
