//! Signatures `(R, S)` and their fixed-width byte encoding.
use vstd::prelude::*;
use crate::curve::{decode_uncompressed, in_prime_subgroup, uncompressed_valid, Point};
use crate::field::{le_nat, scalar_modulus, ScalarElem};
use crate::Error;

verus! {

/// Length of an encoded signature: two base-field coordinates and a scalar.
pub const SIGNATURE_LEN: usize = 96;

/// A signature: the point `R` and the scalar `S`.
#[derive(Clone, Copy, Debug)]
pub struct Signature {
    r: Point,
    s: ScalarElem,
}

impl View for Signature {
    type V = Seq<u8>;

    /// The encoding: `R`'s x and y, then `S`, each 32 little-endian bytes.
    closed spec fn view(&self) -> Seq<u8> {
        self.r.coords().0 + self.r.coords().1 + self.s@
    }
}

impl PartialEq for Signature {
    fn eq(&self, o: &Signature) -> (r: bool) {
        let e = self.r == o.r && self.s == o.s;
        proof {
            if self.r.coords() == o.r.coords() && self.s@ == o.s@ {
                assert(self.r.coords().0 == o.r.coords().0);
                assert(self@ == o@);
            }
            if self@ == o@ {
                self.r.lemma_coords_len();
                self.s.lemma_len();
                o.r.lemma_coords_len();
                o.s.lemma_len();
                signature_view_parts(*self);
                signature_view_parts(*o);
            }
        }
        e
    }
}

impl vstd::std_specs::cmp::PartialEqSpecImpl for Signature {
    open spec fn obeys_eq_spec() -> bool {
        true
    }

    open spec fn eq_spec(&self, o: &Signature) -> bool {
        self@ == o@
    }
}

proof fn signature_view_parts(g: Signature)
    requires
        g.r.coords().0.len() == 32,
        g.r.coords().1.len() == 32,
        g.s@.len() == 32,
    ensures
        g@.len() == 96,
        g@.subrange(0, 32) == g.r.coords().0,
        g@.subrange(32, 64) == g.r.coords().1,
        g@.subrange(64, 96) == g.s@,
{
    assert(g@.subrange(0, 32) =~= g.r.coords().0);
    assert(g@.subrange(32, 64) =~= g.r.coords().1);
    assert(g@.subrange(64, 96) =~= g.s@);
}

/// Whether bytes are the encoding of a signature: the right length, a point of
/// the prime subgroup, and a canonical scalar.
pub open spec fn signature_bytes_valid(b: Seq<u8>) -> bool {
    b.len() == 96 && uncompressed_valid(b.subrange(0, 64)) && le_nat(b.subrange(64, 96))
        < scalar_modulus()
}

/// What decoding `b` gives: the same encoding back, or `InvalidData`.
pub open spec fn decode_result(b: Seq<u8>) -> Result<Seq<u8>, Error> {
    if signature_bytes_valid(b) {
        Ok(b)
    } else {
        Err(Error::InvalidData)
    }
}

impl Signature {
    /// The point `R`.
    pub closed spec fn r_point(&self) -> Point {
        self.r
    }

    /// The scalar `S`.
    pub closed spec fn s_scalar(&self) -> ScalarElem {
        self.s
    }

    /// The encoding splits back into `R`'s coordinates and `S`.
    pub proof fn lemma_parts(&self)
        ensures
            self@.len() == 96,
            self@.subrange(0, 32) == self.r_point().coords().0,
            self@.subrange(32, 64) == self.r_point().coords().1,
            self@.subrange(64, 96) == self.s_scalar()@,
    {
        self.r.lemma_coords_len();
        self.s.lemma_len();
        signature_view_parts(*self);
    }

    /// A signature whose parts are canonical and whose `R` is a point of the
    /// prime-order subgroup.
    pub open spec fn wf(&self) -> bool {
        &&& self.r_point().wf()
        &&& in_prime_subgroup(self.r_point().coords().0, self.r_point().coords().1)
        &&& self.s_scalar().wf()
    }

    pub fn new(r: Point, s: ScalarElem) -> (g: Signature)
        ensures
            g.r_point() == r,
            g.s_scalar() == s,
            g@ == r.coords().0 + r.coords().1 + s@,
    {
        Signature { r, s }
    }

    pub fn r(&self) -> (p: &Point)
        ensures
            *p == self.r_point(),
    {
        &self.r
    }

    pub fn s(&self) -> (k: &ScalarElem)
        ensures
            *k == self.s_scalar(),
    {
        &self.s
    }

    /// The uncompressed encoding of `R` followed by that of `S`.
    pub fn to_bytes(&self) -> (b: Vec<u8>)
        ensures
            b@ == self@,
    {
        let mut v = self.r.to_bytes_uncompressed();
        let sb = self.s.to_bytes();
        let ghost head = v@;
        let mut i: usize = 0;
        while i < 32
            invariant
                0 <= i <= 32,
                sb@.len() == 32,
                v@ == head + sb@.subrange(0, i as int),
            decreases 32 - i,
        {
            v.push(sb[i]);
            i = i + 1;
        }
        assert(sb@.subrange(0, 32) =~= sb@);
        v
    }

    /// Checked decoding: exactly 96 bytes, a point of the prime subgroup and a
    /// canonical scalar; anything else is `InvalidData`.
    pub fn from_bytes(bytes: &[u8]) -> (r: Result<Signature, Error>)
        ensures
            r is Ok <==> signature_bytes_valid(bytes@),
            r matches Ok(g) ==> g@ == bytes@ && g.wf(),
            r is Err ==> r == Err::<Signature, Error>(Error::InvalidData),
            match r {
                Ok(g) => Ok(g@),
                Err(e) => Err(e),
            } == decode_result(bytes@),
    {
        if bytes.len() != SIGNATURE_LEN {
            return Err(Error::InvalidData);
        }
        let point_part = slice_range(bytes, 0, 64);
        let scalar_part = slice_range(bytes, 64, 96);
        let r = match decode_uncompressed(point_part.as_slice()) {
            Some(p) => p,
            None => {
                return Err(Error::InvalidData);
            },
        };
        let s = match ScalarElem::from_bytes(scalar_part.as_slice()) {
            Some(s) => s,
            None => {
                return Err(Error::InvalidData);
            },
        };
        let g = Signature { r, s };
        proof {
            assert(g@ =~= bytes@);
            assert(bytes@.subrange(0, 64).subrange(0, 32) =~= bytes@.subrange(0, 32));
            assert(bytes@.subrange(0, 64).subrange(32, 64) =~= bytes@.subrange(32, 64));
        }
        Ok(g)
    }
}

/// The bytes `b[lo..hi]`, copied.
fn slice_range(b: &[u8], lo: usize, hi: usize) -> (r: Vec<u8>)
    requires
        lo <= hi <= b@.len(),
    ensures
        r@ == b@.subrange(lo as int, hi as int),
{
    let mut v: Vec<u8> = Vec::new();
    let mut i: usize = lo;
    while i < hi
        invariant
            lo <= i <= hi,
            hi <= b@.len(),
            v@ == b@.subrange(lo as int, i as int),
        decreases hi - i,
    {
        v.push(b[i]);
        i = i + 1;
    }
    v
}

/// Decoding the encoding of a well-formed signature gives it back; bytes of
/// any length but the fixed one are rejected with `InvalidData`.
pub proof fn lemma_signature_codec_round_trip(g: Signature, b: Seq<u8>)
    requires
        g.wf(),
    ensures
        decode_result(g@) == Ok::<Seq<u8>, Error>(g@),
        b.len() != 96 ==> decode_result(b) == Err::<Seq<u8>, Error>(Error::InvalidData),
{
    g.lemma_parts();
    g.r.lemma_wf_facts();
    let v = g@;
    assert(v.subrange(0, 64).subrange(0, 32) =~= v.subrange(0, 32));
    assert(v.subrange(0, 64).subrange(32, 64) =~= v.subrange(32, 64));
    assert(uncompressed_valid(v.subrange(0, 64)));
}

} // verus!
