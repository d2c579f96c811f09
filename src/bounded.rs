use vstd::prelude::*;

use crate::types::Error;

verus! {

/// An immutable byte string whose length never exceeds the bound it was
/// made with.
#[derive(Debug)]
pub struct BoundedBytes {
    bytes: Vec<u8>,
    max_len: u32,
}

impl View for BoundedBytes {
    type V = Seq<u8>;

    closed spec fn view(&self) -> Seq<u8> {
        self.bytes@
    }
}

impl BoundedBytes {
    #[verifier::type_invariant]
    spec fn within_bound(&self) -> bool {
        self.bytes@.len() <= self.max_len
    }

    /// The bound this value was made with.
    pub closed spec fn bound_of(&self) -> nat {
        self.max_len as nat
    }

    /// Takes `raw` if it holds at most `max_len` bytes, and hands it back
    /// unchanged otherwise.
    pub fn try_from_vec(raw: Vec<u8>, max_len: u32) -> (r: Result<BoundedBytes, Vec<u8>>)
        ensures
            raw@.len() <= max_len <==> r is Ok,
            r matches Ok(b) ==> b@ == raw@ && b.bound_of() == max_len,
            r matches Err(v) ==> v@ == raw@,
    {
        if raw.len() <= max_len as usize {
            Ok(BoundedBytes { bytes: raw, max_len })
        } else {
            Err(raw)
        }
    }

    /// The bytes held.
    pub fn as_slice(&self) -> (r: &[u8])
        ensures
            r@ == self@,
    {
        self.bytes.as_slice()
    }

    /// A copy of the bytes held.
    pub fn to_vec(&self) -> (r: Vec<u8>)
        ensures
            r@ == self@,
    {
        self.bytes.clone()
    }

    /// The number of bytes held, which never exceeds the bound.
    pub fn len(&self) -> (r: usize)
        ensures
            r == self@.len(),
            r <= self.bound_of(),
    {
        proof {
            use_type_invariant(self);
        }
        self.bytes.len()
    }

    /// The bound this value was made with.
    pub fn max_len(&self) -> (r: u32)
        ensures
            r == self.bound_of(),
    {
        self.max_len
    }

    /// Whether the bytes held are exactly `other`.
    pub fn eq_bytes(&self, other: &[u8]) -> (r: bool)
        ensures
            r == (self@ == other@),
    {
        let a = self.bytes.as_slice();
        if a.len() != other.len() {
            return false;
        }
        let mut i: usize = 0;
        while i < a.len()
            invariant
                a@ == self@,
                a@.len() == other@.len(),
                i <= a@.len(),
                forall|j: int| 0 <= j < i ==> a@[j] == other@[j],
            decreases a@.len() - i,
        {
            if a[i] != other[i] {
                return false;
            }
            i = i + 1;
        }
        assert(a@ =~= other@);
        true
    }
}

impl Clone for BoundedBytes {
    fn clone(&self) -> (r: BoundedBytes)
        ensures
            r@ == self@,
            r.bound_of() == self.bound_of(),
    {
        proof {
            use_type_invariant(self);
        }
        BoundedBytes { bytes: self.bytes.clone(), max_len: self.max_len }
    }
}

impl PartialEq for BoundedBytes {
    fn eq(&self, other: &BoundedBytes) -> (r: bool) {
        self.eq_bytes(other.as_slice())
    }
}

impl vstd::std_specs::cmp::PartialEqSpecImpl for BoundedBytes {
    open spec fn obeys_eq_spec() -> bool {
        true
    }

    open spec fn eq_spec(&self, other: &BoundedBytes) -> bool {
        self@ == other@
    }
}

impl Eq for BoundedBytes {}

/// Bounds `raw` by `max_len`: succeeds, with the same bytes, exactly when
/// `raw` holds at most `max_len` bytes, and fails with `TooLong` otherwise.
pub fn bound(raw: Vec<u8>, max_len: u32) -> (r: Result<BoundedBytes, Error>)
    ensures
        raw@.len() <= max_len <==> r is Ok,
        r matches Ok(b) ==> b@ == raw@ && b.bound_of() == max_len,
        r matches Err(e) ==> e == Error::TooLong,
{
    match BoundedBytes::try_from_vec(raw, max_len) {
        Ok(b) => Ok(b),
        Err(_) => Err(Error::TooLong),
    }
}

} // verus!
