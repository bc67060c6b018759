//! C strings: byte buffers without NUL bytes, the form in which text reaches the C
//! string routines. The terminating NUL of a C string is implicit; the buffer holds the
//! bytes before it.
use vstd::prelude::*;
use vstd::slice::slice_to_vec;
use vstd::string::*;

use crate::error::{is_first_nul, NulError};

verus! {

/// True when no byte of `bytes` is zero.
pub open spec fn nul_free(bytes: Seq<u8>) -> bool {
    forall|i: int| 0 <= i < bytes.len() ==> bytes[i] != 0
}

/// An owned C string: the bytes before the terminating NUL, none of them zero.
#[derive(Debug)]
pub struct CString {
    bytes: Vec<u8>,
}

impl View for CString {
    type V = Seq<u8>;

    closed spec fn view(&self) -> Seq<u8> {
        self.bytes@
    }
}

impl CString {
    #[verifier::type_invariant]
    spec fn holds_no_nul(self) -> bool {
        nul_free(self.bytes@)
    }

    /// Converts text into a C string, failing on its first NUL byte.
    pub fn new(s: &str) -> (r: Result<CString, NulError>)
        ensures
            match r {
                Ok(c) => nul_free(s.spec_bytes()) && c@ == s.spec_bytes(),
                Err(e) => !nul_free(s.spec_bytes()) && is_first_nul(s.spec_bytes(), e@.0) && e@.1
                    == s.spec_bytes(),
            },
    {
        let bytes = s.as_bytes();
        let n = bytes.len();
        let mut i: usize = 0;
        while i < n
            invariant
                n == bytes@.len(),
                bytes@ == s.spec_bytes(),
                i <= n,
                forall|j: int| 0 <= j < i ==> bytes@[j] != 0,
            decreases n - i,
        {
            if bytes[i] == 0 {
                return Err(NulError::new(i, slice_to_vec(bytes)));
            }
            i = i + 1;
        }
        Ok(CString { bytes: slice_to_vec(bytes) })
    }

    /// Takes a buffer that is known to hold no NUL byte as a C string.
    pub fn from_nul_free_vec(bytes: Vec<u8>) -> (r: CString)
        requires
            nul_free(bytes@),
        ensures
            r@ == bytes@,
    {
        CString { bytes }
    }

    /// The bytes of the C string, without the terminating NUL.
    pub fn as_bytes(&self) -> (r: &[u8])
        ensures
            r@ == self@,
            nul_free(self@),
    {
        proof {
            use_type_invariant(self);
        }
        self.bytes.as_slice()
    }

    /// Gives back the bytes of the C string, without the terminating NUL.
    pub fn into_bytes(self) -> (r: Vec<u8>)
        ensures
            r@ == self@,
            nul_free(self@),
    {
        proof {
            use_type_invariant(&self);
        }
        self.bytes
    }
}

} // verus!
