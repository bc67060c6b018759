//! Error types of the string-utilities API.
//!
//! An input can fail in one way that this library detects: it holds a NUL byte, so it
//! cannot be turned into a C string. That failure is reported as [`Error::Conversion`]
//! carrying a [`NulError`], which records where the first NUL byte sits and the bytes
//! that were rejected. [`Error::NullResult`] names the failure of a C string producer
//! to hand back a buffer; the operations of this crate own their buffers and never
//! report it.
use vstd::prelude::*;
use vstd::string::*;

verus! {

/// The ASCII digit character for a value below ten.
pub open spec fn digit_char(d: nat) -> char {
    (48 + d) as char
}

/// The decimal representation of `n`, most significant digit first, without leading zeros.
pub open spec fn decimal_text(n: nat) -> Seq<char>
    decreases n,
{
    if n < 10 {
        seq![digit_char(n)]
    } else {
        decimal_text(n / 10).push(digit_char(n % 10))
    }
}

/// The one-character string of a decimal digit.
fn digit_str(d: usize) -> (r: &'static str)
    requires
        d < 10,
    ensures
        r@ == seq![digit_char(d as nat)],
{
    match d {
        0 => {
            proof {
                reveal_strlit("0");
            }
            "0"
        },
        1 => {
            proof {
                reveal_strlit("1");
            }
            "1"
        },
        2 => {
            proof {
                reveal_strlit("2");
            }
            "2"
        },
        3 => {
            proof {
                reveal_strlit("3");
            }
            "3"
        },
        4 => {
            proof {
                reveal_strlit("4");
            }
            "4"
        },
        5 => {
            proof {
                reveal_strlit("5");
            }
            "5"
        },
        6 => {
            proof {
                reveal_strlit("6");
            }
            "6"
        },
        7 => {
            proof {
                reveal_strlit("7");
            }
            "7"
        },
        8 => {
            proof {
                reveal_strlit("8");
            }
            "8"
        },
        _ => {
            proof {
                reveal_strlit("9");
            }
            "9"
        },
    }
}

/// Writes `n` in decimal.
pub fn decimal_string(n: usize) -> (r: String)
    ensures
        r@ == decimal_text(n as nat),
    decreases n,
{
    if n < 10 {
        String::from_str(digit_str(n))
    } else {
        let mut s = decimal_string(n / 10);
        s.append(digit_str(n % 10));
        s
    }
}

/// The rejection of an input that holds a NUL byte: the position of the first NUL byte,
/// and the bytes of the whole input.
#[derive(Debug)]
pub struct NulError {
    position: usize,
    bytes: Vec<u8>,
}

impl View for NulError {
    type V = (nat, Seq<u8>);

    closed spec fn view(&self) -> (nat, Seq<u8>) {
        (self.position as nat, self.bytes@)
    }
}

/// True when `p` is the index of the first zero byte of `bytes`.
pub open spec fn is_first_nul(bytes: Seq<u8>, p: nat) -> bool {
    &&& p < bytes.len()
    &&& bytes[p as int] == 0
    &&& forall|j: int| 0 <= j < p ==> bytes[j] != 0
}

/// The text that reports a NUL byte at position `p`.
pub open spec fn nul_error_text(p: nat) -> Seq<char> {
    "nul byte found in provided data at position: "@ + decimal_text(p)
}

impl NulError {
    /// Records that `bytes` holds its first NUL byte at `position`.
    pub fn new(position: usize, bytes: Vec<u8>) -> (r: NulError)
        requires
            is_first_nul(bytes@, position as nat),
        ensures
            r@ == (position as nat, bytes@),
    {
        NulError { position, bytes }
    }

    /// The index of the first NUL byte of the rejected input.
    pub fn nul_position(&self) -> (r: usize)
        ensures
            r as nat == self@.0,
    {
        self.position
    }

    /// The bytes of the rejected input.
    pub fn as_bytes(&self) -> (r: &[u8])
        ensures
            r@ == self@.1,
    {
        self.bytes.as_slice()
    }

    /// Gives back the bytes of the rejected input.
    pub fn into_vec(self) -> (r: Vec<u8>)
        ensures
            r@ == self@.1,
    {
        self.bytes
    }

    /// A description of the rejection, naming the position of the NUL byte.
    pub fn message(&self) -> (r: String)
        ensures
            r@ == nul_error_text(self@.0),
    {
        let mut s = String::from_str("nul byte found in provided data at position: ");
        let digits = decimal_string(self.position);
        s.append(digits.as_str());
        s
    }
}

/// The failures of the string-utilities API.
#[derive(Debug)]
pub enum Error {
    /// The input held a NUL byte and could not become a C string; no operation ran.
    Conversion(NulError),
    /// A C string producer handed back no buffer.
    NullResult,
}

/// The description of an error.
pub open spec fn error_text(e: &Error) -> Seq<char> {
    match e {
        Error::Conversion(n) => "input contains an interior NUL byte: "@ + nul_error_text(n@.0),
        Error::NullResult => "C library returned null (allocation failure)"@,
    }
}

impl Error {
    /// A description of the error, as it is shown to a user.
    pub fn message(&self) -> (r: String)
        ensures
            r@ == error_text(self),
    {
        match self {
            Error::Conversion(n) => {
                let mut s = String::from_str("input contains an interior NUL byte: ");
                let inner = n.message();
                s.append(inner.as_str());
                s
            },
            Error::NullResult => String::from_str("C library returned null (allocation failure)"),
        }
    }

    /// The rejection underneath a conversion error; a null result has none.
    pub fn source(&self) -> (r: Option<&NulError>)
        ensures
            match self {
                Error::Conversion(n) => r == Some(n),
                Error::NullResult => r is None,
            },
    {
        match self {
            Error::Conversion(n) => Some(n),
            Error::NullResult => None,
        }
    }
}

impl From<NulError> for Error {
    fn from(e: NulError) -> (r: Error) {
        Error::Conversion(e)
    }
}

impl vstd::std_specs::convert::FromSpecImpl<NulError> for Error {
    open spec fn obeys_from_spec() -> bool {
        true
    }

    open spec fn from_spec(e: NulError) -> Error {
        Error::Conversion(e)
    }
}

} // verus!
