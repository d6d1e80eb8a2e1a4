//! Parsing of the output-sink selector a countdown is configured with.
//!
//! The human-readable duration arguments are parsed at the command-line
//! edge, outside the library: the parser in use can abort the process on
//! adversarial inputs (an accumulated subsecond part of exactly one second
//! carried onto saturated seconds), so no contract here could promise a
//! panic-free call. The library takes the already-parsed seconds and
//! nanoseconds through [`crate::duration::Dur::new`].

use vstd::prelude::*;
use vstd::string::{StrSliceExecFns, StringExecFns};

verus! {

/// Where the rendered countdown goes: the interactive terminal, or a file
/// that is rewritten on every tick.
#[allow(non_camel_case_types)]
#[derive(Clone, Copy, Debug, PartialEq, Eq, Structural)]
pub enum OutType {
    STDOUT,
    FILE,
}

/// The output selector was neither `stdout` nor `file`.
#[derive(Clone, Copy, Debug, PartialEq, Eq, Structural)]
pub struct InvalidOutType;

impl InvalidOutType {
    /// The rejection message, naming the rejected input and the accepted
    /// selectors.
    pub fn message(&self, input: &str) -> (r: String)
        ensures
            r@ == input@ + " is not a valid input. Use stdout, file"@,
    {
        let mut s = input.to_owned();
        s.append(" is not a valid input. Use stdout, file");
        s
    }
}

/// Character-wise string equality.
fn str_eq(a: &str, b: &str) -> (r: bool)
    ensures
        r <==> a@ == b@,
{
    let alen = a.unicode_len();
    let blen = b.unicode_len();
    if alen != blen {
        return false;
    }
    let mut i: usize = 0;
    while i < alen
        invariant
            alen == a@.len(),
            blen == b@.len(),
            alen == blen,
            i <= alen,
            forall|j: int| 0 <= j < i ==> a@[j] == b@[j],
        decreases alen - i,
    {
        if a.get_char(i) != b.get_char(i) {
            return false;
        }
        i = i + 1;
    }
    proof {
        assert(a@ =~= b@);
    }
    true
}

impl OutType {
    /// Recognises the two output selectors, rejecting everything else.
    pub fn from_str(input: &str) -> (r: Result<OutType, InvalidOutType>)
        ensures
            r == Ok::<OutType, InvalidOutType>(OutType::STDOUT) <==> input@ == "stdout"@,
            r == Ok::<OutType, InvalidOutType>(OutType::FILE) <==> input@ == "file"@,
            r is Err <==> input@ != "stdout"@ && input@ != "file"@,
    {
        proof {
            reveal_strlit("stdout");
            reveal_strlit("file");
            assert("stdout"@.len() == 6 && "file"@.len() == 4);
        }
        if str_eq(input, "stdout") {
            Ok(OutType::STDOUT)
        } else if str_eq(input, "file") {
            Ok(OutType::FILE)
        } else {
            Err(InvalidOutType)
        }
    }
}

} // verus!
