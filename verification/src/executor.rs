//! Decoding of subprocess output: bytes to trimmed text.  Spawning the
//! subprocess itself happens outside the library.

use vstd::prelude::*;
use vstd::utf8::{decode_utf8, valid_utf8};

verus! {

/// What `str::trim` leaves of `s`: the text without leading and trailing
/// whitespace, a function of the characters alone.
pub uninterp spec fn trimmed_of(s: Seq<char>) -> Seq<char>;

/// Relies on `str::from_utf8`: succeeds exactly on valid UTF-8 and decodes
/// it.
#[verifier::external_body]
fn utf8_to_string(bytes: &Vec<u8>) -> (r: Option<String>)
    ensures
        match r {
            Some(s) => valid_utf8(bytes@) && s@ == decode_utf8(bytes@),
            None => !valid_utf8(bytes@),
        },
{
    match std::str::from_utf8(bytes.as_slice()) {
        Ok(s) => Some(s.to_string()),
        Err(_) => None,
    }
}

/// Relies on `str::trim`: removes leading and trailing whitespace, a
/// function of the characters alone.
#[verifier::external_body]
fn trim_string(s: &str) -> (r: String)
    ensures
        r@ == trimmed_of(s@),
{
    s.trim().to_string()
}

/// Turns subprocess byte streams into values the dispatcher can read.
pub struct Executor;

impl Executor {
    /// The text a subprocess wrote: its bytes decoded and trimmed, or
    /// nothing when they are not valid UTF-8.
    pub fn unwrap(io: &Vec<u8>) -> (r: Option<String>)
        ensures
            match r {
                Some(s) => valid_utf8(io@) && s@ == trimmed_of(decode_utf8(io@)),
                None => !valid_utf8(io@),
            },
    {
        match utf8_to_string(io) {
            Some(s) => Some(trim_string(s.as_str())),
            None => None,
        }
    }
}

} // verus!
