//! A string that lives in a locked, zeroed-on-drop buffer.
//!
//! The text is only reachable through [`SecureString::as_str`]; the `Debug`
//! rendering of the buffer prints a placeholder instead of the content.

use secstr::{SecStr, SecVec};
use vstd::prelude::*;
use vstd::string::StringSliceAdditionalSpecFns;
use vstd::slice::slice_to_vec;
use vstd::utf8::*;

verus! {

broadcast use vstd::utf8::group_utf8_lib;

/// `secstr::SecVec`, the locked buffer a secure string keeps its bytes in.
#[verifier::external_type_specification]
#[verifier::external_body]
#[verifier::reject_recursive_types(T)]
pub struct ExSecVec<T: Sized + Copy>(SecVec<T>);

/// `std::str::Utf8Error`, carried through only.
#[verifier::external_type_specification]
#[verifier::external_body]
pub struct ExUtf8Error(core::str::Utf8Error);

/// The bytes held by a locked buffer.
pub uninterp spec fn secret_bytes(s: SecStr) -> Seq<u8>;

/// Relies on `secstr::SecVec::new`: the buffer takes over exactly the given bytes.
#[verifier::external_body]
fn lock_bytes(bytes: Vec<u8>) -> (r: SecStr)
    ensures
        secret_bytes(r) == bytes@,
{
    SecVec::new(bytes)
}

/// Relies on `secstr::SecVec::unsecure`: borrows the bytes the buffer holds.
#[verifier::external_body]
fn unlock_bytes(s: &SecStr) -> (r: &[u8])
    ensures
        r@ == secret_bytes(*s),
{
    s.unsecure()
}

/// Relies on `std::str::from_utf8`: it accepts exactly the valid UTF-8 byte
/// sequences, and borrows them unchanged as a `str`.
pub assume_specification[ core::str::from_utf8 ](v: &[u8]) -> (r: Result<&str, core::str::Utf8Error>)
    ensures
        r is Ok <==> valid_utf8(v@),
        r is Ok ==> r->Ok_0.spec_bytes() == v@,
;

/// The bytes a secure string stores for a text read back as exactly that
/// text, whatever it holds: empty, punctuation or any other character.
pub proof fn lemma_secure_text_round_trip(text: Seq<char>)
    ensures
        valid_utf8(encode_utf8(text)),
        decode_utf8(encode_utf8(text)) == text,
{
    encode_utf8_valid_utf8(text);
    encode_utf8_decode_utf8(text);
}

/// A UTF-8 string kept in a locked buffer that is zeroed when dropped.
#[derive(Debug, PartialEq, Eq)]
pub struct SecureString {
    secret: SecStr,
}

impl View for SecureString {
    type V = Seq<char>;

    /// The text held.
    closed spec fn view(&self) -> Seq<char> {
        decode_utf8(secret_bytes(self.secret))
    }
}

impl SecureString {
    /// The buffer always holds valid UTF-8.
    #[verifier::type_invariant]
    spec fn well_formed(self) -> bool {
        valid_utf8(secret_bytes(self.secret))
    }

    /// Builds a secure string from raw bytes, which must be valid UTF-8.
    pub fn new(bytes: Vec<u8>) -> (r: SecureString)
        requires
            valid_utf8(bytes@),
        ensures
            r@ == decode_utf8(bytes@),
    {
        SecureString { secret: lock_bytes(bytes) }
    }

    /// Copies the text of `s` into a locked buffer.
    pub fn from_text(s: &str) -> (r: SecureString)
        ensures
            r@ == s@,
    {
        let bytes = slice_to_vec(s.as_bytes());
        proof {
            lemma_secure_text_round_trip(s@);
        }
        SecureString { secret: lock_bytes(bytes) }
    }

    /// The text held.
    pub fn as_str(&self) -> (r: &str)
        ensures
            r@ == self@,
    {
        proof {
            use_type_invariant(self);
        }
        match core::str::from_utf8(unlock_bytes(&self.secret)) {
            Ok(text) => {
                proof {
                    encode_utf8_decode_utf8(text@);
                }
                text
            },
            Err(_) => {
                proof {
                    assert(false);
                }
                ""
            },
        }
    }
}

impl Clone for SecureString {
    /// Copies the text into a new locked buffer.
    fn clone(&self) -> (r: SecureString)
        ensures
            r@ == self@,
    {
        proof {
            use_type_invariant(self);
        }
        SecureString { secret: lock_bytes(slice_to_vec(unlock_bytes(&self.secret))) }
    }
}

impl<'a> From<&'a str> for SecureString {
    fn from(s: &'a str) -> (r: SecureString)
        ensures
            r@ == s@,
    {
        SecureString::from_text(s)
    }
}

impl From<String> for SecureString {
    fn from(s: String) -> (r: SecureString)
        ensures
            r@ == s@,
    {
        SecureString::from_text(s.as_str())
    }
}

/// A secure string is not a plain value: what `from` returns is given by the
/// `ensures` of each conversion above, over the view.
impl<'a> vstd::std_specs::convert::FromSpecImpl<&'a str> for SecureString {
    open spec fn obeys_from_spec() -> bool {
        false
    }

    open spec fn from_spec(v: &'a str) -> SecureString {
        arbitrary()
    }
}

impl vstd::std_specs::convert::FromSpecImpl<String> for SecureString {
    open spec fn obeys_from_spec() -> bool {
        false
    }

    open spec fn from_spec(v: String) -> SecureString {
        arbitrary()
    }
}

} // verus!
