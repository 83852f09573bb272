//! Wire-level text helpers: appending to `String`s under a view-level
//! contract, and the legality rule for header values.

use vstd::prelude::*;

verus! {

use vstd::string::StringSliceAdditionalSpecFns;

/// Appends `t` onto the end of `s`.
///
/// Relies on `String::push_str`: it appends the given string slice onto the
/// end of the `String`.
#[verifier::external_body]
pub(crate) fn push_str(s: &mut String, t: &str)
    ensures
        final(s)@ == old(s)@ + t@,
{
    s.push_str(t);
}

/// Compares two string slices.
///
/// Relies on `str`'s `PartialEq`: two slices are equal exactly when they
/// hold the same characters.
#[verifier::external_body]
pub(crate) fn str_eq(a: &str, b: &str) -> (r: bool)
    ensures
        r == (a@ == b@),
{
    a == b
}

/// A byte is legal inside a header value when it is a horizontal tab or any
/// byte from the space upward except delete — the rule the wire library
/// enforces. Control bytes (and the delete byte) are what make a header
/// value illegal on the wire; bytes above 127, as non-ASCII UTF-8 produces,
/// are legal.
pub open spec fn legal_header_byte(b: u8) -> bool {
    b == 9 || (32 <= b && b != 127)
}

/// A header value is a legal wire encoding when every byte of its UTF-8
/// encoding is a legal header byte.
pub open spec fn is_legal_header_value(s: Seq<char>) -> bool {
    forall|i: int|
        0 <= i < vstd::utf8::encode_utf8(s).len() ==> legal_header_byte(
            #[trigger] vstd::utf8::encode_utf8(s)[i],
        )
}

/// Decides whether `s` is a legal header value, per `is_legal_header_value`.
pub fn check_header_value(s: &str) -> (r: bool)
    ensures
        r == is_legal_header_value(s@),
{
    let bytes: &[u8] = s.as_bytes();
    let n: usize = bytes.len();
    let mut i: usize = 0;
    while i < n
        invariant
            bytes@ == vstd::utf8::encode_utf8(s@),
            n == bytes@.len(),
            0 <= i <= n,
            forall|j: int| 0 <= j < i ==> legal_header_byte(#[trigger] bytes@[j]),
        decreases n - i,
    {
        let b = bytes[i];
        if !(b == 9 || (32 <= b && b != 127)) {
            assert(!legal_header_byte(bytes@[i as int]));
            return false;
        }
        i += 1;
    }
    true
}

} // verus!
