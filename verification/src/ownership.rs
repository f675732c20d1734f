//! Ownership exercises: moving strings in and out of functions, lengths
//! through references, and the first word of a string.

use vstd::prelude::*;
use vstd::string::StrSliceExecFns;
use vstd::string::StringExecFns;

use crate::text::chars_of;
use crate::text::find_char;
use crate::text::first_index_of;
use crate::text::lemma_first_index_of;

verus! {

/// Hands a fresh string out to the caller.
pub fn gives_ownership() -> (r: String)
    ensures
        r@ == "Huaier"@,
{
    let some_string = String::from_str("Huaier");
    some_string
}

/// Takes a string and hands the very same one back.
pub fn takes_and_gives_back(input_string: String) -> (r: String)
    ensures
        r == input_string,
{
    input_string
}

/// Returns the string together with its length in characters.
pub fn _calculate_length(s: String) -> (r: (String, usize))
    ensures
        r.0 == s,
        r.1 == s@.len(),
{
    let length: usize = s.as_str().unicode_len();
    (s, length)
}

/// The length in characters, through a reference.
pub fn _calculate_length_using_ref(s: &String) -> (r: usize)
    ensures
        r == s@.len(),
{
    s.as_str().unicode_len()
}

/// Appends a greeting through a mutable reference.
pub fn _change_string(s: &mut String)
    ensures
        final(s)@ == old(s)@ + "hello"@,
{
    s.append("hello");
}

/// The byte value of the space character.
pub const SPACE_BYTE: u8 = 32;

/// The index of the byte after the first word: the byte position of the
/// first space, or the byte length of the string if it has none.
pub fn _first_word(s: &String) -> (r: usize)
    ensures
        r as int == first_index_of(vstd::utf8::encode_utf8(s@), SPACE_BYTE),
{
    let bytes = s.as_str().as_bytes();
    proof {
        assert(bytes@ == vstd::utf8::encode_utf8(s@));
    }
    let n = bytes.len();
    let mut i: usize = 0;
    while i < n
        invariant
            n == bytes@.len(),
            bytes@ == vstd::utf8::encode_utf8(s@),
            i <= n,
            forall|k: int| 0 <= k < i ==> bytes@[k] != SPACE_BYTE,
        decreases n - i,
    {
        if bytes[i] == SPACE_BYTE {
            proof {
                lemma_first_index_of(bytes@, SPACE_BYTE);
            }
            return i;
        }
        i += 1;
    }
    proof {
        lemma_first_index_of(bytes@, SPACE_BYTE);
    }
    n
}

/// The first word of the string: everything before the first space, or
/// the whole string if it has none.
pub fn correct_first_word<'a>(s: &'a String) -> (r: &'a str)
    ensures
        r@ == s@.subrange(0, first_index_of(s@, ' ')),
{
    scalable_first_word(s.as_str())
}

/// As `correct_first_word`, for any string slice.
pub fn scalable_first_word<'a>(s: &'a str) -> (r: &'a str)
    ensures
        r@ == s@.subrange(0, first_index_of(s@, ' ')),
{
    let v = chars_of(s);
    let i = find_char(&v, ' ');
    proof {
        lemma_first_index_of(s@, ' ');
    }
    s.substring_char(0, i)
}

} // verus!
