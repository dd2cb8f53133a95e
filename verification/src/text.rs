//! Strings read as bytes.

use vstd::prelude::*;
use vstd::string::*;
use vstd::utf8::encode_utf8_decode_utf8;

verus! {

/// `bytes` holds the characters of `text`, one byte for each, and all of them
/// are ASCII.
pub open spec fn spells_out(bytes: Seq<u8>, text: Seq<char>) -> bool {
    &&& bytes.len() == text.len()
    &&& forall|i: int|
        #![trigger text[i]]
        #![trigger bytes[i]]
        0 <= i < text.len() ==> bytes[i] <= 0x7f && text[i] == bytes[i] as char
}

/// The bytes of an ASCII string, which are its characters.
pub fn ascii_bytes(s: &str) -> (bytes: &[u8])
    requires
        s.is_ascii(),
    ensures
        spells_out(bytes@, s@),
{
    broadcast use is_ascii_spec_bytes;

    s.as_bytes()
}

/// Whether two strings hold the same text.
pub fn same_text(a: &str, b: &str) -> (same: bool)
    ensures
        same == (a@ == b@),
{
    let x = a.as_bytes();
    let y = b.as_bytes();
    proof {
        encode_utf8_decode_utf8(a@);
        encode_utf8_decode_utf8(b@);
    }
    if x.len() != y.len() {
        return false;
    }
    let mut i: usize = 0;
    while i < x.len()
        invariant
            x@ == a.spec_bytes(),
            y@ == b.spec_bytes(),
            x.len() == y.len(),
            i <= x.len(),
            forall|k: int| 0 <= k < i ==> x@[k] == y@[k],
        decreases x.len() - i,
    {
        if x[i] != y[i] {
            return false;
        }
        i = i + 1;
    }
    assert(x@ =~= y@);
    true
}

} // verus!
