use vstd::prelude::*;

verus! {

/// Whether `c` has the Unicode `White_Space` property.
pub open spec fn char_is_whitespace(c: char) -> bool {
    let u = c as u32;
    (0x9 <= u <= 0xD) || u == 0x20 || u == 0x85 || u == 0xA0 || u == 0x1680 || (0x2000 <= u
        <= 0x200A) || u == 0x2028 || u == 0x2029 || u == 0x202F || u == 0x205F || u == 0x3000
}

/// `t` without its trailing whitespace.
pub open spec fn trim_trailing(t: Seq<char>) -> Seq<char>
    decreases t.len(),
{
    if t.len() > 0 && char_is_whitespace(t.last()) {
        trim_trailing(t.drop_last())
    } else {
        t
    }
}

/// Relies on `str::trim_end`, which removes the trailing characters that
/// have the Unicode `White_Space` property (the property `char::is_whitespace`
/// tests).
#[verifier::external_body]
pub(crate) fn trim_end(t: &str) -> (r: String)
    ensures
        r@ == trim_trailing(t@),
        r@.len() > 0 ==> !char_is_whitespace(r@.last()),
{
    t.trim_end().to_owned()
}

} // verus!
