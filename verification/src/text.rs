//! Character-level string building, and the rendering of raw bytes as
//! displayable text.

use vstd::prelude::*;

verus! {

/// Relies on std's `String::push`: appends exactly the one character.
pub assume_specification[ String::push ](s: &mut String, ch: char)
    ensures
        final(s)@ == old(s)@.push(ch),
;

/// Relies on std's `String::pop`: removes and returns the last character,
/// or returns `None` and leaves the empty string as it is.
pub assume_specification[ String::pop ](s: &mut String) -> (r: Option<char>)
    ensures
        old(s)@.len() == 0 ==> r is None && final(s)@ == old(s)@,
        old(s)@.len() > 0 ==> r == Some(old(s)@.last()) && final(s)@ == old(s)@.drop_last(),
;

/// One byte as the character shown for it: seven-bit bytes stand for
/// themselves, anything else is an opaque mark. Text beyond ASCII is
/// shown one mark per byte, not decoded; the preview trades encodings
/// for a byte-exact account of what is shown.
pub open spec fn display_char(b: u8) -> char {
    if b < 128 {
        b as char
    } else {
        '?'
    }
}

/// The bytes as displayable text, character for byte.
pub open spec fn display_chars(s: Seq<u8>) -> Seq<char> {
    s.map_values(|b: u8| display_char(b))
}

/// Renders raw bytes as text for a pane.
pub fn bytes_to_display(v: &Vec<u8>) -> (r: String)
    ensures
        r@ == display_chars(v@),
{
    let mut r = String::new();
    let mut i: usize = 0;
    while i < v.len()
        invariant
            i <= v.len(),
            r@ =~= display_chars(v@.take(i as int)),
        decreases v.len() - i,
    {
        let b = v[i];
        if b < 128 {
            r.push(b as char);
        } else {
            r.push('?');
        }
        proof {
            assert(r@ =~= display_chars(v@.take(i + 1)));
        }
        i += 1;
    }
    proof {
        assert(v@.take(v@.len() as int) =~= v@);
    }
    r
}

} // verus!
