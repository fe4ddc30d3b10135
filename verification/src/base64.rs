//! Base64 with the standard alphabet and `=` padding.
//!
//! An encoded text is a run of groups of four characters. Each group stands
//! for three bytes; the last group may end in one or two `=` and then stands
//! for two bytes or one.

use vstd::prelude::*;

verus! {

/// The six bits that the character `b` stands for, if it is in the alphabet.
pub open spec fn sextet(b: u8) -> Option<int> {
    if 65 <= b <= 90 {
        Some(b - 65)
    } else if 97 <= b <= 122 {
        Some(b - 97 + 26)
    } else if 48 <= b <= 57 {
        Some(b - 48 + 52)
    } else if b == 43 {
        Some(62)
    } else if b == 47 {
        Some(63)
    } else {
        None
    }
}

/// The bits of `b`, or zero for a character outside the alphabet.
pub open spec fn bits(b: u8) -> int {
    match sextet(b) {
        Some(v) => v,
        None => 0,
    }
}

/// How many `=` end the text: none, one or two.
pub open spec fn padding(s: Seq<u8>) -> int {
    if s.len() >= 1 && s[s.len() - 1] == 61 {
        if s.len() >= 2 && s[s.len() - 2] == 61 {
            2
        } else {
            1
        }
    } else {
        0
    }
}

/// `s` is a whole number of groups, every character before the padding in
/// the alphabet.
pub open spec fn well_formed(s: Seq<u8>) -> bool {
    &&& s.len() % 4 == 0
    &&& forall|k: int| 0 <= k < s.len() - padding(s) ==> (#[trigger] sextet(s[k])) is Some
}

/// The number of bytes that a well-formed `s` stands for.
pub open spec fn decoded_len(s: Seq<u8>) -> int {
    3 * (s.len() / 4) - padding(s)
}

/// Byte `j` of what `s` stands for.
pub open spec fn octet(s: Seq<u8>, j: int) -> u8 {
    let g = 4 * (j / 3);
    if j % 3 == 0 {
        (bits(s[g]) * 4 + bits(s[g + 1]) / 16) as u8
    } else if j % 3 == 1 {
        ((bits(s[g + 1]) % 16) * 16 + bits(s[g + 2]) / 4) as u8
    } else {
        ((bits(s[g + 2]) % 4) * 64 + bits(s[g + 3])) as u8
    }
}

/// The bytes that `s` stands for, or `None` where `s` is not well formed.
pub open spec fn decoded(s: Seq<u8>) -> Option<Seq<u8>> {
    if well_formed(s) {
        Some(Seq::new(decoded_len(s) as nat, |j: int| octet(s, j)))
    } else {
        None
    }
}

/// The bits of one character.
fn sextet_of(b: u8) -> (r: Option<u8>)
    ensures
        r matches Some(v) ==> sextet(b) == Some(v as int) && v < 64,
        r is None ==> sextet(b) is None,
{
    if 65 <= b && b <= 90 {
        Some(b - 65)
    } else if 97 <= b && b <= 122 {
        Some(b - 97 + 26)
    } else if 48 <= b && b <= 57 {
        Some(b - 48 + 52)
    } else if b == 43 {
        Some(62)
    } else if b == 47 {
        Some(63)
    } else {
        None
    }
}

/// Decodes a base64 text.
///
/// Returns the bytes that `input` stands for, and `None` exactly when
/// `input` is not well formed: its length is no multiple of four, or a
/// character before the padding is outside the alphabet.
pub fn decode(input: &[u8]) -> (r: Option<Vec<u8>>)
    ensures
        r matches Some(v) ==> decoded(input@) == Some(v@),
        r is None ==> decoded(input@) is None,
{
    let n = input.len();
    if n % 4 != 0 {
        return None;
    }
    let mut pad: usize = 0;
    if n >= 1 && input[n - 1] == 61 {
        pad = 1;
        if n >= 2 && input[n - 2] == 61 {
            pad = 2;
        }
    }
    let mut out: Vec<u8> = Vec::new();
    let mut g: usize = 0;
    while g < n
        invariant
            n == input.len(),
            n % 4 == 0,
            g % 4 == 0,
            g <= n,
            pad == padding(input@),
            g == n ==> pad == 0,
            out.len() == 3 * (g / 4),
            forall|k: int| 0 <= k < g ==> (#[trigger] sextet(input@[k])) is Some,
            forall|j: int| 0 <= j < out.len() ==> out[j] == octet(input@, j),
        decreases n - g,
    {
        let last = n - g == 4;
        let a = match sextet_of(input[g]) {
            Some(v) => v,
            None => {
                assert(sextet(input@[g as int]) is None);
                return None;
            },
        };
        let b = match sextet_of(input[g + 1]) {
            Some(v) => v,
            None => {
                assert(sextet(input@[g + 1]) is None);
                return None;
            },
        };
        let first: u8 = a * 4 + b / 16;
        if last && pad == 2 {
            out.push(first);
            assert(out@ =~= Seq::new(decoded_len(input@) as nat, |j: int| octet(input@, j)));
            return Some(out);
        }
        let c = match sextet_of(input[g + 2]) {
            Some(v) => v,
            None => {
                assert(sextet(input@[g + 2]) is None);
                return None;
            },
        };
        let second: u8 = (b % 16) * 16 + c / 4;
        if last && pad == 1 {
            out.push(first);
            out.push(second);
            assert(out@ =~= Seq::new(decoded_len(input@) as nat, |j: int| octet(input@, j)));
            return Some(out);
        }
        let d = match sextet_of(input[g + 3]) {
            Some(v) => v,
            None => {
                assert(sextet(input@[g + 3]) is None);
                return None;
            },
        };
        let third: u8 = (c % 4) * 64 + d;
        out.push(first);
        out.push(second);
        out.push(third);
        g = g + 4;
    }
    assert(out@ =~= Seq::new(decoded_len(input@) as nat, |j: int| octet(input@, j)));
    Some(out)
}

} // verus!
