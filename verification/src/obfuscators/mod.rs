//! Recognisers of obfuscation tools and of trojan-source attacks.

pub mod jjencode;
pub mod jsfuck;
pub mod obfuscator_io;
pub mod freejsobfuscator;
pub mod trojan_source;

use vstd::prelude::*;

verus! {

/// The Unicode control characters used in trojan-source attacks.
pub open spec fn is_dangerous_char(c: char) -> bool {
    ||| c == '\u{202A}'
    ||| c == '\u{202B}'
    ||| c == '\u{202D}'
    ||| c == '\u{202E}'
    ||| c == '\u{2066}'
    ||| c == '\u{2067}'
    ||| c == '\u{2068}'
    ||| c == '\u{2069}'
    ||| c == '\u{200E}'
    ||| c == '\u{200F}'
    ||| c == '\u{061C}'
}

/// Each of the eleven bidirectional control characters (LRE, RLE, LRO, RLO,
/// LRI, RLI, FSI, PDI, LRM, RLM, ALM) is dangerous, and no other character is.
pub proof fn lemma_bidi_controls_are_dangerous(c: char)
    ensures
        is_dangerous_char('\u{202A}'),
        is_dangerous_char('\u{202B}'),
        is_dangerous_char('\u{202D}'),
        is_dangerous_char('\u{202E}'),
        is_dangerous_char('\u{2066}'),
        is_dangerous_char('\u{2067}'),
        is_dangerous_char('\u{2068}'),
        is_dangerous_char('\u{2069}'),
        is_dangerous_char('\u{200E}'),
        is_dangerous_char('\u{200F}'),
        is_dangerous_char('\u{061C}'),
        !is_dangerous_char(c) <== (c as u32) < 0x061C,
        !is_dangerous_char(c) <== (c as u32) > 0x2069,
{
}

/// Whether the source holds a bidirectional control character (the check
/// that the analyser runs on every source).
pub fn is_dangerous(c: char) -> (r: bool)
    ensures
        r == is_dangerous_char(c),
{
    c == '\u{202A}' || c == '\u{202B}' || c == '\u{202D}' || c == '\u{202E}' || c == '\u{2066}'
        || c == '\u{2067}' || c == '\u{2068}' || c == '\u{2069}' || c == '\u{200E}' || c
        == '\u{200F}' || c == '\u{061C}'
}

pub fn verify(source: &str) -> (r: bool)
    ensures
        r == exists|i: int| 0 <= i < source@.len() && is_dangerous_char(#[trigger] source@[i]),
{
    for c in it: source.chars()
        invariant
            it.seq() == source@,
            forall|j: int| 0 <= j < it.index() ==> !is_dangerous_char(#[trigger] source@[j]),
    {
        if is_dangerous(c) {
            assert(source@[it.index() as int] == c);
            return true;
        }
    }
    false
}

} // verus!
