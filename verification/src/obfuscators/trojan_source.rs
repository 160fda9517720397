//! Trojan source: confusable and invisible characters in the source text.

use vstd::prelude::*;

verus! {

/// Bidirectional marks, zero-width characters,
/// variation selectors and the other invisible or confusable characters.
pub open spec fn spec_is_confusable_char(c: char) -> bool {
    ||| c == '\u{00A0}'
    ||| c == '\u{00AD}'
    ||| c == '\u{061C}'
    ||| c == '\u{180E}'
    ||| '\u{200B}' <= c <= '\u{200F}'
    ||| '\u{202A}' <= c <= '\u{202E}'
    ||| c == '\u{2060}'
    ||| c == '\u{2063}'
    ||| '\u{2066}' <= c <= '\u{2069}'
    ||| '\u{FE00}' <= c <= '\u{FE0F}'
    ||| c == '\u{FEFF}'
    ||| '\u{E0100}' <= c <= '\u{E01EF}'
}

pub fn is_confusable_char(c: char) -> (r: bool)
    ensures
        r == spec_is_confusable_char(c),
{
    c == '\u{00A0}' || c == '\u{00AD}' || c == '\u{061C}' || c == '\u{180E}' || ('\u{200B}' <= c
        && c <= '\u{200F}') || ('\u{202A}' <= c && c <= '\u{202E}') || c == '\u{2060}' || c
        == '\u{2063}' || ('\u{2066}' <= c && c <= '\u{2069}') || ('\u{FE00}' <= c && c
        <= '\u{FE0F}') || c == '\u{FEFF}' || ('\u{E0100}' <= c && c <= '\u{E01EF}')
}

/// Whether the text holds a confusable character.
pub fn verify(source_text_to_search: &str) -> (r: bool)
    ensures
        r == exists|i: int|
            0 <= i < source_text_to_search@.len() && spec_is_confusable_char(
                #[trigger] source_text_to_search@[i],
            ),
{
    for c in it: source_text_to_search.chars()
        invariant
            it.seq() == source_text_to_search@,
            forall|j: int|
                0 <= j < it.index() ==> !spec_is_confusable_char(
                    #[trigger] source_text_to_search@[j],
                ),
    {
        if is_confusable_char(c) {
            assert(source_text_to_search@[it.index() as int] == c);
            return true;
        }
    }
    false
}

} // verus!
