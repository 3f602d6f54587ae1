//! The attribute list of IBus preedit text: the whole preedit is underlined.
//! Serialising the text and its attributes for D-Bus is left to the caller.

use vstd::prelude::*;
use vstd::string::*;

verus! {

/// IBus attribute type: underline.
pub const IBUS_ATTR_TYPE_UNDERLINE: u32 = 1;
/// IBus attribute type: foreground colour.
pub const IBUS_ATTR_TYPE_FOREGROUND: u32 = 2;
/// IBus attribute type: background colour.
pub const IBUS_ATTR_TYPE_BACKGROUND: u32 = 3;
/// Underline style: single.
pub const IBUS_ATTR_UNDERLINE_SINGLE: u32 = 1;

/// One IBus text attribute over the characters `start..end`.
#[derive(Clone, Copy, Debug, PartialEq, Eq, Structural)]
pub struct TextAttribute {
    pub attr_type: u32,
    pub value: u32,
    pub start: u32,
    pub end: u32,
}

/// The attributes of a preedit text: one single underline over all of it, or
/// none for an empty text.
pub open spec fn preedit_attribute_list(text: Seq<char>) -> Seq<TextAttribute> {
    let n = text.len() as u32;
    if n > 0 {
        seq![
            TextAttribute {
                attr_type: IBUS_ATTR_TYPE_UNDERLINE,
                value: IBUS_ATTR_UNDERLINE_SINGLE,
                start: 0,
                end: n,
            },
        ]
    } else {
        Seq::empty()
    }
}

/// Every non-empty preedit is underlined once over all of its characters,
/// and only the empty preedit has no attribute.
pub proof fn lemma_preedit_underlined(text: Seq<char>)
    requires
        text.len() <= u32::MAX,
    ensures
        text.len() > 0 ==> preedit_attribute_list(text) == seq![
            TextAttribute { attr_type: 1, value: 1, start: 0, end: text.len() as u32 },
        ],
        text.len() == 0 <==> preedit_attribute_list(text).len() == 0,
{
}

/// The attributes of a preedit text (the typical Hangul preedit: all of it
/// underlined once).
pub fn preedit_attributes(text: &str) -> (r: Vec<TextAttribute>)
    ensures
        r@ == preedit_attribute_list(text@),
{
    let char_len = preedit_cursor(text);
    if char_len > 0 {
        vec![
            TextAttribute {
                attr_type: IBUS_ATTR_TYPE_UNDERLINE,
                value: IBUS_ATTR_UNDERLINE_SINGLE,
                start: 0,
                end: char_len,
            },
        ]
    } else {
        Vec::new()
    }
}

/// The cursor position after a preedit text: its length in characters.
pub fn preedit_cursor(text: &str) -> (r: u32)
    ensures
        r == text@.len() as u32,
{
    let n = text.unicode_len();
    #[verifier::truncate]
    (n as u32)
}

} // verus!
