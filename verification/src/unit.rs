//! The Nalgaeset unit model and the interpretation of mnemonics and operands.
//!
//! The operand of `H3|<operand>` is either a mnemonic (`_GG`, `O_`, `RS`) or a
//! number (`0x1F4`, `0x810000`). A mnemonic names a position (initial, medial,
//! final) and a letter; a number is the alternation toggle (500), a virtual
//! unit (`id << 16`) or a raw conjoining jamo code point.

use vstd::prelude::*;

use crate::jamo::{
    lemma_tables, cho_index, jong_index, jung_index, modern_cho_index, modern_jong_index, modern_jung_index,
    CHO, JONG, JUNG,
};
use crate::text::{
    all_whitespace, digits_of, is_whitespace, lemma_digits_of, lemma_position_found,
    lemma_trimmed_padding, parse_u32_radix, parse_unsigned, position_from, trim, trimmed,
};

verus! {

/// Position of a jamo in a syllable.
#[derive(Clone, Copy, PartialEq, Eq, Structural, Debug, Hash)]
pub enum Category {
    /// Initial consonant.
    Cho,
    /// Medial vowel.
    Jung,
    /// Final consonant.
    Jong,
}

/// A resolved Hangul jamo unit: position plus conjoining jamo code point.
#[derive(Clone, Copy, PartialEq, Eq, Structural, Debug, Hash)]
pub struct Jamo {
    pub category: Category,
    /// Conjoining jamo code point (U+1100 block, old Hangul or the extended blocks).
    pub cp: u32,
}

/// The unit that `H3|<operand>` designates.
#[derive(Clone, Copy, PartialEq, Eq, Structural, Debug)]
pub enum Unit {
    /// An ordinary Hangul jamo.
    Jamo(Jamo),
    /// The same-key alternation toggle (500 = 0x1F4).
    Toggle,
    /// An unresolved virtual unit id, to be resolved through the virtual unit table.
    Virtual(u32),
}

/// The internal unit value of the alternation toggle.
pub const TOGGLE: u32 = 500;

/// Compatibility jamo of the modern initials, by initial index.
pub const CHO_COMPAT: [u32; 19] = [
    0x3131, 0x3132, 0x3134, 0x3137, 0x3138, 0x3139, 0x3141, 0x3142, 0x3143, 0x3145, 0x3146, 0x3147,
    0x3148, 0x3149, 0x314A, 0x314B, 0x314C, 0x314D, 0x314E,
];

/// Compatibility jamo of the modern medials, by medial index (U+314F..=U+3163).
pub const JUNG_COMPAT: [u32; 21] = [
    0x314F, 0x3150, 0x3151, 0x3152, 0x3153, 0x3154, 0x3155, 0x3156, 0x3157, 0x3158, 0x3159, 0x315A,
    0x315B, 0x315C, 0x315D, 0x315E, 0x315F, 0x3160, 0x3161, 0x3162, 0x3163,
];

/// Compatibility jamo of the finals, by final index; index 0 (no final) holds 0.
pub const JONG_COMPAT: [u32; 28] = [
    0x0000, 0x3131, 0x3132, 0x3133, 0x3134, 0x3135, 0x3136, 0x3137, 0x3139, 0x313A, 0x313B, 0x313C,
    0x313D, 0x313E, 0x313F, 0x3140, 0x3141, 0x3142, 0x3144, 0x3145, 0x3146, 0x3147, 0x3148, 0x314A,
    0x314B, 0x314C, 0x314D, 0x314E,
];

/// The initial whose compatibility jamo is `compat`.
pub open spec fn cho_for_compat(compat: u32) -> Option<u32> {
    match position_from(CHO_COMPAT@, compat, 0) {
        Some(i) => Some(CHO@[i]),
        None => None,
    }
}

/// The medial whose compatibility jamo is `compat`.
pub open spec fn jung_for_compat(compat: u32) -> Option<u32> {
    match position_from(JUNG_COMPAT@, compat, 0) {
        Some(i) => Some(JUNG@[i]),
        None => None,
    }
}

/// The final whose compatibility jamo is `compat` ("no final" excluded).
pub open spec fn jong_for_compat(compat: u32) -> Option<u32> {
    match position_from(JONG_COMPAT@, compat, 1) {
        Some(i) => Some(JONG@[i]),
        None => None,
    }
}

/// The jamo of the given position whose compatibility jamo is `compat`.
pub open spec fn jamo_for_compat(category: Category, compat: u32) -> Option<u32> {
    match category {
        Category::Cho => cho_for_compat(compat),
        Category::Jung => jung_for_compat(compat),
        Category::Jong => jong_for_compat(compat),
    }
}

/// The compatibility jamo of a modern jamo.
pub open spec fn compat_of(j: Jamo) -> Option<u32> {
    match j.category {
        Category::Cho => match modern_cho_index(j.cp) {
            Some(i) => Some(CHO_COMPAT@[i as int]),
            None => None,
        },
        Category::Jung => match modern_jung_index(j.cp) {
            Some(i) => Some(JUNG_COMPAT@[i as int]),
            None => None,
        },
        Category::Jong => match modern_jong_index(j.cp) {
            Some(i) => Some(JONG_COMPAT@[i as int]),
            None => None,
        },
    }
}

/// The final of the same consonant as a modern initial.
pub open spec fn final_of_initial(cho_cp: u32) -> Option<u32> {
    match modern_cho_index(cho_cp) {
        Some(i) => jong_for_compat(CHO_COMPAT@[i as int]),
        None => None,
    }
}

/// The initial of the same consonant as a modern final.
pub open spec fn initial_of_final(jong_cp: u32) -> Option<u32> {
    match modern_jong_index(jong_cp) {
        Some(i) => cho_for_compat(JONG_COMPAT@[i as int]),
        None => None,
    }
}

/// The compatibility vowels U+314F..=U+3163.
pub open spec fn is_vowel(compat: u32) -> bool {
    0x314F <= compat <= 0x3163
}

/// The compatibility jamo of a one-letter mnemonic.
pub open spec fn mnemonic1_compat(a: char) -> Option<u32> {
    match a {
        'G' => Some(0x3131),
        'N' => Some(0x3134),
        'D' => Some(0x3137),
        'R' => Some(0x3139),
        'L' => Some(0x3139),
        'M' => Some(0x3141),
        'B' => Some(0x3142),
        'S' => Some(0x3145),
        'Q' => Some(0x3147),
        'J' => Some(0x3148),
        'C' => Some(0x314A),
        'K' => Some(0x314B),
        'T' => Some(0x314C),
        'P' => Some(0x314D),
        'H' => Some(0x314E),
        'A' => Some(0x314F),
        'E' => Some(0x3154),
        'O' => Some(0x3157),
        'U' => Some(0x315C),
        'I' => Some(0x3163),
        _ => None,
    }
}

/// The compatibility jamo of a two-letter mnemonic.
pub open spec fn mnemonic2_compat(a: char, b: char) -> Option<u32> {
    match (a, b) {
        ('N', 'G') => Some(0x3147),
        ('G', 'G') => Some(0x3132),
        ('G', 'S') => Some(0x3133),
        ('N', 'J') => Some(0x3135),
        ('N', 'H') => Some(0x3136),
        ('D', 'D') => Some(0x3138),
        ('R', 'G') => Some(0x313A),
        ('R', 'M') => Some(0x313B),
        ('R', 'B') => Some(0x313C),
        ('R', 'S') => Some(0x313D),
        ('R', 'T') => Some(0x313E),
        ('R', 'P') => Some(0x313F),
        ('R', 'H') => Some(0x3140),
        ('B', 'B') => Some(0x3143),
        ('B', 'S') => Some(0x3144),
        ('S', 'S') => Some(0x3146),
        ('J', 'J') => Some(0x3149),
        ('A', 'E') => Some(0x3150),
        ('Y', 'A') => Some(0x3151),
        ('E', 'O') => Some(0x3153),
        ('Y', 'E') => Some(0x3156),
        ('W', 'A') => Some(0x3158),
        ('O', 'I') => Some(0x315A),
        ('Y', 'O') => Some(0x315B),
        ('W', 'E') => Some(0x315E),
        ('W', 'I') => Some(0x315F),
        ('Y', 'U') => Some(0x3160),
        ('E', 'U') => Some(0x3161),
        _ => None,
    }
}

/// The compatibility jamo of a three-letter mnemonic.
pub open spec fn mnemonic3_compat(a: char, b: char, c: char) -> Option<u32> {
    match (a, b, c) {
        ('Y', 'A', 'E') => Some(0x3152),
        ('Y', 'E', 'O') => Some(0x3155),
        ('W', 'A', 'E') => Some(0x3159),
        ('U', 'E', 'O') => Some(0x315D),
        ('E', 'U', 'I') => Some(0x3162),
        _ => None,
    }
}

/// The compatibility jamo that a mnemonic letter token (underscores removed)
/// names, whatever its position.
pub open spec fn mnemonic_compat(core: Seq<char>) -> Option<u32> {
    if core.len() == 1 {
        mnemonic1_compat(core[0])
    } else if core.len() == 2 {
        mnemonic2_compat(core[0], core[1])
    } else if core.len() == 3 {
        mnemonic3_compat(core[0], core[1], core[2])
    } else {
        None
    }
}

/// The principal mnemonic of a compatibility jamo U+3131..=U+3163 (`R` for ㄹ,
/// `Q` for ㅇ).
pub open spec fn mnemonic_name(compat: u32) -> Seq<char> {
    match compat {
        0x3131 => seq!['G'],
        0x3132 => seq!['G', 'G'],
        0x3133 => seq!['G', 'S'],
        0x3134 => seq!['N'],
        0x3135 => seq!['N', 'J'],
        0x3136 => seq!['N', 'H'],
        0x3137 => seq!['D'],
        0x3138 => seq!['D', 'D'],
        0x3139 => seq!['R'],
        0x313A => seq!['R', 'G'],
        0x313B => seq!['R', 'M'],
        0x313C => seq!['R', 'B'],
        0x313D => seq!['R', 'S'],
        0x313E => seq!['R', 'T'],
        0x313F => seq!['R', 'P'],
        0x3140 => seq!['R', 'H'],
        0x3141 => seq!['M'],
        0x3142 => seq!['B'],
        0x3143 => seq!['B', 'B'],
        0x3144 => seq!['B', 'S'],
        0x3145 => seq!['S'],
        0x3146 => seq!['S', 'S'],
        0x3147 => seq!['Q'],
        0x3148 => seq!['J'],
        0x3149 => seq!['J', 'J'],
        0x314A => seq!['C'],
        0x314B => seq!['K'],
        0x314C => seq!['T'],
        0x314D => seq!['P'],
        0x314E => seq!['H'],
        0x314F => seq!['A'],
        0x3150 => seq!['A', 'E'],
        0x3151 => seq!['Y', 'A'],
        0x3152 => seq!['Y', 'A', 'E'],
        0x3153 => seq!['E', 'O'],
        0x3154 => seq!['E'],
        0x3155 => seq!['Y', 'E', 'O'],
        0x3156 => seq!['Y', 'E'],
        0x3157 => seq!['O'],
        0x3158 => seq!['W', 'A'],
        0x3159 => seq!['W', 'A', 'E'],
        0x315A => seq!['O', 'I'],
        0x315B => seq!['Y', 'O'],
        0x315C => seq!['U'],
        0x315D => seq!['U', 'E', 'O'],
        0x315E => seq!['W', 'E'],
        0x315F => seq!['W', 'I'],
        0x3160 => seq!['Y', 'U'],
        0x3161 => seq!['E', 'U'],
        0x3162 => seq!['E', 'U', 'I'],
        0x3163 => seq!['I'],
        _ => Seq::empty(),
    }
}

/// Every mnemonic is the principal name of its compatibility jamo, or one of
/// the alternative spellings `L` (ㄹ) and `NG` (ㅇ).
proof fn lemma_mnemonic_names(m: Seq<char>)
    ensures
        mnemonic_compat(m) matches Some(c) ==> m == mnemonic_name(c) || (c == 0x3139 && m
            == seq!['L']) || (c == 0x3147 && m == seq!['N', 'G']),
{
}

/// Each compatibility jamo U+3131..=U+3163 is given by its principal mnemonic.
proof fn lemma_mnemonic_named(compat: u32)
    requires
        0x3131 <= compat <= 0x3163,
    ensures
        mnemonic_compat(mnemonic_name(compat)) == Some(compat),
{
}

/// The mnemonic table names exactly the compatibility jamo U+3131..=U+3163:
/// every mnemonic gives one of them, each of them has a mnemonic, and two
/// different mnemonics give the same jamo only for the spellings R/L (ㄹ) and
/// Q/NG (ㅇ). Mnemonics are upper case, and underscores are not part of them.
pub proof fn lemma_mnemonic_table(a: Seq<char>, b: Seq<char>, compat: u32)
    ensures
        mnemonic_compat(a) matches Some(c) ==> 0x3131 <= c <= 0x3163,
        0x3131 <= compat <= 0x3163 ==> mnemonic_compat(mnemonic_name(compat)) == Some(compat),
        a != b && mnemonic_compat(a) is Some && mnemonic_compat(a) == mnemonic_compat(b) ==> {
            ||| (a == seq!['R'] && b == seq!['L'])
            ||| (a == seq!['L'] && b == seq!['R'])
            ||| (a == seq!['Q'] && b == seq!['N', 'G'])
            ||| (a == seq!['N', 'G'] && b == seq!['Q'])
        },
        mnemonic_compat(seq!['g']) is None,
        mnemonic_compat(seq!['G', '_']) is None,
{
    lemma_mnemonic_names(a);
    lemma_mnemonic_names(b);
    if 0x3131 <= compat <= 0x3163 {
        lemma_mnemonic_named(compat);
    }
}

/// The letter token and the position that the underscores of a mnemonic give:
/// `_X` is a final; `X_` and a bare `X` leave the position to the letter.
pub open spec fn mnemonic_parts(s: Seq<char>) -> (Seq<char>, Option<Category>) {
    if s.len() > 0 && s[0] == '_' {
        (s.drop_first(), Some(Category::Jong))
    } else if s.len() > 0 && s.last() == '_' {
        (s.drop_last(), None)
    } else {
        (s, None)
    }
}

/// The unit a mnemonic designates. A given context position overrides the
/// position of the underscores; without either, vowels are medials and
/// consonants initials.
pub open spec fn mnemonic_unit(s: Seq<char>, ctx: Option<Category>) -> Option<Unit> {
    let (core, pos) = mnemonic_parts(s);
    match mnemonic_compat(core) {
        None => None,
        Some(compat) => {
            let category = match ctx {
                Some(c) => c,
                None => match pos {
                    Some(c) => c,
                    None => if is_vowel(compat) {
                        Category::Jung
                    } else {
                        Category::Cho
                    },
                },
            };
            match jamo_for_compat(category, compat) {
                Some(cp) => Some(Unit::Jamo(Jamo { category, cp })),
                None => None,
            }
        },
    }
}

/// The position of a conjoining jamo code point, by block range (old Hangul and
/// the extended blocks included).
pub open spec fn codepoint_category(cp: u32) -> Option<Category> {
    if 0x1100 <= cp <= 0x115F {
        Some(Category::Cho)
    } else if 0x1160 <= cp <= 0x11A7 {
        Some(Category::Jung)
    } else if 0x11A8 <= cp <= 0x11FF {
        Some(Category::Jong)
    } else if 0xA960 <= cp <= 0xA97F {
        Some(Category::Cho)
    } else if 0xD7B0 <= cp <= 0xD7CA {
        Some(Category::Jung)
    } else if 0xD7CB <= cp <= 0xD7FF {
        Some(Category::Jong)
    } else {
        None
    }
}

/// The unit a numeric operand designates: 500 is the toggle, a non-zero
/// multiple of 0x10000 is the virtual unit `n / 0x10000`, anything else a raw
/// conjoining jamo code point.
pub open spec fn numeric_unit(n: u32) -> Option<Unit> {
    if n == TOGGLE {
        Some(Unit::Toggle)
    } else if n % 0x10000 == 0 && n != 0 {
        Some(Unit::Virtual(n / 0x10000))
    } else {
        match codepoint_category(n) {
            Some(c) => Some(Unit::Jamo(Jamo { category: c, cp: n })),
            None => None,
        }
    }
}

/// The number a trimmed operand writes: `0x`/`0X` then hexadecimal, otherwise
/// decimal.
pub open spec fn operand_number(s: Seq<char>) -> Option<u32> {
    let t = trimmed(s);
    if t.len() >= 2 && t[0] == '0' && (t[1] == 'x' || t[1] == 'X') {
        parse_unsigned(t.skip(2), 16)
    } else {
        parse_unsigned(t, 10)
    }
}

/// The unit an operand (number or mnemonic) designates.
pub open spec fn operand_unit(s: Seq<char>, ctx: Option<Category>) -> Option<Unit> {
    let t = trimmed(s);
    match operand_number(t) {
        Some(n) => numeric_unit(n),
        None => mnemonic_unit(t, ctx),
    }
}

/// In a strictly increasing table every entry is found at its own index.
pub proof fn lemma_position_of_entry(table: Seq<u32>, i: int, from: int)
    requires
        0 <= from <= i < table.len(),
        forall|a: int, b: int| from <= a < b < table.len() ==> table[a] < table[b],
    ensures
        position_from(table, table[i], from) == Some(i),
    decreases i - from,
{
    if from < i {
        lemma_position_of_entry(table, i, from + 1);
    }
}

/// A modern jamo's compatibility jamo leads back to the same jamo in the same
/// position; the 0 that stands for "no final" leads to no final.
pub proof fn lemma_compat_roundtrip(j: Jamo)
    ensures
        compat_of(j) matches Some(c) ==> jamo_for_compat(j.category, c) == Some(j.cp),
        jong_for_compat(0) is None,
{
    lemma_compat_tables_sorted();
    lemma_position_found(JONG_COMPAT@, 0, 1);
    match j.category {
        Category::Cho => if let Some(i) = modern_cho_index(j.cp) {
            lemma_position_of_entry(CHO_COMPAT@, i as int, 0);
            lemma_tables(i as int);
        },
        Category::Jung => if let Some(i) = modern_jung_index(j.cp) {
            lemma_position_of_entry(JUNG_COMPAT@, i as int, 0);
            lemma_tables(i as int);
        },
        Category::Jong => if let Some(i) = modern_jong_index(j.cp) {
            lemma_position_of_entry(JONG_COMPAT@, i as int, 1);
            lemma_tables(i as int);
        },
    }
}

/// An initial has a final of the same consonant exactly when its compatibility
/// jamo is among those of the finals, and that final has the same
/// compatibility jamo; the same holds the other way round. Non-modern code
/// points have no counterpart.
pub proof fn lemma_initial_final_counterparts(cho_cp: u32, jong_cp: u32)
    ensures
        modern_cho_index(cho_cp) is None ==> final_of_initial(cho_cp) is None,
        modern_cho_index(cho_cp) matches Some(i) ==> (final_of_initial(cho_cp) is Some <==> exists|k: int|
            1 <= k < 28 && JONG_COMPAT@[k] == CHO_COMPAT@[i as int]),
        modern_cho_index(cho_cp) matches Some(i) ==> (final_of_initial(cho_cp) matches Some(f)
            ==> (modern_jong_index(f) matches Some(k) && JONG_COMPAT@[k as int]
            == CHO_COMPAT@[i as int])),
        modern_jong_index(jong_cp) is None ==> initial_of_final(jong_cp) is None,
        modern_jong_index(jong_cp) matches Some(k) ==> (initial_of_final(jong_cp) is Some <==> exists|i: int|
            0 <= i < 19 && CHO_COMPAT@[i] == JONG_COMPAT@[k as int]),
        modern_jong_index(jong_cp) matches Some(k) ==> (initial_of_final(jong_cp) matches Some(c)
            ==> (modern_cho_index(c) matches Some(i) && CHO_COMPAT@[i as int]
            == JONG_COMPAT@[k as int])),
{
    if let Some(i) = modern_cho_index(cho_cp) {
        let compat = CHO_COMPAT@[i as int];
        lemma_position_found(JONG_COMPAT@, compat, 1);
        if let Some(k) = position_from(JONG_COMPAT@, compat, 1) {
            lemma_tables(k);
        }
    }
    if let Some(k) = modern_jong_index(jong_cp) {
        let compat = JONG_COMPAT@[k as int];
        lemma_position_found(CHO_COMPAT@, compat, 0);
        if let Some(i) = position_from(CHO_COMPAT@, compat, 0) {
            lemma_tables(i);
        }
    }
}

/// Turning an initial into the final of the same consonant and back gives the
/// initial again, and the other way round.
pub proof fn lemma_initial_final_roundtrip(cho_cp: u32, jong_cp: u32)
    ensures
        final_of_initial(cho_cp) matches Some(f) ==> initial_of_final(f) == Some(cho_cp),
        initial_of_final(jong_cp) matches Some(c) ==> final_of_initial(c) == Some(jong_cp),
{
    lemma_compat_tables_sorted();
    if let Some(i) = modern_cho_index(cho_cp) {
        let compat = CHO_COMPAT@[i as int];
        lemma_position_found(JONG_COMPAT@, compat, 1);
        if let Some(k) = position_from(JONG_COMPAT@, compat, 1) {
            lemma_tables(k);
            lemma_tables(i as int);
            lemma_position_of_entry(CHO_COMPAT@, i as int, 0);
        }
    }
    if let Some(k) = modern_jong_index(jong_cp) {
        let compat = JONG_COMPAT@[k as int];
        lemma_position_found(CHO_COMPAT@, compat, 0);
        if let Some(i) = position_from(CHO_COMPAT@, compat, 0) {
            lemma_tables(k as int);
            lemma_tables(i);
            lemma_position_of_entry(JONG_COMPAT@, k as int, 1);
        }
    }
}

/// `parse_int` reads back every `u32` written in decimal (as `{}` prints it)
/// and in hexadecimal of either case behind `0x` or `0X` (as `{:#x}` and
/// `0X{:X}` print it), with any whitespace around it.
pub proof fn lemma_parse_int_reads_formatted(n: u32, pre: Seq<char>, post: Seq<char>, upper: bool)
    requires
        all_whitespace(pre),
        all_whitespace(post),
    ensures
        operand_number(pre + digits_of(n as nat, 10, false) + post) == Some(n),
        operand_number(pre + (seq!['0', 'x'] + digits_of(n as nat, 16, upper)) + post) == Some(n),
        operand_number(pre + (seq!['0', 'X'] + digits_of(n as nat, 16, upper)) + post) == Some(n),
{
    let d = digits_of(n as nat, 10, false);
    lemma_digits_of(n as nat, 10, false);
    assert(!is_whitespace(d[0]) && !is_whitespace(d[d.len() - 1]));
    lemma_trimmed_padding(pre, d, post);
    if d.len() >= 2 {
        assert(d[1] != 'x' && d[1] != 'X');
    }
    assert(d[0] != '+');
    let h = digits_of(n as nat, 16, upper);
    lemma_digits_of(n as nat, 16, upper);
    assert(!is_whitespace(h[h.len() - 1]));
    let hx = seq!['0', 'x'] + h;
    let hX = seq!['0', 'X'] + h;
    assert(hx[0] == '0' && hx[1] == 'x' && hx[hx.len() - 1] == h[h.len() - 1]);
    assert(hX[0] == '0' && hX[1] == 'X' && hX[hX.len() - 1] == h[h.len() - 1]);
    assert(!is_whitespace('0'));
    lemma_trimmed_padding(pre, hx, post);
    lemma_trimmed_padding(pre, hX, post);
    assert(hx.skip(2) =~= h);
    assert(hX.skip(2) =~= h);
    assert(h[0] != '+');
}

/// A mnemonic resolves to a jamo of the letter it names: the jamo's
/// compatibility form is the mnemonic's letter. Its position is the context
/// position when one is given, and a final for a leading underscore otherwise.
pub proof fn lemma_mnemonic_unit_letter(s: Seq<char>, ctx: Option<Category>)
    ensures
        mnemonic_unit(s, ctx) matches Some(Unit::Jamo(j)) ==> {
            &&& compat_of(j) == mnemonic_compat(mnemonic_parts(s).0)
            &&& (ctx matches Some(c) ==> j.category == c)
            &&& (ctx is None && s.len() > 0 && s[0] == '_' ==> j.category == Category::Jong)
            &&& (ctx is None && !(s.len() > 0 && s[0] == '_') ==> (j.category == Category::Jung
                <==> (0x314F <= mnemonic_compat(mnemonic_parts(s).0)->0 <= 0x3163)))
            &&& (ctx is None && !(s.len() > 0 && s[0] == '_') ==> j.category != Category::Jong)
        },
{
    lemma_compat_tables_sorted();
    let (core, pos) = mnemonic_parts(s);
    if let Some(compat) = mnemonic_compat(core) {
        lemma_position_found(CHO_COMPAT@, compat, 0);
        lemma_position_found(JUNG_COMPAT@, compat, 0);
        lemma_position_found(JONG_COMPAT@, compat, 1);
        if let Some(i) = position_from(CHO_COMPAT@, compat, 0) {
            lemma_tables(i);
        }
        if let Some(i) = position_from(JUNG_COMPAT@, compat, 0) {
            lemma_tables(i);
        }
        if let Some(i) = position_from(JONG_COMPAT@, compat, 1) {
            lemma_tables(i);
        }
    }
}

/// A trailing underscore changes nothing, and a leading one reads the letter
/// as a final, as a final context would.
pub proof fn lemma_mnemonic_underscores(core: Seq<char>, ctx: Option<Category>)
    requires
        core.len() > 0,
        core[0] != '_',
        core.last() != '_',
    ensures
        mnemonic_unit(core.push('_'), ctx) == mnemonic_unit(core, ctx),
        mnemonic_unit(seq!['_'] + core, None) == mnemonic_unit(core, Some(Category::Jong)),
{
    assert(core.push('_').drop_last() =~= core);
    assert((seq!['_'] + core).drop_first() =~= core);
    assert((seq!['_'] + core)[0] == '_');
    assert(core.push('_')[0] == core[0]);
}

/// 500 is the toggle; any other number that is not a non-zero multiple of
/// 0x10000 stands for itself as a code point, and is a unit exactly when it is
/// a conjoining jamo.
pub proof fn lemma_numeric_codepoint(n: u32)
    ensures
        numeric_unit(500) == Some(Unit::Toggle),
        n != 500 && !(n % 0x10000 == 0 && n != 0) ==> {
            &&& (numeric_unit(n) is Some <==> crate::jamo::is_conjoining_code(n))
            &&& (numeric_unit(n) matches Some(u) ==> (u matches Unit::Jamo(j) && j.cp == n))
        },
{
    lemma_codepoint_category(n);
}

/// Virtual unit `id` written as `id << 16` is read back as that id.
pub proof fn lemma_virtual_operand(id: u32)
    requires
        1 <= id < 0x10000,
    ensures
        numeric_unit((id * 0x10000) as u32) == Some(Unit::Virtual(id)),
{
    assert(id * 0x10000 <= u32::MAX) by (nonlinear_arith)
        requires id < 0x10000;
    assert((id * 0x10000) % 0x10000 == 0 && (id * 0x10000) / 0x10000 == id) by (nonlinear_arith);
}

/// The block ranges give a position to exactly the conjoining jamo, and modern
/// jamo get their own position.
pub proof fn lemma_codepoint_category(cp: u32)
    ensures
        codepoint_category(cp) is Some <==> crate::jamo::is_conjoining_code(cp),
        modern_cho_index(cp) is Some ==> codepoint_category(cp) == Some(Category::Cho),
        modern_jung_index(cp) is Some ==> codepoint_category(cp) == Some(Category::Jung),
        modern_jong_index(cp) is Some ==> codepoint_category(cp) == Some(Category::Jong),
{
}

proof fn lemma_compat_tables_sorted()
    ensures
        forall|i: int, j: int| 0 <= i < j < 19 ==> CHO_COMPAT@[i] < CHO_COMPAT@[j],
        forall|i: int, j: int| 0 <= i < j < 21 ==> JUNG_COMPAT@[i] < JUNG_COMPAT@[j],
        forall|i: int, j: int| 0 <= i < j < 28 ==> JONG_COMPAT@[i] < JONG_COMPAT@[j],
{
}

/// The compatibility jamo of a one-letter mnemonic.
fn letters1_compat(a: char) -> (r: Option<u32>)
    ensures
        r == mnemonic1_compat(a),
{
    match a {
        'G' => Some(0x3131),
        'N' => Some(0x3134),
        'D' => Some(0x3137),
        'R' => Some(0x3139),
        'L' => Some(0x3139),
        'M' => Some(0x3141),
        'B' => Some(0x3142),
        'S' => Some(0x3145),
        'Q' => Some(0x3147),
        'J' => Some(0x3148),
        'C' => Some(0x314A),
        'K' => Some(0x314B),
        'T' => Some(0x314C),
        'P' => Some(0x314D),
        'H' => Some(0x314E),
        'A' => Some(0x314F),
        'E' => Some(0x3154),
        'O' => Some(0x3157),
        'U' => Some(0x315C),
        'I' => Some(0x3163),
        _ => None,
    }
}

/// The compatibility jamo of a two-letter mnemonic.
fn letters2_compat(a: char, b: char) -> (r: Option<u32>)
    ensures
        r == mnemonic2_compat(a, b),
{
    match (a, b) {
        ('N', 'G') => Some(0x3147),
        ('G', 'G') => Some(0x3132),
        ('G', 'S') => Some(0x3133),
        ('N', 'J') => Some(0x3135),
        ('N', 'H') => Some(0x3136),
        ('D', 'D') => Some(0x3138),
        ('R', 'G') => Some(0x313A),
        ('R', 'M') => Some(0x313B),
        ('R', 'B') => Some(0x313C),
        ('R', 'S') => Some(0x313D),
        ('R', 'T') => Some(0x313E),
        ('R', 'P') => Some(0x313F),
        ('R', 'H') => Some(0x3140),
        ('B', 'B') => Some(0x3143),
        ('B', 'S') => Some(0x3144),
        ('S', 'S') => Some(0x3146),
        ('J', 'J') => Some(0x3149),
        ('A', 'E') => Some(0x3150),
        ('Y', 'A') => Some(0x3151),
        ('E', 'O') => Some(0x3153),
        ('Y', 'E') => Some(0x3156),
        ('W', 'A') => Some(0x3158),
        ('O', 'I') => Some(0x315A),
        ('Y', 'O') => Some(0x315B),
        ('W', 'E') => Some(0x315E),
        ('W', 'I') => Some(0x315F),
        ('Y', 'U') => Some(0x3160),
        ('E', 'U') => Some(0x3161),
        _ => None,
    }
}

/// The compatibility jamo of a three-letter mnemonic.
fn letters3_compat(a: char, b: char, c: char) -> (r: Option<u32>)
    ensures
        r == mnemonic3_compat(a, b, c),
{
    match (a, b, c) {
        ('Y', 'A', 'E') => Some(0x3152),
        ('Y', 'E', 'O') => Some(0x3155),
        ('W', 'A', 'E') => Some(0x3159),
        ('U', 'E', 'O') => Some(0x315D),
        ('E', 'U', 'I') => Some(0x3162),
        _ => None,
    }
}

/// The compatibility jamo that a mnemonic letter token (underscores removed)
/// names, whatever its position.
fn mnemonic_to_compat(core: &str) -> (r: Option<u32>)
    ensures
        r == mnemonic_compat(core@),
{
    let n = core.unicode_len();
    if n == 1 {
        letters1_compat(core.get_char(0))
    } else if n == 2 {
        letters2_compat(core.get_char(0), core.get_char(1))
    } else if n == 3 {
        letters3_compat(core.get_char(0), core.get_char(1), core.get_char(2))
    } else {
        None
    }
}

impl Jamo {
    /// A jamo unit of the given position and code point.
    pub fn new(category: Category, cp: u32) -> (r: Self)
        ensures
            r == (Jamo { category, cp }),
    {
        Jamo { category, cp }
    }

    /// The compatibility jamo (U+31xx) of a modern jamo; `None` for old Hangul,
    /// which depends on the configuration's final conversion table.
    pub fn default_compat(&self) -> (r: Option<u32>)
        ensures
            r == compat_of(*self),
    {
        match self.category {
            Category::Cho => match cho_index(self.cp) {
                Some(i) => Some(CHO_COMPAT[i as usize]),
                None => None,
            },
            Category::Jung => match jung_index(self.cp) {
                Some(i) => Some(JUNG_COMPAT[i as usize]),
                None => None,
            },
            Category::Jong => match jong_index(self.cp) {
                Some(i) => Some(JONG_COMPAT[i as usize]),
                None => None,
            },
        }
    }
}

/// The initial whose compatibility jamo is `compat`.
fn cho_cp_for_compat(compat: u32) -> (r: Option<u32>)
    ensures
        r == cho_for_compat(compat),
{
    let mut i: usize = 0;
    while i < 19
        invariant
            i <= 19,
            position_from(CHO_COMPAT@, compat, 0) == position_from(CHO_COMPAT@, compat, i as int),
        decreases 19 - i,
    {
        if CHO_COMPAT[i] == compat {
            return Some(CHO[i]);
        }
        i = i + 1;
    }
    None
}

/// The medial whose compatibility jamo is `compat`.
fn jung_cp_for_compat(compat: u32) -> (r: Option<u32>)
    ensures
        r == jung_for_compat(compat),
{
    let mut i: usize = 0;
    while i < 21
        invariant
            i <= 21,
            position_from(JUNG_COMPAT@, compat, 0) == position_from(JUNG_COMPAT@, compat, i as int),
        decreases 21 - i,
    {
        if JUNG_COMPAT[i] == compat {
            return Some(JUNG[i]);
        }
        i = i + 1;
    }
    None
}

/// The final whose compatibility jamo is `compat`; index 0 ("no final") is
/// skipped.
fn jong_cp_for_compat(compat: u32) -> (r: Option<u32>)
    ensures
        r == jong_for_compat(compat),
{
    let mut i: usize = 1;
    while i < 28
        invariant
            1 <= i <= 28,
            position_from(JONG_COMPAT@, compat, 1) == position_from(JONG_COMPAT@, compat, i as int),
        decreases 28 - i,
    {
        if JONG_COMPAT[i] == compat {
            return Some(JONG[i]);
        }
        i = i + 1;
    }
    None
}

/// The compatibility jamo is a vowel (U+314F..=U+3163).
fn is_vowel_compat(compat: u32) -> (r: bool)
    ensures
        r == is_vowel(compat),
{
    0x314F <= compat && compat <= 0x3163
}

/// The final of the same consonant as an initial, e.g. initial ㄱ (U+1100) →
/// final ㄱ (U+11A8); `None` when there is none.
pub fn cho_to_jong(cho_cp: u32) -> (r: Option<u32>)
    ensures
        r == final_of_initial(cho_cp),
{
    match cho_index(cho_cp) {
        Some(i) => jong_cp_for_compat(CHO_COMPAT[i as usize]),
        None => None,
    }
}

/// The initial of the same consonant as a final, e.g. final ㅇ (U+11BC) →
/// initial ㅇ (U+110B); `None` when there is none.
pub fn jong_to_cho(jong_cp: u32) -> (r: Option<u32>)
    ensures
        r == initial_of_final(jong_cp),
{
    match jong_index(jong_cp) {
        Some(i) => cho_cp_for_compat(JONG_COMPAT[i as usize]),
        None => None,
    }
}

/// The jamo of the given position whose compatibility jamo is `compat`.
fn cp_for_compat(category: Category, compat: u32) -> (r: Option<u32>)
    ensures
        r == jamo_for_compat(category, compat),
{
    match category {
        Category::Cho => cho_cp_for_compat(compat),
        Category::Jung => jung_cp_for_compat(compat),
        Category::Jong => jong_cp_for_compat(compat),
    }
}

/// Resolves a mnemonic to a unit. A given `ctx` (as in a unit mix rule) forces
/// the position; otherwise the underscore (`_X` final, `X_` initial or vowel)
/// and the letter decide it.
pub fn resolve_mnemonic(s: &str, ctx: Option<Category>) -> (r: Option<Unit>)
    ensures
        r == mnemonic_unit(s@, ctx),
{
    let n = s.unicode_len();
    let (core, pos_category): (&str, Option<Category>) = if n > 0 && s.get_char(0) == '_' {
        let rest = s.substring_char(1, n);
        assert(rest@ =~= s@.drop_first());
        (rest, Some(Category::Jong))
    } else if n > 0 && s.get_char(n - 1) == '_' {
        let rest = s.substring_char(0, n - 1);
        assert(rest@ =~= s@.drop_last());
        (rest, None)
    } else {
        (s, None)
    };
    let compat = match mnemonic_to_compat(core) {
        Some(c) => c,
        None => return None,
    };
    let category = match ctx {
        Some(c) => c,
        None => match pos_category {
            Some(c) => c,
            None => if is_vowel_compat(compat) {
                Category::Jung
            } else {
                Category::Cho
            },
        },
    };
    match cp_for_compat(category, compat) {
        Some(cp) => Some(Unit::Jamo(Jamo::new(category, cp))),
        None => None,
    }
}

/// Resolves a numeric operand: 500 is the alternation toggle; `id << 16` (low
/// 16 bits zero, high bits non-zero) is virtual unit `id`; anything else is a
/// conjoining jamo code point whose position its block gives (old Hangul
/// included).
pub fn resolve_numeric(n: u32) -> (r: Option<Unit>)
    ensures
        r == numeric_unit(n),
{
    if n == TOGGLE {
        return Some(Unit::Toggle);
    }
    assert((n & 0xFFFF == 0) == (n % 0x10000 == 0)) by (bit_vector);
    assert(n >> 16 == n / 0x10000) by (bit_vector);
    if n & 0xFFFF == 0 && n >> 16 != 0 {
        return Some(Unit::Virtual(n >> 16));
    }
    match category_of_codepoint(n) {
        Some(cat) => Some(Unit::Jamo(Jamo::new(cat, n))),
        None => None,
    }
}

/// The position of a conjoining jamo code point, by block range (old Hangul and
/// the extended blocks included).
pub fn category_of_codepoint(cp: u32) -> (r: Option<Category>)
    ensures
        r == codepoint_category(cp),
{
    if 0x1100 <= cp && cp <= 0x115F {
        Some(Category::Cho)
    } else if 0x1160 <= cp && cp <= 0x11A7 {
        Some(Category::Jung)
    } else if 0x11A8 <= cp && cp <= 0x11FF {
        Some(Category::Jong)
    } else if 0xA960 <= cp && cp <= 0xA97F {
        Some(Category::Cho)
    } else if 0xD7B0 <= cp && cp <= 0xD7CA {
        Some(Category::Jung)
    } else if 0xD7CB <= cp && cp <= 0xD7FF {
        Some(Category::Jong)
    } else {
        None
    }
}

/// Resolves an `H3|<operand>` operand, a number or a mnemonic, to a unit.
pub fn resolve_operand(s: &str, ctx: Option<Category>) -> (r: Option<Unit>)
    ensures
        r == operand_unit(s@, ctx),
{
    let s = trim(s);
    match parse_int(s) {
        Some(n) => resolve_numeric(n),
        None => resolve_mnemonic(s, ctx),
    }
}

/// Parses a `0x`/`0X` hexadecimal or a decimal integer, surrounding whitespace
/// ignored.
pub fn parse_int(s: &str) -> (r: Option<u32>)
    ensures
        r == operand_number(s@),
{
    let s = trim(s);
    let n = s.unicode_len();
    if n >= 2 && s.get_char(0) == '0' && (s.get_char(1) == 'x' || s.get_char(1) == 'X') {
        let hex = s.substring_char(2, n);
        assert(hex@ =~= s@.skip(2));
        parse_u32_radix(hex, 16)
    } else {
        parse_u32_radix(s, 10)
    }
}

} // verus!
