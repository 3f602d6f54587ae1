//! Unicode facts about Hangul jamo: conjoining jamo (the U+1100 block), the
//! precomposed syllable formula (U+AC00) and the modern jamo tables. Pure
//! Unicode, independent of any keyboard configuration.

use vstd::prelude::*;

verus! {

/// First precomposed syllable (가, U+AC00).
pub const SBASE: u32 = 0xAC00;
/// First conjoining initial consonant (U+1100).
pub const LBASE: u32 = 0x1100;
/// First conjoining medial vowel (U+1161).
pub const VBASE: u32 = 0x1161;
/// Final consonant base (U+11A7 = U+11A8 - 1, so final index 0 means "no final").
pub const TBASE: u32 = 0x11A7;
/// Number of modern initial consonants.
pub const LCOUNT: u32 = 19;
/// Number of modern medial vowels.
pub const VCOUNT: u32 = 21;
/// Number of finals, "no final" included.
pub const TCOUNT: u32 = 28;
/// Number of precomposed syllables (U+AC00..=U+D7A3).
pub const SCOUNT: u32 = LCOUNT * VCOUNT * TCOUNT;

/// Conjoining code points of the modern initial consonants, by index 0..=18.
pub const CHO: [u32; 19] = [
    0x1100, 0x1101, 0x1102, 0x1103, 0x1104, 0x1105, 0x1106, 0x1107, 0x1108, 0x1109, 0x110A, 0x110B,
    0x110C, 0x110D, 0x110E, 0x110F, 0x1110, 0x1111, 0x1112,
];

/// Conjoining code points of the modern medial vowels, by index 0..=20.
pub const JUNG: [u32; 21] = [
    0x1161, 0x1162, 0x1163, 0x1164, 0x1165, 0x1166, 0x1167, 0x1168, 0x1169, 0x116A, 0x116B, 0x116C,
    0x116D, 0x116E, 0x116F, 0x1170, 0x1171, 0x1172, 0x1173, 0x1174, 0x1175,
];

/// Conjoining code points of the finals, by index 0..=27. Index 0 is "no final"
/// and holds 0.
pub const JONG: [u32; 28] = [
    0x0000, 0x11A8, 0x11A9, 0x11AA, 0x11AB, 0x11AC, 0x11AD, 0x11AE, 0x11AF, 0x11B0, 0x11B1, 0x11B2,
    0x11B3, 0x11B4, 0x11B5, 0x11B6, 0x11B7, 0x11B8, 0x11B9, 0x11BA, 0x11BB, 0x11BC, 0x11BD, 0x11BE,
    0x11BF, 0x11C0, 0x11C1, 0x11C2,
];

/// The values a `char` can hold: Unicode scalar values.
pub open spec fn is_scalar_value(v: int) -> bool {
    (0 <= v <= 0xD7FF) || (0xE000 <= v <= 0x10FFFF)
}

/// `v` is the code point of a precomposed Hangul syllable.
pub open spec fn is_syllable_code(v: int) -> bool {
    SBASE <= v < SBASE + SCOUNT
}

/// The syllable formula: `SBASE + (cho * VCOUNT + jung) * TCOUNT + jong`.
pub open spec fn syllable_code(cho: int, jung: int, jong: int) -> int {
    SBASE + (cho * VCOUNT + jung) * TCOUNT + jong
}

/// Index of a modern conjoining initial consonant.
pub open spec fn modern_cho_index(cp: u32) -> Option<u8> {
    if LBASE <= cp <= 0x1112 { Some((cp - LBASE) as u8) } else { None }
}

/// Index of a modern conjoining medial vowel.
pub open spec fn modern_jung_index(cp: u32) -> Option<u8> {
    if VBASE <= cp <= 0x1175 { Some((cp - VBASE) as u8) } else { None }
}

/// Index (1..=27) of a modern conjoining final consonant.
pub open spec fn modern_jong_index(cp: u32) -> Option<u8> {
    if 0x11A8 <= cp <= 0x11C2 { Some((cp - TBASE) as u8) } else { None }
}

/// The syllable of three modern indices, where `jong == 0` means no final.
pub open spec fn syllable_of_indices(cho: u8, jung: u8, jong: u8) -> Option<char> {
    if cho < LCOUNT && jung < VCOUNT && jong < TCOUNT {
        Some(syllable_code(cho as int, jung as int, jong as int) as char)
    } else {
        None
    }
}

/// The final index that an optional final code point stands for: `None` and
/// `Some(0)` mean no final.
pub open spec fn final_index(jong_cp: Option<u32>) -> Option<u8> {
    match jong_cp {
        None => Some(0u8),
        Some(cp) => if cp == 0 { Some(0u8) } else { modern_jong_index(cp) },
    }
}

/// The syllable of three conjoining code points, when all are modern.
pub open spec fn syllable_of_jamo(cho_cp: u32, jung_cp: u32, jong_cp: Option<u32>) -> Option<char> {
    match (modern_cho_index(cho_cp), modern_jung_index(jung_cp), final_index(jong_cp)) {
        (Some(c), Some(j), Some(t)) => syllable_of_indices(c, j, t),
        _ => None,
    }
}

/// The conjoining jamo of a precomposed syllable: initial, vowel, optional final.
pub open spec fn jamo_of_syllable(syllable: char) -> Option<(u32, u32, Option<u32>)> {
    let s = syllable as int;
    if is_syllable_code(s) {
        let idx = s - SBASE;
        let t = idx % (TCOUNT as int);
        Some((
            CHO@[idx / ((VCOUNT * TCOUNT) as int)],
            JUNG@[(idx % ((VCOUNT * TCOUNT) as int)) / (TCOUNT as int)],
            if t != 0 { Some(JONG@[t]) } else { None },
        ))
    } else {
        None
    }
}

/// The conjoining jamo blocks: Hangul Jamo, Extended-A and Extended-B.
pub open spec fn is_conjoining_code(cp: u32) -> bool {
    (0x1100 <= cp <= 0x11FF) || (0xA960 <= cp <= 0xA97F) || (0xD7B0 <= cp <= 0xD7FF)
}

/// The tables hold consecutive code points.
pub proof fn lemma_tables(i: int)
    ensures
        0 <= i < 19 ==> CHO@[i] == LBASE + i,
        0 <= i < 21 ==> JUNG@[i] == VBASE + i,
        1 <= i < 28 ==> JONG@[i] == TBASE + i,
        JONG@[0] == 0,
{
}

/// `char::from_u32` of std: `Some` of the char whose scalar value is `v` when
/// `v` is a Unicode scalar value, else `None`.
#[verifier::external_body]
fn char_from_u32(v: u32) -> (r: Option<char>)
    ensures
        r == (if is_scalar_value(v as int) { Some(v as char) } else { None }),
{
    char::from_u32(v)
}

/// Modern conjoining initial consonant → its index (0..=18).
pub fn cho_index(cp: u32) -> (r: Option<u8>)
    ensures
        r == modern_cho_index(cp),
        r matches Some(i) ==> i < LCOUNT && CHO@[i as int] == cp,
{
    if LBASE <= cp && cp <= 0x1112 {
        proof { lemma_tables((cp - LBASE) as int); }
        Some((cp - LBASE) as u8)
    } else {
        None
    }
}

/// Modern conjoining medial vowel → its index (0..=20).
pub fn jung_index(cp: u32) -> (r: Option<u8>)
    ensures
        r == modern_jung_index(cp),
        r matches Some(i) ==> i < VCOUNT && JUNG@[i as int] == cp,
{
    if VBASE <= cp && cp <= 0x1175 {
        proof { lemma_tables((cp - VBASE) as int); }
        Some((cp - VBASE) as u8)
    } else {
        None
    }
}

/// Modern conjoining final consonant → its index (1..=27). "No final" (index 0)
/// has no code point, so it is never returned.
pub fn jong_index(cp: u32) -> (r: Option<u8>)
    ensures
        r == modern_jong_index(cp),
        r matches Some(i) ==> 1 <= i < TCOUNT && JONG@[i as int] == cp,
{
    if 0x11A8 <= cp && cp <= 0x11C2 {
        proof { lemma_tables((cp - TBASE) as int); }
        Some((cp - TBASE) as u8)
    } else {
        None
    }
}

/// Bounds of the syllable formula on modern indices.
proof fn lemma_syllable_code_bounds(cho: int, jung: int, jong: int)
    requires
        0 <= cho < 19,
        0 <= jung < 21,
        0 <= jong < 28,
    ensures
        is_syllable_code(syllable_code(cho, jung, jong)),
        0 <= (cho * 21 + jung) * 28 <= 11144,
{
    assert(0 <= cho * 21 <= 378) by (nonlinear_arith)
        requires 0 <= cho < 19;
    assert(0 <= (cho * 21 + jung) * 28 <= 11144) by (nonlinear_arith)
        requires 0 <= cho * 21 + jung <= 398;
}

/// The precomposed syllable of modern initial/vowel/final indices; `jong == 0`
/// means no final.
pub fn compose_indices(cho: u8, jung: u8, jong: u8) -> (r: Option<char>)
    ensures
        r == syllable_of_indices(cho, jung, jong),
        r is Some <==> (cho < LCOUNT && jung < VCOUNT && jong < TCOUNT),
{
    if (cho as u32) >= LCOUNT || (jung as u32) >= VCOUNT || (jong as u32) >= TCOUNT {
        return None;
    }
    proof { lemma_syllable_code_bounds(cho as int, jung as int, jong as int); }
    let s = SBASE + ((cho as u32 * VCOUNT) + jung as u32) * TCOUNT + jong as u32;
    char_from_u32(s)
}

/// The precomposed syllable of conjoining jamo code points; succeeds only when
/// all of them are modern. A final of `None` or `Some(0)` means no final.
pub fn compose(cho_cp: u32, jung_cp: u32, jong_cp: Option<u32>) -> (r: Option<char>)
    ensures
        r == syllable_of_jamo(cho_cp, jung_cp, jong_cp),
{
    let cho = match cho_index(cho_cp) {
        Some(i) => i,
        None => return None,
    };
    let jung = match jung_index(jung_cp) {
        Some(i) => i,
        None => return None,
    };
    let jong = match jong_cp {
        None => 0,
        Some(cp) => if cp == 0 {
            0
        } else {
            match jong_index(cp) {
                Some(i) => i,
                None => return None,
            }
        },
    };
    compose_indices(cho, jung, jong)
}

/// Neighbouring modern index triples give neighbouring syllables: the next
/// final is the next code point, the next vowel is 28 further and the next
/// initial 588 further; the first syllable is U+AC00 and the last U+D7A3.
pub proof fn lemma_syllable_order(cho: u8, jung: u8, jong: u8)
    requires
        cho < LCOUNT,
        jung < VCOUNT,
        jong < TCOUNT,
    ensures
        syllable_of_indices(cho, jung, jong) matches Some(s) && {
            &&& 0xAC00 <= s as int <= 0xD7A3
            &&& (jong + 1 < TCOUNT ==> syllable_of_indices(cho, jung, (jong + 1) as u8) == Some(
                ((s as int) + 1) as char,
            ))
            &&& (jung + 1 < VCOUNT ==> syllable_of_indices(cho, (jung + 1) as u8, jong) == Some(
                ((s as int) + 28) as char,
            ))
            &&& (cho + 1 < LCOUNT ==> syllable_of_indices((cho + 1) as u8, jung, jong) == Some(
                ((s as int) + 588) as char,
            ))
        },
        syllable_of_indices(0, 0, 0) == Some(0xAC00 as char),
        syllable_of_indices(18, 20, 27) == Some(0xD7A3 as char),
{
    lemma_syllable_code_bounds(cho as int, jung as int, jong as int);
    assert(((cho + 1) * 21 + jung) * 28 == (cho * 21 + jung) * 28 + 588) by (nonlinear_arith);
    assert((cho * 21 + jung + 1) * 28 == (cho * 21 + jung) * 28 + 28) by (nonlinear_arith);
    if cho + 1 < LCOUNT {
        lemma_syllable_code_bounds(cho as int + 1, jung as int, jong as int);
    }
    if jung + 1 < VCOUNT {
        lemma_syllable_code_bounds(cho as int, jung as int + 1, jong as int);
    }
    if jong + 1 < TCOUNT {
        lemma_syllable_code_bounds(cho as int, jung as int, jong as int + 1);
    }
}

/// Splits a syllable index into its initial, vowel and final indices.
proof fn lemma_split_index(idx: int)
    requires
        0 <= idx < 11172,
    ensures
        0 <= idx / 588 < 19,
        0 <= (idx % 588) / 28 < 21,
        0 <= idx % 28 < 28,
        idx == ((idx / 588) * 21 + (idx % 588) / 28) * 28 + idx % 28,
{
    assert(idx == (idx / 588) * 588 + idx % 588 && 0 <= idx % 588 < 588) by (nonlinear_arith)
        requires 0 <= idx;
    let r = idx % 588;
    assert(r == (r / 28) * 28 + r % 28 && 0 <= r % 28 < 28) by (nonlinear_arith)
        requires 0 <= r;
    assert(r % 28 == idx % 28) by (nonlinear_arith)
        requires r == idx % 588, 0 <= idx;
    assert(idx / 588 < 19) by (nonlinear_arith)
        requires 0 <= idx < 11172;
    assert(r / 28 < 21) by (nonlinear_arith)
        requires 0 <= r < 588;
    assert(idx == ((idx / 588) * 21 + r / 28) * 28 + r % 28) by (nonlinear_arith)
        requires idx == (idx / 588) * 588 + r, r == (r / 28) * 28 + r % 28;
}

/// Splitting a syllable index undoes the formula.
proof fn lemma_join_index(cho: int, jung: int, jong: int)
    requires
        0 <= cho < 19,
        0 <= jung < 21,
        0 <= jong < 28,
    ensures
        ({
            let idx = (cho * 21 + jung) * 28 + jong;
            &&& idx / 588 == cho
            &&& (idx % 588) / 28 == jung
            &&& idx % 28 == jong
        }),
{
    let idx = (cho * 21 + jung) * 28 + jong;
    assert(idx == cho * 588 + (jung * 28 + jong)) by (nonlinear_arith)
        requires idx == (cho * 21 + jung) * 28 + jong;
    assert(0 <= jung * 28 + jong < 588) by (nonlinear_arith)
        requires 0 <= jung < 21, 0 <= jong < 28;
    assert(idx / 588 == cho && idx % 588 == jung * 28 + jong) by (nonlinear_arith)
        requires idx == cho * 588 + (jung * 28 + jong), 0 <= jung * 28 + jong < 588;
    let r = jung * 28 + jong;
    assert(r / 28 == jung && r % 28 == jong) by (nonlinear_arith)
        requires r == jung * 28 + jong, 0 <= jong < 28;
    assert(idx % 28 == jong) by (nonlinear_arith)
        requires idx == (cho * 21 + jung) * 28 + jong, 0 <= jong < 28;
}

/// Decomposing a precomposed syllable and composing its jamo again gives the
/// syllable back.
pub proof fn lemma_decompose_then_compose(syllable: char)
    requires
        is_syllable_code(syllable as int),
    ensures
        jamo_of_syllable(syllable) matches Some((c, j, t)) && syllable_of_jamo(c, j, t) == Some(
            syllable,
        ),
{
    let idx = syllable as int - SBASE;
    lemma_split_index(idx);
    let ci = idx / 588;
    let ji = (idx % 588) / 28;
    let ti = idx % 28;
    lemma_tables(ci);
    lemma_tables(ji);
    lemma_tables(ti);
    assert(syllable_code(ci, ji, ti) == syllable as int);
}

/// Composing modern indices and decomposing the syllable gives back the table
/// entries of those indices.
pub proof fn lemma_compose_then_decompose(cho: u8, jung: u8, jong: u8)
    requires
        cho < LCOUNT,
        jung < VCOUNT,
        jong < TCOUNT,
    ensures
        syllable_of_indices(cho, jung, jong) matches Some(s) && jamo_of_syllable(s) == Some(
            (
                CHO@[cho as int],
                JUNG@[jung as int],
                if jong == 0 { None } else { Some(JONG@[jong as int]) },
            ),
        ),
{
    lemma_syllable_code_bounds(cho as int, jung as int, jong as int);
    lemma_join_index(cho as int, jung as int, jong as int);
}

/// The modern tables and the index lookups are inverse: every table entry is
/// found at its own index.
pub proof fn lemma_index_of_table_entry(i: u8)
    ensures
        i < LCOUNT ==> modern_cho_index(CHO@[i as int]) == Some(i),
        i < VCOUNT ==> modern_jung_index(JUNG@[i as int]) == Some(i),
        1 <= i < TCOUNT ==> modern_jong_index(JONG@[i as int]) == Some(i),
{
    lemma_tables(i as int);
}

/// The conjoining initial, vowel and optional final of a precomposed syllable;
/// `None` for any other char.
pub fn decompose(syllable: char) -> (r: Option<(u32, u32, Option<u32>)>)
    ensures
        r == jamo_of_syllable(syllable),
        r is Some <==> is_syllable_code(syllable as int),
{
    let s = syllable as u32;
    if !(SBASE <= s && s < SBASE + SCOUNT) {
        return None;
    }
    let idx = s - SBASE;
    proof { lemma_split_index(idx as int); }
    let cho = idx / (VCOUNT * TCOUNT);
    let jung = (idx % (VCOUNT * TCOUNT)) / TCOUNT;
    let jong = idx % TCOUNT;
    let jong_cp = if jong != 0 { Some(JONG[jong as usize]) } else { None };
    Some((CHO[cho as usize], JUNG[jung as usize], jong_cp))
}

/// The code point lies in a conjoining jamo block (Hangul Jamo, Extended-A or
/// Extended-B).
pub fn is_conjoining_jamo(cp: u32) -> (r: bool)
    ensures
        r == is_conjoining_code(cp),
{
    (0x1100 <= cp && cp <= 0x11FF) || (0xA960 <= cp && cp <= 0xA97F) || (0xD7B0 <= cp && cp
        <= 0xD7FF)
}

} // verus!
