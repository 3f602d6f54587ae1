use presguel::jamo::{
    cho_index, compose, compose_indices, decompose, is_conjoining_jamo, jong_index, jung_index,
    CHO, JONG, JUNG, SBASE, SCOUNT,
};

#[test]
fn precompose_basic() {
    // 가 = ㄱ(U+1100) + ㅏ(U+1161), no final
    assert_eq!(compose(0x1100, 0x1161, None), Some('가'));
    // 각 = ㄱ + ㅏ + ㄱ(final U+11A8)
    assert_eq!(compose(0x1100, 0x1161, Some(0x11A8)), Some('각'));
    // 한 = ㅎ(U+1112) + ㅏ + ㄴ(U+11AB)
    assert_eq!(compose(0x1112, 0x1161, Some(0x11AB)), Some('한'));
    // 과 = ㄱ + ㅘ(U+116A)
    assert_eq!(compose(0x1100, 0x116A, None), Some('과'));
    // 까 = ㄲ(U+1101) + ㅏ
    assert_eq!(compose(0x1101, 0x1161, None), Some('까'));
}

#[test]
fn precompose_indices_match_formula() {
    // 가 = index (0,0,0)
    assert_eq!(compose_indices(0, 0, 0), Some('가'));
    // 힣 = last syllable (18,20,27)
    assert_eq!(compose_indices(18, 20, 27), Some('힣'));
    assert_eq!(SBASE + SCOUNT - 1, '힣' as u32);
}

#[test]
fn roundtrip_decompose() {
    for ch in ['가', '각', '한', '뷁', '힣', '꿈', '워', '의'] {
        let (c, j, t) = decompose(ch).unwrap();
        assert_eq!(compose(c, j, t), Some(ch), "roundtrip {ch}");
    }
}

#[test]
fn index_lookups() {
    assert_eq!(cho_index(0x1100), Some(0));
    assert_eq!(cho_index(0x1112), Some(18));
    assert_eq!(cho_index(0x1113), None);
    assert_eq!(jung_index(0x1161), Some(0));
    assert_eq!(jung_index(0x1175), Some(20));
    assert_eq!(jong_index(0x11A8), Some(1));
    assert_eq!(jong_index(0x11C2), Some(27));
    assert_eq!(jong_index(0x1100), None);
}

#[test]
fn non_modern_has_no_precompose() {
    // old initial ieung U+114C is outside the modern set: no precomposed form
    assert_eq!(compose(0x114C, 0x1161, None), None);
}

#[test]
fn compose_indices_rejects_out_of_range() {
    assert_eq!(compose_indices(19, 0, 0), None);
    assert_eq!(compose_indices(0, 21, 0), None);
    assert_eq!(compose_indices(0, 0, 28), None);
    // 뷁 = ㅂ(7) + ㅞ(15) + ㄺ(9): 0xAC00 + (7*21+15)*28+9
    assert_eq!(compose_indices(7, 15, 9), Some('뷁'));
    assert_eq!('뷁' as u32, 0xAC00 + (7 * 21 + 15) * 28 + 9);
}

#[test]
fn compose_zero_final_means_none() {
    assert_eq!(compose(0x1100, 0x1161, Some(0)), Some('가'));
    // a final outside the modern set
    assert_eq!(compose(0x1100, 0x1161, Some(0x11C3)), None);
    // a vowel outside the modern set
    assert_eq!(compose(0x1100, 0x1176, None), None);
}

#[test]
fn decompose_edges() {
    assert_eq!(decompose('가'), Some((0x1100, 0x1161, None)));
    assert_eq!(decompose('힣'), Some((0x1112, 0x1175, Some(0x11C2))));
    assert_eq!(decompose('A'), None);
    assert_eq!(decompose('\u{ABFF}'), None);
    assert_eq!(decompose('\u{D7A4}'), None);
}

#[test]
fn every_syllable_roundtrips() {
    for v in 0xAC00u32..=0xD7A3 {
        let ch = char::from_u32(v).unwrap();
        let (c, j, t) = decompose(ch).unwrap();
        assert_eq!(compose(c, j, t), Some(ch));
    }
}

#[test]
fn every_index_triple_roundtrips() {
    for c in 0u8..19 {
        for j in 0u8..21 {
            for t in 0u8..28 {
                let s = compose_indices(c, j, t).unwrap();
                let expect_t = if t == 0 { None } else { Some(JONG[t as usize]) };
                assert_eq!(decompose(s), Some((CHO[c as usize], JUNG[j as usize], expect_t)));
            }
        }
    }
}

#[test]
fn tables_invert_index_lookups() {
    for i in 0u8..19 {
        assert_eq!(cho_index(CHO[i as usize]), Some(i));
    }
    for i in 0u8..21 {
        assert_eq!(jung_index(JUNG[i as usize]), Some(i));
    }
    for i in 1u8..28 {
        assert_eq!(jong_index(JONG[i as usize]), Some(i));
    }
}

#[test]
fn conjoining_blocks() {
    assert!(is_conjoining_jamo(0x1100));
    assert!(is_conjoining_jamo(0x11FF));
    assert!(is_conjoining_jamo(0xA960));
    assert!(is_conjoining_jamo(0xD7FF));
    assert!(!is_conjoining_jamo(0x1200));
    assert!(!is_conjoining_jamo(0xA980));
    assert!(!is_conjoining_jamo(0x3131));
}
