use presguel::unit::{
    category_of_codepoint, cho_to_jong, jong_to_cho, parse_int, resolve_mnemonic,
    resolve_numeric, resolve_operand, Category, Jamo, Unit,
};

fn jamo_of(u: Unit) -> Jamo {
    match u {
        Unit::Jamo(j) => j,
        other => panic!("expected jamo, got {other:?}"),
    }
}

#[test]
fn keytable_mnemonics() {
    // initial: k=G_ → initial ㄱ U+1100
    assert_eq!(
        jamo_of(resolve_mnemonic("G_", None).unwrap()),
        Jamo::new(Category::Cho, 0x1100)
    );
    // final: x=_G → final ㄱ U+11A8
    assert_eq!(
        jamo_of(resolve_mnemonic("_G", None).unwrap()),
        Jamo::new(Category::Jong, 0x11A8)
    );
    // medial: f=A_ → ㅏ U+1161, / = O_ → ㅗ U+1169
    assert_eq!(
        jamo_of(resolve_mnemonic("A_", None).unwrap()),
        Jamo::new(Category::Jung, 0x1161)
    );
    assert_eq!(
        jamo_of(resolve_mnemonic("O_", None).unwrap()),
        Jamo::new(Category::Jung, 0x1169)
    );
    // bare medial: 8=EUI → ㅢ U+1174
    assert_eq!(
        jamo_of(resolve_mnemonic("EUI", None).unwrap()),
        Jamo::new(Category::Jung, 0x1174)
    );
    // double final: @=_RG → ㄺ U+11B0
    assert_eq!(
        jamo_of(resolve_mnemonic("_RG", None).unwrap()),
        Jamo::new(Category::Jong, 0x11B0)
    );
    // initial ㅇ: j=Q_ → U+110B
    assert_eq!(
        jamo_of(resolve_mnemonic("Q_", None).unwrap()),
        Jamo::new(Category::Cho, 0x110B)
    );
    // final ㅇ: a=_Q → U+11BC
    assert_eq!(
        jamo_of(resolve_mnemonic("_Q", None).unwrap()),
        Jamo::new(Category::Jong, 0x11BC)
    );
}

#[test]
fn unitmix_context_mnemonics() {
    // unit mix JONG: R_ + S_ → RS, all in final context
    assert_eq!(
        jamo_of(resolve_mnemonic("R_", Some(Category::Jong)).unwrap()),
        Jamo::new(Category::Jong, 0x11AF) // final ㄹ
    );
    assert_eq!(
        jamo_of(resolve_mnemonic("S_", Some(Category::Jong)).unwrap()),
        Jamo::new(Category::Jong, 0x11BA) // final ㅅ
    );
    assert_eq!(
        jamo_of(resolve_mnemonic("RS", Some(Category::Jong)).unwrap()),
        Jamo::new(Category::Jong, 0x11B3) // ㄽ
    );
    // unit mix CHO: GG → initial ㄲ U+1101
    assert_eq!(
        jamo_of(resolve_mnemonic("GG", Some(Category::Cho)).unwrap()),
        Jamo::new(Category::Cho, 0x1101)
    );
    // unit mix JUNG: WA → ㅘ U+116A
    assert_eq!(
        jamo_of(resolve_mnemonic("WA", Some(Category::Jung)).unwrap()),
        Jamo::new(Category::Jung, 0x116A)
    );
}

#[test]
fn numeric_operands() {
    // 0x1F4 = 500 = alternation toggle
    assert_eq!(resolve_operand("0x1F4", None), Some(Unit::Toggle));
    assert_eq!(resolve_operand("500", None), Some(Unit::Toggle));
    // 0x800000 = 128<<16 = virtual unit 128, 0x810000=129, 0x820000=130
    assert_eq!(resolve_operand("0x800000", None), Some(Unit::Virtual(128)));
    assert_eq!(resolve_operand("0x810000", None), Some(Unit::Virtual(129)));
    assert_eq!(resolve_operand("0x820000", None), Some(Unit::Virtual(130)));
}

#[test]
fn raw_old_hangul_codepoint() {
    // old initial ieung U+114C → initial
    assert_eq!(
        resolve_operand("0x114C", None),
        Some(Unit::Jamo(Jamo::new(Category::Cho, 0x114C)))
    );
    // arae-a medial U+119E → medial
    assert_eq!(
        resolve_operand("0x119E", None),
        Some(Unit::Jamo(Jamo::new(Category::Jung, 0x119E)))
    );
}

#[test]
fn default_compat_roundtrip() {
    assert_eq!(
        Jamo::new(Category::Cho, 0x1100).default_compat(),
        Some(0x3131)
    );
    assert_eq!(
        Jamo::new(Category::Jong, 0x11A8).default_compat(),
        Some(0x3131)
    );
    assert_eq!(
        Jamo::new(Category::Jung, 0x1161).default_compat(),
        Some(0x314F)
    );
    assert_eq!(
        Jamo::new(Category::Jong, 0x11B0).default_compat(),
        Some(0x313A)
    );
}
