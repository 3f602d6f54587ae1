//! Character-level text helpers with exact specifications: whitespace trimming,
//! comparison, prefixes, and unsigned integer parsing with the same accepted
//! language as `u32::from_str_radix`.

use vstd::prelude::*;
use vstd::string::*;

verus! {

/// The Unicode `White_Space` characters (`char::is_whitespace`).
pub open spec fn is_whitespace(c: char) -> bool {
    let v = c as u32;
    ||| 0x09 <= v <= 0x0D
    ||| v == 0x20
    ||| v == 0x85
    ||| v == 0xA0
    ||| v == 0x1680
    ||| 0x2000 <= v <= 0x200A
    ||| v == 0x2028
    ||| v == 0x2029
    ||| v == 0x202F
    ||| v == 0x205F
    ||| v == 0x3000
}

/// Position of the first non-whitespace character at or after `i`
/// (`s.len()` when there is none).
pub open spec fn content_start(s: Seq<char>, i: int) -> int
    decreases s.len() - i,
{
    if 0 <= i < s.len() && is_whitespace(s[i]) {
        content_start(s, i + 1)
    } else {
        i
    }
}

/// End of the text before the trailing whitespace of `s.take(j)`.
pub open spec fn content_end(s: Seq<char>, j: int) -> int
    decreases j,
{
    if 0 < j <= s.len() && is_whitespace(s[j - 1]) {
        content_end(s, j - 1)
    } else {
        j
    }
}

/// `s` without its leading and trailing whitespace (`str::trim`).
pub open spec fn trimmed(s: Seq<char>) -> Seq<char> {
    let a = content_start(s, 0);
    let b = content_end(s, s.len() as int);
    if a < b {
        s.subrange(a, b)
    } else {
        Seq::empty()
    }
}

/// The first position at or after `from` where `s` holds `x`.
pub open spec fn position_from<A>(s: Seq<A>, x: A, from: int) -> Option<int>
    decreases s.len() - from,
{
    if from < 0 || from >= s.len() {
        None
    } else if s[from] == x {
        Some(from)
    } else {
        position_from(s, x, from + 1)
    }
}

/// A position found holds the value, and no earlier one at or after `from`
/// does.
pub proof fn lemma_position_found<A>(s: Seq<A>, x: A, from: int)
    ensures
        position_from(s, x, from) matches Some(i) ==> {
            &&& 0 <= from <= i < s.len()
            &&& s[i] == x
            &&& forall|k: int| from <= k < i ==> s[k] != x
        },
        position_from(s, x, from) is None ==> forall|k: int|
            0 <= from <= k < s.len() ==> s[k] != x,
    decreases s.len() - from,
{
    if 0 <= from < s.len() && s[from] != x {
        lemma_position_found(s, x, from + 1);
    }
}

/// The first occurrence at or after `from` is found where it stands.
pub proof fn lemma_position_at<A>(s: Seq<A>, x: A, from: int, p: int)
    requires
        0 <= from <= p < s.len(),
        s[p] == x,
        forall|k: int| from <= k < p ==> s[k] != x,
    ensures
        position_from(s, x, from) == Some(p),
    decreases p - from,
{
    if from < p {
        lemma_position_at(s, x, from + 1, p);
    }
}

/// `p` is a prefix of `s`.
pub open spec fn has_prefix(s: Seq<char>, p: Seq<char>) -> bool {
    p.len() <= s.len() && s.subrange(0, p.len() as int) == p
}

/// Whitespace test on one char.
pub fn char_is_whitespace(c: char) -> (r: bool)
    ensures
        r == is_whitespace(c),
{
    let v = c as u32;
    (0x09 <= v && v <= 0x0D) || v == 0x20 || v == 0x85 || v == 0xA0 || v == 0x1680 || (0x2000 <= v
        && v <= 0x200A) || v == 0x2028 || v == 0x2029 || v == 0x202F || v == 0x205F || v == 0x3000
}

/// The first position at or after `from` where `s` holds `c`.
pub fn find_char(s: &str, c: char, from: usize) -> (r: Option<usize>)
    ensures
        match r {
            Some(k) => position_from(s@, c, from as int) == Some(k as int),
            None => position_from(s@, c, from as int) is None,
        },
{
    let n = s.unicode_len();
    let mut i = from;
    while i < n
        invariant
            from <= i,
            n == s@.len(),
            position_from(s@, c, from as int) == position_from(s@, c, i as int),
        decreases n - i,
    {
        if s.get_char(i) == c {
            return Some(i);
        }
        i = i + 1;
    }
    None
}

/// `s` without leading and trailing whitespace.
pub fn trim(s: &str) -> (r: &str)
    ensures
        r@ == trimmed(s@),
{
    let n = s.unicode_len();
    let mut a: usize = 0;
    while a < n && char_is_whitespace(s.get_char(a))
        invariant
            a <= n,
            n == s@.len(),
            content_start(s@, a as int) == content_start(s@, 0),
        decreases n - a,
    {
        a = a + 1;
    }
    let mut b: usize = n;
    while b > 0 && char_is_whitespace(s.get_char(b - 1))
        invariant
            b <= n,
            n == s@.len(),
            content_end(s@, b as int) == content_end(s@, n as int),
        decreases b,
    {
        b = b - 1;
    }
    if a < b {
        s.substring_char(a, b)
    } else {
        let e = s.substring_char(0, 0);
        assert(e@ =~= Seq::<char>::empty());
        e
    }
}

/// The two texts hold the same characters.
pub fn str_equals(a: &str, b: &str) -> (r: bool)
    ensures
        r == (a@ == b@),
{
    let n = a.unicode_len();
    if n != b.unicode_len() {
        return false;
    }
    let mut i: usize = 0;
    while i < n
        invariant
            i <= n,
            n == a@.len(),
            n == b@.len(),
            forall|k: int| 0 <= k < i ==> a@[k] == b@[k],
        decreases n - i,
    {
        if a.get_char(i) != b.get_char(i) {
            return false;
        }
        i = i + 1;
    }
    assert(a@ =~= b@);
    true
}

/// `s` begins with `p`.
pub fn starts_with(s: &str, p: &str) -> (r: bool)
    ensures
        r == has_prefix(s@, p@),
{
    let n = s.unicode_len();
    let m = p.unicode_len();
    if m > n {
        return false;
    }
    let mut i: usize = 0;
    while i < m
        invariant
            i <= m <= n,
            n == s@.len(),
            m == p@.len(),
            forall|k: int| 0 <= k < i ==> s@[k] == p@[k],
        decreases m - i,
    {
        if s.get_char(i) != p.get_char(i) {
            assert(s@.subrange(0, m as int)[i as int] != p@[i as int]);
            return false;
        }
        i = i + 1;
    }
    assert(s@.subrange(0, m as int) =~= p@);
    true
}

/// `s` without the prefix `p`, when `s` begins with it (`str::strip_prefix`).
pub fn strip_prefix<'a>(s: &'a str, p: &str) -> (r: Option<&'a str>)
    ensures
        r is Some <==> has_prefix(s@, p@),
        r matches Some(rest) ==> rest@ == s@.subrange(p@.len() as int, s@.len() as int),
{
    if starts_with(s, p) {
        Some(s.substring_char(p.unicode_len(), s.unicode_len()))
    } else {
        None
    }
}

/// The value of one digit in the given radix (`char::to_digit`).
pub open spec fn digit_value(c: char, radix: nat) -> Option<nat> {
    let v = c as int;
    let d = if 48 <= v <= 57 {
        v - 48
    } else if 97 <= v <= 122 {
        v - 87
    } else if 65 <= v <= 90 {
        v - 55
    } else {
        36
    };
    if d < radix {
        Some(d as nat)
    } else {
        None
    }
}

/// Every character of `d` is a digit in the radix.
pub open spec fn all_digits(d: Seq<char>, radix: nat) -> bool {
    forall|i: int| 0 <= i < d.len() ==> (#[trigger] digit_value(d[i], radix)) is Some
}

/// The number that the digit string `d` writes in the radix, most significant
/// digit first.
pub open spec fn digits_value(d: Seq<char>, radix: nat) -> nat
    decreases d.len(),
{
    if d.len() == 0 {
        0
    } else {
        digits_value(d.drop_last(), radix) * radix + match digit_value(d.last(), radix) {
            Some(v) => v,
            None => 0,
        }
    }
}

/// The `u32` that `s` writes in the radix: an optional `+`, then at least one
/// digit, and a value that fits in `u32` (what `u32::from_str_radix` accepts).
pub open spec fn parse_unsigned(s: Seq<char>, radix: nat) -> Option<u32> {
    let d = if s.len() > 0 && s[0] == '+' {
        s.drop_first()
    } else {
        s
    };
    if d.len() > 0 && all_digits(d, radix) && digits_value(d, radix) <= u32::MAX {
        Some(digits_value(d, radix) as u32)
    } else {
        None
    }
}

/// One digit in the radix.
fn to_digit(c: char, radix: u32) -> (r: Option<u32>)
    requires
        2 <= radix <= 36,
    ensures
        r matches Some(v) ==> digit_value(c, radix as nat) == Some(v as nat) && v < radix,
        r is None ==> digit_value(c, radix as nat) is None,
{
    let v = c as u32;
    let d: u32 = if 48 <= v && v <= 57 {
        v - 48
    } else if 97 <= v && v <= 122 {
        v - 87
    } else if 65 <= v && v <= 90 {
        v - 55
    } else {
        36
    };
    if d < radix {
        Some(d)
    } else {
        None
    }
}

/// The digit character of `d` (< 36): `0`-`9`, then letters, upper or lower
/// case.
pub open spec fn digit_char(d: nat, upper: bool) -> char {
    if d < 10 {
        (48 + d) as char
    } else if upper {
        (55 + d) as char
    } else {
        (87 + d) as char
    }
}

/// `n` written in the radix, most significant digit first, without leading
/// zeros (`0` for zero): what `{}`, `{:x}` and `{:X}` print for radix 10 and 16.
pub open spec fn digits_of(n: nat, radix: nat, upper: bool) -> Seq<char>
    decreases n,
{
    if radix < 2 || n < radix {
        seq![digit_char(n, upper)]
    } else {
        proof {
            assert(n / radix < n) by (nonlinear_arith)
                requires radix >= 2, n >= radix;
        }
        digits_of(n / radix, radix, upper).push(digit_char(n % radix, upper))
    }
}

/// Every whitespace-only text.
pub open spec fn all_whitespace(s: Seq<char>) -> bool {
    forall|i: int| 0 <= i < s.len() ==> is_whitespace(#[trigger] s[i])
}

proof fn lemma_digit_char(d: nat, radix: nat, upper: bool)
    requires
        d < radix <= 36,
    ensures
        digit_value(digit_char(d, upper), radix) == Some(d),
        !is_whitespace(digit_char(d, upper)),
        digit_char(d, upper) != '+',
        radix <= 10 ==> digit_char(d, upper) != 'x' && digit_char(d, upper) != 'X',
{
}

/// The digits of `n` are digits of the radix, and read back as `n`.
pub proof fn lemma_digits_of(n: nat, radix: nat, upper: bool)
    requires
        2 <= radix <= 36,
    ensures
        digits_of(n, radix, upper).len() >= 1,
        all_digits(digits_of(n, radix, upper), radix),
        digits_value(digits_of(n, radix, upper), radix) == n,
        forall|i: int|
            0 <= i < digits_of(n, radix, upper).len() ==> {
                &&& !is_whitespace(#[trigger] digits_of(n, radix, upper)[i])
                &&& digits_of(n, radix, upper)[i] != '+'
                &&& radix <= 10 ==> digits_of(n, radix, upper)[i] != 'x'
                    && digits_of(n, radix, upper)[i] != 'X'
            },
    decreases n,
{
    let d = digits_of(n, radix, upper);
    if n < radix {
        lemma_digit_char(n, radix, upper);
        assert(d.drop_last() =~= Seq::<char>::empty());
        assert(d.last() == digit_char(n, upper));
        assert(digits_value(d.drop_last(), radix) == 0);
        assert(digits_value(d, radix) == 0 * radix + n);
    } else {
        assert(n / radix < n && n % radix < radix) by (nonlinear_arith)
            requires radix >= 2, n >= radix;
        assert(n == (n / radix) * radix + n % radix) by (nonlinear_arith)
            requires radix >= 2;
        lemma_digits_of(n / radix, radix, upper);
        lemma_digit_char(n % radix, radix, upper);
        let p = digits_of(n / radix, radix, upper);
        assert(d.drop_last() =~= p);
        assert(d.last() == digit_char(n % radix, upper));
        assert(digits_value(d, radix) == digits_value(p, radix) * radix + n % radix);
        assert forall|i: int| 0 <= i < d.len() implies (#[trigger] digit_value(d[i], radix)) is Some by {
            if i < p.len() {
                assert(d[i] == p[i]);
            }
        }
        assert forall|i: int|
            0 <= i < d.len() implies !is_whitespace(#[trigger] d[i]) && d[i] != '+' && (radix <= 10
                ==> d[i] != 'x' && d[i] != 'X') by {
            if i < p.len() {
                assert(d[i] == p[i]);
            }
        }
    }
}

proof fn lemma_content_start(s: Seq<char>, i: int, p: int)
    requires
        0 <= i <= p < s.len(),
        forall|k: int| 0 <= k < p ==> is_whitespace(#[trigger] s[k]),
        !is_whitespace(s[p]),
    ensures
        content_start(s, i) == p,
    decreases p - i,
{
    if i < p {
        lemma_content_start(s, i + 1, p);
    }
}

proof fn lemma_content_end(s: Seq<char>, j: int, e: int)
    requires
        0 < e <= j <= s.len(),
        forall|k: int| e <= k < s.len() ==> is_whitespace(#[trigger] s[k]),
        !is_whitespace(s[e - 1]),
    ensures
        content_end(s, j) == e,
    decreases j - e,
{
    if j > e {
        lemma_content_end(s, j - 1, e);
    }
}

/// Whitespace around a text that neither begins nor ends with whitespace is
/// what trimming removes.
pub proof fn lemma_trimmed_padding(pre: Seq<char>, body: Seq<char>, post: Seq<char>)
    requires
        all_whitespace(pre),
        all_whitespace(post),
        body.len() > 0,
        !is_whitespace(body[0]),
        !is_whitespace(body.last()),
    ensures
        trimmed(pre + body + post) == body,
{
    let s = pre + body + post;
    let p = pre.len() as int;
    let e = p + body.len();
    assert forall|k: int| 0 <= k < p implies is_whitespace(#[trigger] s[k]) by {
        assert(s[k] == pre[k]);
    }
    assert forall|k: int| e <= k < s.len() implies is_whitespace(#[trigger] s[k]) by {
        assert(s[k] == post[k - e]);
    }
    assert(s[p] == body[0]);
    assert(s[e - 1] == body[body.len() - 1]);
    lemma_content_start(s, 0, p);
    lemma_content_end(s, s.len() as int, e);
    assert(s.subrange(p, e) =~= body);
}

/// Parses an unsigned 32-bit number in the radix.
pub fn parse_u32_radix(s: &str, radix: u32) -> (r: Option<u32>)
    requires
        2 <= radix <= 36,
    ensures
        r == parse_unsigned(s@, radix as nat),
{
    let n = s.unicode_len();
    let start: usize = if n > 0 && s.get_char(0) == '+' {
        1
    } else {
        0
    };
    let ghost d = if s@.len() > 0 && s@[0] == '+' {
        s@.drop_first()
    } else {
        s@
    };
    assert(d =~= s@.subrange(start as int, n as int));
    if start == n {
        return None;
    }
    let mut acc: u64 = 0;
    let mut over = false;
    let mut i: usize = start;
    while i < n
        invariant
            start <= i <= n,
            n == s@.len(),
            d == s@.subrange(start as int, n as int),
            d == (if s@.len() > 0 && s@[0] == '+' { s@.drop_first() } else { s@ }),
            2 <= radix <= 36,
            all_digits(d.take(i - start), radix as nat),
            !over ==> acc == digits_value(d.take(i - start), radix as nat),
            !over ==> acc <= u32::MAX,
            over ==> digits_value(d.take(i - start), radix as nat) > u32::MAX,
        decreases n - i,
    {
        let c = s.get_char(i);
        let k = i - start;
        assert(d[k as int] == c);
        match to_digit(c, radix) {
            None => {
                assert(!all_digits(d, radix as nat)) by {
                    assert(digit_value(d[k as int], radix as nat) is None);
                }
                return None;
            },
            Some(v) => {
                let ghost prev = digits_value(d.take(k as int), radix as nat);
                assert(d.take(k + 1).drop_last() =~= d.take(k as int));
                assert(d.take(k + 1).last() == c);
                assert(digits_value(d.take(k + 1), radix as nat) == prev * radix + v);
                assert(all_digits(d.take(k + 1), radix as nat)) by {
                    assert forall|j: int| 0 <= j < d.take(k + 1).len() implies (#[trigger] digit_value(
                        d.take(k + 1)[j],
                        radix as nat,
                    )) is Some by {
                        if j < k {
                            assert(d.take(k + 1)[j] == d.take(k as int)[j]);
                        }
                    }
                }
                if over {
                    assert(prev * radix + v >= prev) by (nonlinear_arith)
                        requires radix >= 2;
                } else {
                    assert(acc * (radix as u64) <= 0xFFFF_FFFF * 36) by (nonlinear_arith)
                        requires acc <= 0xFFFF_FFFF, radix <= 36;
                    let next: u64 = acc * (radix as u64) + (v as u64);
                    if next > 0xFFFF_FFFF {
                        over = true;
                    } else {
                        acc = next;
                    }
                }
            },
        }
        i = i + 1;
    }
    assert(d.take(n - start) =~= d);
    if over {
        None
    } else {
        Some(acc as u32)
    }
}

} // verus!
