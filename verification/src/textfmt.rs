//! Decimal and hexadecimal text: rendering of the numbers the service
//! writes into argument vectors and queue messages, the canonical
//! hyphenated form of a 128-bit id, and the exact inverse parsers.

use vstd::prelude::*;
use vstd::arithmetic::div_mod::{
    lemma_fundamental_div_mod, lemma_fundamental_div_mod_converse_mod,
};
use vstd::arithmetic::mul::{lemma_mul_inequality, lemma_mul_is_distributive_add};

verus! {

/// The character for one digit value below sixteen.
pub open spec fn digit_char(d: nat) -> char {
    if d == 0 {
        '0'
    } else if d == 1 {
        '1'
    } else if d == 2 {
        '2'
    } else if d == 3 {
        '3'
    } else if d == 4 {
        '4'
    } else if d == 5 {
        '5'
    } else if d == 6 {
        '6'
    } else if d == 7 {
        '7'
    } else if d == 8 {
        '8'
    } else if d == 9 {
        '9'
    } else if d == 10 {
        'a'
    } else if d == 11 {
        'b'
    } else if d == 12 {
        'c'
    } else if d == 13 {
        'd'
    } else if d == 14 {
        'e'
    } else {
        'f'
    }
}

/// The digit value of one character, hexadecimal and lower case.
pub open spec fn hex_val_spec(c: char) -> Option<u8> {
    if c == '0' {
        Some(0)
    } else if c == '1' {
        Some(1)
    } else if c == '2' {
        Some(2)
    } else if c == '3' {
        Some(3)
    } else if c == '4' {
        Some(4)
    } else if c == '5' {
        Some(5)
    } else if c == '6' {
        Some(6)
    } else if c == '7' {
        Some(7)
    } else if c == '8' {
        Some(8)
    } else if c == '9' {
        Some(9)
    } else if c == 'a' {
        Some(10)
    } else if c == 'b' {
        Some(11)
    } else if c == 'c' {
        Some(12)
    } else if c == 'd' {
        Some(13)
    } else if c == 'e' {
        Some(14)
    } else if c == 'f' {
        Some(15)
    } else {
        None
    }
}

/// The digit value of one character, decimal.
pub open spec fn dec_val_spec(c: char) -> Option<u8> {
    match hex_val_spec(c) {
        Some(d) => if d < 10 {
            Some(d)
        } else {
            None
        },
        None => None,
    }
}

pub open spec fn pow16(c: nat) -> nat
    decreases c,
{
    if c == 0 {
        1
    } else {
        16 * pow16((c - 1) as nat)
    }
}

pub open spec fn pow10(c: nat) -> nat
    decreases c,
{
    if c == 0 {
        1
    } else {
        10 * pow10((c - 1) as nat)
    }
}

/// The decimal rendering of a natural number, most significant digit first,
/// without leading zeros (zero itself is "0").
pub open spec fn dec_str(n: nat) -> Seq<char>
    decreases n,
{
    if n < 10 {
        seq![digit_char(n)]
    } else {
        dec_str(n / 10).push(digit_char(n % 10))
    }
}

/// The decimal rendering of a signed number: a minus sign before the
/// magnitude when negative.
pub open spec fn int_str(n: int) -> Seq<char> {
    if n < 0 {
        seq!['-'] + dec_str((-n) as nat)
    } else {
        dec_str(n as nat)
    }
}

/// Exactly `c` hexadecimal digits of `n`, most significant first
/// (the low `c` digits of `n`).
pub open spec fn hex_digits(n: nat, c: nat) -> Seq<char>
    decreases c,
{
    if c == 0 {
        Seq::empty()
    } else {
        hex_digits(n / 16, (c - 1) as nat).push(digit_char(n % 16))
    }
}

/// The value of a digit sequence, hexadecimal; `None` where a character is
/// no lower-case hexadecimal digit. The empty sequence has value zero.
pub open spec fn hex_seq_val(s: Seq<char>) -> Option<nat>
    decreases s.len(),
{
    if s.len() == 0 {
        Some(0)
    } else {
        match (hex_seq_val(s.drop_last()), hex_val_spec(s.last())) {
            (Some(v), Some(d)) => Some((v * 16 + d) as nat),
            _ => None,
        }
    }
}

/// The value of a digit sequence, decimal.
pub open spec fn dec_seq_val(s: Seq<char>) -> Option<nat>
    decreases s.len(),
{
    if s.len() == 0 {
        Some(0)
    } else {
        match (dec_seq_val(s.drop_last()), dec_val_spec(s.last())) {
            (Some(v), Some(d)) => Some((v * 10 + d) as nat),
            _ => None,
        }
    }
}

/// The canonical hyphenated text of a 128-bit id: the 32 hexadecimal digits
/// in groups of 8, 4, 4, 4 and 12.
pub open spec fn uuid_str(id: u128) -> Seq<char> {
    let d = hex_digits(id as nat, 32);
    d.subrange(0, 8) + seq!['-'] + d.subrange(8, 12) + seq!['-'] + d.subrange(12, 16) + seq!['-']
        + d.subrange(16, 20) + seq!['-'] + d.subrange(20, 32)
}

/// The one-character string for a digit value below sixteen.
pub fn digit_str(d: u8) -> (r: &'static str)
    requires
        d < 16,
    ensures
        r@ == seq![digit_char(d as nat)],
{
    proof {
        reveal_strlit("0");
        reveal_strlit("1");
        reveal_strlit("2");
        reveal_strlit("3");
        reveal_strlit("4");
        reveal_strlit("5");
        reveal_strlit("6");
        reveal_strlit("7");
        reveal_strlit("8");
        reveal_strlit("9");
        reveal_strlit("a");
        reveal_strlit("b");
        reveal_strlit("c");
        reveal_strlit("d");
        reveal_strlit("e");
        reveal_strlit("f");
    }
    if d == 0 {
        "0"
    } else if d == 1 {
        "1"
    } else if d == 2 {
        "2"
    } else if d == 3 {
        "3"
    } else if d == 4 {
        "4"
    } else if d == 5 {
        "5"
    } else if d == 6 {
        "6"
    } else if d == 7 {
        "7"
    } else if d == 8 {
        "8"
    } else if d == 9 {
        "9"
    } else if d == 10 {
        "a"
    } else if d == 11 {
        "b"
    } else if d == 12 {
        "c"
    } else if d == 13 {
        "d"
    } else if d == 14 {
        "e"
    } else {
        "f"
    }
}

/// Render a number in decimal.
pub fn u64_to_string(n: u64) -> (r: String)
    ensures
        r@ == dec_str(n as nat),
    decreases n,
{
    let d = (n % 10) as u8;
    if n < 10 {
        String::from_str(digit_str(d))
    } else {
        let mut s = u64_to_string(n / 10);
        s.append(digit_str(d));
        s
    }
}

pub fn u32_to_string(n: u32) -> (r: String)
    ensures
        r@ == dec_str(n as nat),
{
    u64_to_string(n as u64)
}

/// Render a signed number in decimal, with a minus sign when negative.
pub fn i64_to_string(n: i64) -> (r: String)
    ensures
        r@ == int_str(n as int),
{
    if n < 0 {
        let mag = (-(n as i128)) as u64;
        let mut s = String::from_str("-");
        let digits = u64_to_string(mag);
        s.append(digits.as_str());
        proof {
            reveal_strlit("-");
            assert(s@ =~= int_str(n as int));
        }
        s
    } else {
        u64_to_string(n as u64)
    }
}

pub fn i32_to_string(n: i32) -> (r: String)
    ensures
        r@ == int_str(n as int),
{
    i64_to_string(n as i64)
}

/// Render exactly `count` hexadecimal digits of `n`, most significant first.
pub fn hex_fixed(n: u128, count: usize) -> (r: String)
    ensures
        r@ == hex_digits(n as nat, count as nat),
    decreases count,
{
    if count == 0 {
        String::new()
    } else {
        let d = (n % 16) as u8;
        let mut s = hex_fixed(n / 16, count - 1);
        s.append(digit_str(d));
        s
    }
}

/// Render a 128-bit id in its canonical hyphenated form.
pub fn uuid_text(id: u128) -> (r: String)
    ensures
        r@ == uuid_str(id),
{
    let full = hex_fixed(id, 32);
    proof {
        lemma_hex_digits_len(id as nat, 32);
    }
    let mut s = String::from_str(full.as_str().substring_char(0, 8));
    s.append("-");
    s.append(full.as_str().substring_char(8, 12));
    s.append("-");
    s.append(full.as_str().substring_char(12, 16));
    s.append("-");
    s.append(full.as_str().substring_char(16, 20));
    s.append("-");
    s.append(full.as_str().substring_char(20, 32));
    proof {
        reveal_strlit("-");
        lemma_hex_digits_len(id as nat, 32);
        assert(s@ =~= uuid_str(id));
    }
    s
}

/// The digit value of one character, hexadecimal and lower case.
pub fn hex_val(c: char) -> (r: Option<u8>)
    ensures
        r == hex_val_spec(c),
{
    if c == '0' {
        Some(0)
    } else if c == '1' {
        Some(1)
    } else if c == '2' {
        Some(2)
    } else if c == '3' {
        Some(3)
    } else if c == '4' {
        Some(4)
    } else if c == '5' {
        Some(5)
    } else if c == '6' {
        Some(6)
    } else if c == '7' {
        Some(7)
    } else if c == '8' {
        Some(8)
    } else if c == '9' {
        Some(9)
    } else if c == 'a' {
        Some(10)
    } else if c == 'b' {
        Some(11)
    } else if c == 'c' {
        Some(12)
    } else if c == 'd' {
        Some(13)
    } else if c == 'e' {
        Some(14)
    } else if c == 'f' {
        Some(15)
    } else {
        None
    }
}

pub proof fn lemma_pow16_pos(c: nat)
    ensures
        pow16(c) >= 1,
    decreases c,
{
    if c > 0 {
        lemma_pow16_pos((c - 1) as nat);
    }
}

pub proof fn lemma_pow16_mono(a: nat, b: nat)
    requires
        a <= b,
    ensures
        pow16(a) <= pow16(b),
    decreases b,
{
    if a < b {
        lemma_pow16_mono(a, (b - 1) as nat);
        lemma_pow16_pos((b - 1) as nat);
    }
}

pub proof fn lemma_pow10_pos(c: nat)
    ensures
        pow10(c) >= 1,
    decreases c,
{
    if c > 0 {
        lemma_pow10_pos((c - 1) as nat);
    }
}

pub proof fn lemma_pow10_mono(a: nat, b: nat)
    requires
        a <= b,
    ensures
        pow10(a) <= pow10(b),
    decreases b,
{
    if a < b {
        lemma_pow10_mono(a, (b - 1) as nat);
        lemma_pow10_pos((b - 1) as nat);
    }
}

pub proof fn lemma_hex_digits_len(n: nat, c: nat)
    ensures
        hex_digits(n, c).len() == c,
    decreases c,
{
    if c > 0 {
        lemma_hex_digits_len(n / 16, (c - 1) as nat);
    }
}

/// Every character of a fixed-width hexadecimal rendering is a digit.
pub proof fn lemma_hex_digits_are_digits(n: nat, c: nat)
    ensures
        forall|k: int| 0 <= k < c ==> hex_val_spec(#[trigger] hex_digits(n, c)[k]) is Some,
    decreases c,
{
    lemma_hex_digits_len(n, c);
    if c > 0 {
        lemma_hex_digits_are_digits(n / 16, (c - 1) as nat);
        lemma_hex_digits_len(n / 16, (c - 1) as nat);
        let s = hex_digits(n, c);
        assert forall|k: int| 0 <= k < c implies hex_val_spec(#[trigger] s[k]) is Some by {
            if k < c - 1 {
                assert(s[k] == hex_digits(n / 16, (c - 1) as nat)[k]);
            } else {
                assert(s[k] == digit_char(n % 16));
            }
        }
    }
}

/// Every character of a decimal rendering is a decimal digit.
pub proof fn lemma_dec_str_digits(n: nat)
    ensures
        dec_str(n).len() >= 1,
        forall|k: int| 0 <= k < dec_str(n).len() ==> dec_val_spec(
            #[trigger] dec_str(n)[k],
        ) is Some,
    decreases n,
{
    if n >= 10 {
        lemma_dec_str_digits(n / 10);
        let s = dec_str(n);
        assert forall|k: int| 0 <= k < s.len() implies dec_val_spec(#[trigger] s[k]) is Some by {
            if k < s.len() - 1 {
                assert(s[k] == dec_str(n / 10)[k]);
            } else {
                assert(s[k] == digit_char(n % 10));
            }
        }
    }
}

/// A number below `pow10(c)` renders in at most `c` decimal digits.
pub proof fn lemma_dec_str_len(n: nat, c: nat)
    requires
        c >= 1,
        n < pow10(c),
    ensures
        dec_str(n).len() <= c,
    decreases c,
{
    if n >= 10 {
        assert(pow10(c) == 10 * pow10((c - 1) as nat));
        assert(n / 10 < pow10((c - 1) as nat)) by {
            if n / 10 >= pow10((c - 1) as nat) {
                lemma_mul_inequality(pow10((c - 1) as nat) as int, n as int / 10, 10);
                lemma_fundamental_div_mod(n as int, 10);
            }
        }
        lemma_dec_str_len(n / 10, (c - 1) as nat);
    }
}

/// Unfold one digit out of a modulus: the low `c` digits of `n` are the low
/// `c - 1` digits of `n / 16` followed by the last digit of `n`.
proof fn lemma_mod_unfold_16(n: nat, m: nat)
    requires
        m >= 1,
    ensures
        n % (16 * m) == (n / 16 % m) * 16 + n % 16,
{
    let q = n as int / 16 / m as int;
    let r = n as int / 16 % m as int;
    lemma_fundamental_div_mod(n as int, 16);
    lemma_fundamental_div_mod(n as int / 16, m as int);
    assert(n as int / 16 == q * m + r);
    assert(n as int == 16 * (q * m + r) + n as int % 16);
    assert(16 * (q * m + r) == 16 * (q * m) + 16 * r) by {
        lemma_mul_is_distributive_add(16, q * m, r);
    }
    assert(16 * (q * m) == q * (16 * m)) by (nonlinear_arith);
    assert(0 <= 16 * r + n as int % 16 < 16 * m) by {
        lemma_mul_inequality(r, m as int - 1, 16);
    }
    lemma_fundamental_div_mod_converse_mod(
        n as int,
        16 * m as int,
        q,
        16 * r + n as int % 16,
    );
}

/// Reading back a fixed-width hexadecimal rendering gives the low digits of
/// the rendered number.
pub proof fn lemma_hex_round_trip(n: nat, c: nat)
    ensures
        hex_seq_val(hex_digits(n, c)) == Some(n % pow16(c)),
    decreases c,
{
    lemma_hex_digits_len(n, c);
    if c == 0 {
        assert(n % 1 == 0) by (nonlinear_arith);
    } else {
        lemma_hex_round_trip(n / 16, (c - 1) as nat);
        lemma_hex_digits_len(n / 16, (c - 1) as nat);
        let s = hex_digits(n, c);
        assert(s.drop_last() =~= hex_digits(n / 16, (c - 1) as nat));
        assert(s.last() == digit_char(n % 16));
        assert(hex_val_spec(digit_char(n % 16)) == Some((n % 16) as u8));
        lemma_pow16_pos((c - 1) as nat);
        lemma_mod_unfold_16(n, pow16((c - 1) as nat));
        assert(pow16(c) == 16 * pow16((c - 1) as nat));
    }
}

/// Reading back a decimal rendering gives the rendered number.
pub proof fn lemma_dec_round_trip(n: nat)
    ensures
        dec_seq_val(dec_str(n)) == Some(n),
    decreases n,
{
    if n < 10 {
        let s = dec_str(n);
        assert(s.len() == 1);
        assert(s.drop_last() =~= Seq::<char>::empty());
        assert(dec_seq_val(Seq::<char>::empty()) == Some(0nat));
        assert(s.last() == digit_char(n));
        assert(dec_val_spec(digit_char(n)) == Some(n as u8));
    } else {
        lemma_dec_round_trip(n / 10);
        let s = dec_str(n);
        assert(s.drop_last() =~= dec_str(n / 10));
        assert(s.last() == digit_char(n % 10));
        assert(dec_val_spec(digit_char(n % 10)) == Some((n % 10) as u8));
        lemma_fundamental_div_mod(n as int, 10);
    }
}

/// The hyphen positions inside the canonical hyphenated id text.
pub open spec fn is_hyphen_pos(p: int) -> bool {
    p == 8 || p == 13 || p == 18 || p == 23
}

/// How many of the first `i` positions of the hyphenated text carry digits.
pub open spec fn digits_before(i: int) -> int {
    i - (if i > 8 {
        1int
    } else {
        0int
    }) - (if i > 13 {
        1int
    } else {
        0int
    }) - (if i > 18 {
        1int
    } else {
        0int
    }) - (if i > 23 {
        1int
    } else {
        0int
    })
}

/// The digit characters among the first `i` positions, hyphens skipped.
pub open spec fn gather_digits(s: Seq<char>, i: int) -> Seq<char>
    decreases i,
{
    if i <= 0 {
        Seq::empty()
    } else if is_hyphen_pos(i - 1) {
        gather_digits(s, i - 1)
    } else {
        gather_digits(s, i - 1).push(s[i - 1])
    }
}

/// Shape of the canonical hyphenated text: hyphens at their four positions,
/// digits everywhere else, and the digits in rendering order.
pub proof fn lemma_uuid_str_shape(id: u128)
    ensures
        uuid_str(id).len() == 36,
        forall|p: int|
            0 <= p < 36 && is_hyphen_pos(p) ==> #[trigger] uuid_str(id)[p] == '-',
        forall|p: int|
            0 <= p < 36 && !is_hyphen_pos(p) ==> hex_val_spec(#[trigger] uuid_str(id)[p]) is Some,
        forall|p: int|
            0 <= p < 36 && !is_hyphen_pos(p) ==> #[trigger] uuid_str(id)[p] == hex_digits(
                id as nat,
                32,
            )[digits_before(p)],
{
    let d = hex_digits(id as nat, 32);
    lemma_hex_digits_len(id as nat, 32);
    lemma_hex_digits_are_digits(id as nat, 32);
    let s = uuid_str(id);
    assert(s.len() == 36);
    assert forall|p: int| 0 <= p < 36 && !is_hyphen_pos(p) implies #[trigger] s[p] == d[
        digits_before(p)
    ] by {
        if p < 8 {
            assert(s[p] == d[p]);
        } else if p < 13 {
            assert(s[p] == d[p - 1]);
        } else if p < 18 {
            assert(s[p] == d[p - 2]);
        } else if p < 23 {
            assert(s[p] == d[p - 3]);
        } else {
            assert(s[p] == d[p - 4]);
        }
    }
}

/// Gathering the digits of the canonical hyphenated text of `id` recovers
/// its 32-digit rendering, prefix by prefix.
pub proof fn lemma_gather_uuid(id: u128, i: int)
    requires
        0 <= i <= 36,
    ensures
        gather_digits(uuid_str(id), i) == hex_digits(id as nat, 32).take(digits_before(i)),
    decreases i,
{
    lemma_uuid_str_shape(id);
    lemma_hex_digits_len(id as nat, 32);
    let d = hex_digits(id as nat, 32);
    if i == 0 {
        assert(gather_digits(uuid_str(id), 0) =~= d.take(0));
    } else {
        lemma_gather_uuid(id, i - 1);
        if is_hyphen_pos(i - 1) {
            assert(digits_before(i) == digits_before(i - 1));
        } else {
            assert(uuid_str(id)[i - 1] == d[digits_before(i - 1)]);
            assert(d.take(digits_before(i)) =~= d.take(digits_before(i - 1)).push(
                d[digits_before(i - 1)],
            ));
        }
    }
}

/// Parse the canonical hyphenated form of a 128-bit id. Accepts exactly the
/// strings `uuid_text` produces.
pub fn parse_uuid(s: &str) -> (r: Option<u128>)
    ensures
        r is Some ==> s@ == uuid_str(r.unwrap()),
        forall|id: u128| s@ == uuid_str(id) ==> r == Some(id),
{
    proof {
        assert forall|id: u128| uuid_str(id).len() == 36 by {
            lemma_uuid_str_shape(id);
        }
    }
    if s.unicode_len() != 36 {
        return None;
    }
    let mut acc: u128 = 0;
    let mut i: usize = 0;
    while i < 36
        invariant
            0 <= i <= 36,
            s@.len() == 36,
            hex_seq_val(gather_digits(s@, i as int)) == Some(acc as nat),
            acc < pow16(digits_before(i as int) as nat),
            digits_before(i as int) <= 32,
            forall|p: int| 0 <= p < i && is_hyphen_pos(p) ==> s@[p] == '-',
        decreases 36 - i,
    {
        let c = s.get_char(i);
        if i == 8 || i == 13 || i == 18 || i == 23 {
            if c != '-' {
                proof {
                    assert forall|id: u128| s@ != uuid_str(id) by {
                        lemma_uuid_str_shape(id);
                    }
                }
                return None;
            }
            proof {
                assert(gather_digits(s@, i as int + 1) == gather_digits(s@, i as int));
            }
        } else {
            match hex_val(c) {
                Some(dv) => {
                    proof {
                        let g = gather_digits(s@, i as int);
                        assert(gather_digits(s@, i as int + 1) == g.push(c));
                        assert(g.push(c).drop_last() =~= g);
                        assert(g.push(c).last() == c);
                        assert(digits_before(i as int + 1) == digits_before(i as int) + 1);
                        assert(pow16((digits_before(i as int) + 1) as nat) == 16 * pow16(
                            digits_before(i as int) as nat,
                        ));
                        lemma_pow16_mono((digits_before(i as int) + 1) as nat, 32);
                        lemma_pow16_32_is_u128_bound();
                    }
                    acc = acc * 16 + (dv as u128);
                },
                None => {
                    proof {
                        assert forall|id: u128| s@ != uuid_str(id) by {
                            lemma_uuid_str_shape(id);
                        }
                    }
                    return None;
                },
            }
        }
        i += 1;
    }
    let rendered = uuid_text(acc);
    let owned = s.to_owned();
    if owned == rendered {
        proof {
            assert forall|id: u128| s@ == uuid_str(id) implies Some(acc) == Some(id) by {
                lemma_gather_uuid(id, 36);
                lemma_hex_digits_len(id as nat, 32);
                assert(hex_digits(id as nat, 32).take(32) =~= hex_digits(id as nat, 32));
                lemma_hex_round_trip(id as nat, 32);
                lemma_pow16_32_is_u128_bound();
                vstd::arithmetic::div_mod::lemma_small_mod(id as nat, pow16(32));
            }
        }
        Some(acc)
    } else {
        proof {
            assert forall|id: u128| s@ == uuid_str(id) implies false by {
                lemma_gather_uuid(id, 36);
                lemma_hex_digits_len(id as nat, 32);
                assert(hex_digits(id as nat, 32).take(32) =~= hex_digits(id as nat, 32));
                lemma_hex_round_trip(id as nat, 32);
                lemma_pow16_32_is_u128_bound();
                vstd::arithmetic::div_mod::lemma_small_mod(id as nat, pow16(32));
                assert(acc == id);
            }
        }
        None
    }
}

/// `pow16(32)` is exactly one past the largest `u128`.
pub proof fn lemma_pow16_32_is_u128_bound()
    ensures
        pow16(32) == 0x100000000000000000000000000000000,
{
    reveal_with_fuel(pow16, 33);
}

/// Parse a decimal `u32`. Accepts exactly the strings `u32_to_string`
/// produces: no sign, no leading zeros, in range.
pub fn parse_u32(s: &str) -> (r: Option<u32>)
    ensures
        r is Some ==> s@ == dec_str(r.unwrap() as nat),
        forall|n: u32| s@ == dec_str(n as nat) ==> r == Some(n),
{
    let len = s.unicode_len();
    if len == 0 || len > 10 {
        proof {
            assert forall|n: u32| s@ == dec_str(n as nat) implies false by {
                lemma_dec_str_digits(n as nat);
                reveal_with_fuel(pow10, 11);
                lemma_dec_str_len(n as nat, 10);
            }
        }
        return None;
    }
    let mut acc: u64 = 0;
    let mut i: usize = 0;
    proof {
        assert(s@.take(0) =~= Seq::<char>::empty());
    }
    while i < len
        invariant
            0 <= i <= len,
            len == s@.len(),
            1 <= len <= 10,
            dec_seq_val(s@.take(i as int)) == Some(acc as nat),
            acc < pow10(i as nat),
        decreases len - i,
    {
        let c = s.get_char(i);
        let dv = match hex_val(c) {
            Some(d) if d < 10 => d,
            _ => {
                proof {
                    assert forall|n: u32| s@ == dec_str(n as nat) implies false by {
                        lemma_dec_str_digits(n as nat);
                    }
                }
                return None;
            },
        };
        proof {
            assert(s@.take(i as int + 1).drop_last() =~= s@.take(i as int));
            assert(s@.take(i as int + 1).last() == s@[i as int]);
            assert(pow10((i + 1) as nat) == 10 * pow10(i as nat));
            lemma_pow10_mono((i + 1) as nat, 10);
            reveal_with_fuel(pow10, 11);
            assert(pow10(10) == 10000000000);
        }
        acc = acc * 10 + (dv as u64);
        i += 1;
    }
    proof {
        assert(s@.take(len as int) =~= s@);
    }
    if acc > 0xffffffff {
        proof {
            assert forall|n: u32| s@ == dec_str(n as nat) implies false by {
                lemma_dec_round_trip(n as nat);
            }
        }
        return None;
    }
    let parsed = acc as u32;
    let rendered = u32_to_string(parsed);
    let owned = s.to_owned();
    if owned == rendered {
        proof {
            assert forall|n: u32| s@ == dec_str(n as nat) implies Some(parsed) == Some(n) by {
                lemma_dec_round_trip(n as nat);
            }
        }
        Some(parsed)
    } else {
        proof {
            assert forall|n: u32| s@ == dec_str(n as nat) implies false by {
                lemma_dec_round_trip(n as nat);
                assert(parsed == n);
            }
        }
        None
    }
}

} // verus!
