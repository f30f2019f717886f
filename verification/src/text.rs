//! Small text helpers: comparison, and decimal and hexadecimal digits.

use vstd::prelude::*;

verus! {

/// Calls `==` of `str`. Claims what std documents: two string slices are
/// equal exactly when they hold the same characters.
#[verifier::external_body]
pub(crate) fn same_text(a: &str, b: &str) -> (same: bool)
    ensures
        same == (a@ == b@),
{
    a == b
}

/// The character that writes a digit below sixteen, in lower case.
pub open spec fn digit_char(d: nat) -> char {
    if d == 0 {
        '0'
    } else if d == 1 {
        '1'
    } else if d == 2 {
        '2'
    } else if d == 3 {
        '3'
    } else if d == 4 {
        '4'
    } else if d == 5 {
        '5'
    } else if d == 6 {
        '6'
    } else if d == 7 {
        '7'
    } else if d == 8 {
        '8'
    } else if d == 9 {
        '9'
    } else if d == 10 {
        'a'
    } else if d == 11 {
        'b'
    } else if d == 12 {
        'c'
    } else if d == 13 {
        'd'
    } else if d == 14 {
        'e'
    } else {
        'f'
    }
}

/// The last `width` digits of `n` in the given base, most significant first,
/// with leading zeros.
pub open spec fn fixed_digits(n: nat, base: nat, width: nat) -> Seq<char>
    decreases width,
{
    if width == 0 || base == 0 {
        Seq::empty()
    } else {
        fixed_digits(n / base, base, (width - 1) as nat).push(digit_char(n % base))
    }
}

/// A number written in a fixed width has that many digits.
pub proof fn lemma_fixed_digits_len(n: nat, base: nat, width: nat)
    requires
        base > 0,
    ensures
        fixed_digits(n, base, width).len() == width,
    decreases width,
{
    if width > 0 {
        lemma_fixed_digits_len(n / base, base, (width - 1) as nat);
    }
}

/// How many decimal digits `n` takes; zero takes one.
pub open spec fn digit_count(n: nat) -> nat
    decreases n,
{
    if n < 10 {
        1
    } else {
        1 + digit_count(n / 10)
    }
}

/// `n` in decimal, padded with zeros on the left to at least `width` digits.
pub open spec fn padded_decimal(n: nat, width: nat) -> Seq<char> {
    let digits = digit_count(n);
    fixed_digits(n, 10, if digits > width { digits } else { width })
}

/// Appends one digit to a text.
pub fn push_digit(text: &mut String, d: u8)
    requires
        d < 16,
    ensures
        final(text)@ == old(text)@.push(digit_char(d as nat)),
{
    let glyph = match d {
        0 => "0",
        1 => "1",
        2 => "2",
        3 => "3",
        4 => "4",
        5 => "5",
        6 => "6",
        7 => "7",
        8 => "8",
        9 => "9",
        10 => "a",
        11 => "b",
        12 => "c",
        13 => "d",
        14 => "e",
        _ => "f",
    };
    proof {
        reveal_strlit("0");
        reveal_strlit("1");
        reveal_strlit("2");
        reveal_strlit("3");
        reveal_strlit("4");
        reveal_strlit("5");
        reveal_strlit("6");
        reveal_strlit("7");
        reveal_strlit("8");
        reveal_strlit("9");
        reveal_strlit("a");
        reveal_strlit("b");
        reveal_strlit("c");
        reveal_strlit("d");
        reveal_strlit("e");
        reveal_strlit("f");
        assert(glyph@ =~= seq![digit_char(d as nat)]);
    }
    text.append(glyph);
    assert(text@ =~= old(text)@.push(digit_char(d as nat)));
}

/// Appends the last `width` digits of `n` in base ten or sixteen.
pub fn push_fixed(text: &mut String, n: u64, base: u64, width: usize)
    requires
        base == 10 || base == 16,
    ensures
        final(text)@ == old(text)@ + fixed_digits(n as nat, base as nat, width as nat),
{
    let mut digits: Vec<u8> = Vec::new();
    let mut rest: u64 = n;
    let mut k: usize = 0;
    while k < width
        invariant
            k <= width,
            base == 10 || base == 16,
            digits.len() == k,
            forall|i: int| 0 <= i < k ==> #[trigger] digits[i] < 16,
            forall|w: nat|
                w >= k ==> #[trigger] fixed_digits(n as nat, base as nat, w) =~= fixed_digits(
                    rest as nat,
                    base as nat,
                    (w - k) as nat,
                ) + Seq::new(k as nat, |i: int| digit_char(digits[k - 1 - i] as nat)),
        decreases width - k,
    {
        let d: u8 = (rest % base) as u8;
        let ghost before = rest;
        let ghost old_digits = digits@;
        digits.push(d);
        rest = rest / base;
        k = k + 1;
        proof {
            assert forall|w: nat| w >= k implies #[trigger] fixed_digits(
                n as nat,
                base as nat,
                w,
            ) =~= fixed_digits(rest as nat, base as nat, (w - k) as nat) + Seq::new(
                k as nat,
                |i: int| digit_char(digits[k - 1 - i] as nat),
            ) by {
                let tail_before = Seq::new(
                    (k - 1) as nat,
                    |i: int| digit_char(old_digits[k - 2 - i] as nat),
                );
                assert(fixed_digits(n as nat, base as nat, w) =~= fixed_digits(
                    before as nat,
                    base as nat,
                    (w - (k - 1)) as nat,
                ) + tail_before);
                assert(fixed_digits(before as nat, base as nat, (w - (k - 1)) as nat)
                    == fixed_digits(rest as nat, base as nat, (w - k) as nat).push(
                    digit_char(d as nat),
                ));
            }
        }
    }
    let mut j: usize = width;
    let ghost start = text@;
    let ghost all = fixed_digits(n as nat, base as nat, width as nat);
    assert(fixed_digits(rest as nat, base as nat, 0) =~= Seq::<char>::empty());
    assert(all =~= Seq::new(width as nat, |i: int| digit_char(digits[width - 1 - i] as nat)));
    while j > 0
        invariant
            j <= width,
            digits.len() == width,
            forall|i: int| 0 <= i < width ==> #[trigger] digits[i] < 16,
            all == Seq::new(width as nat, |i: int| digit_char(digits[width - 1 - i] as nat)),
            text@ == start + all.subrange(0, width - j),
        decreases j,
    {
        j = j - 1;
        push_digit(text, digits[j]);
        assert(text@ =~= start + all.subrange(0, width - j));
    }
    assert(all.subrange(0, width as int) =~= all);
}

/// Counts the decimal digits of `n`.
pub fn decimal_width(n: u64) -> (count: usize)
    ensures
        count == digit_count(n as nat),
        1 <= count <= 20,
{
    let mut count: usize = 1;
    let mut rest: u64 = n;
    assert((rest as nat) * pow10(0) <= n) by {
        assert(pow10(0) == 1);
        assert((rest as nat) * 1 == rest);
    }
    while rest >= 10
        invariant
            1 <= count,
            count + digit_count(rest as nat) == digit_count(n as nat) + 1,
            count <= 20,
            (rest as nat) * pow10((count - 1) as nat) <= n,
        decreases rest,
    {
        proof {
            lemma_pow10_step((count - 1) as nat);
            assert((rest / 10) as nat * pow10(count as nat) <= n) by (nonlinear_arith)
                requires
                    (rest as nat) * pow10((count - 1) as nat) <= n,
                    pow10(count as nat) == 10 * pow10((count - 1) as nat),
                    rest >= 10,
            ;
            if count == 20 {
                lemma_pow10_twenty();
                assert(false) by (nonlinear_arith)
                    requires
                        (rest / 10) as nat * pow10(20) <= n,
                        rest / 10 >= 1,
                        pow10(20) > u64::MAX,
                        n <= u64::MAX,
                ;
            }
        }
        rest = rest / 10;
        count = count + 1;
    }
    count
}

/// Ten to the power `e`.
pub open spec fn pow10(e: nat) -> nat
    decreases e,
{
    if e == 0 {
        1
    } else {
        10 * pow10((e - 1) as nat)
    }
}

proof fn lemma_pow10_step(e: nat)
    ensures
        pow10(e + 1) == 10 * pow10(e),
{
}

proof fn lemma_pow10_twenty()
    ensures
        pow10(20) > u64::MAX,
{
    reveal_with_fuel(pow10, 21);
}

/// Appends `n` in decimal, padded with zeros to at least `width` digits.
pub fn push_padded(text: &mut String, n: u64, width: usize)
    ensures
        final(text)@ == old(text)@ + padded_decimal(n as nat, width as nat),
{
    let digits = decimal_width(n);
    let w = if digits > width {
        digits
    } else {
        width
    };
    push_fixed(text, n, 10, w);
}

} // verus!
