//! Small verified building blocks for strings: equality, search,
//! decimal rendering and parsing, and zero padding.
use vstd::prelude::*;

verus! {

/// The character for a single decimal digit.
pub open spec fn dec_digit(d: nat) -> char {
    if d == 0 {
        '0'
    } else if d == 1 {
        '1'
    } else if d == 2 {
        '2'
    } else if d == 3 {
        '3'
    } else if d == 4 {
        '4'
    } else if d == 5 {
        '5'
    } else if d == 6 {
        '6'
    } else if d == 7 {
        '7'
    } else if d == 8 {
        '8'
    } else {
        '9'
    }
}

/// Decimal rendering of a natural number, without sign or leading zeros.
pub open spec fn dec_of(n: nat) -> Seq<char>
    decreases n,
{
    if n < 10 {
        seq![dec_digit(n)]
    } else {
        dec_of(n / 10).push(dec_digit(n % 10))
    }
}

/// A run of `k` zero characters.
pub open spec fn zeros(k: nat) -> Seq<char>
    decreases k,
{
    if k == 0 {
        Seq::<char>::empty()
    } else {
        zeros((k - 1) as nat).push('0')
    }
}

/// `dec_of(n)` left-padded with zeros to at least `w` characters.
pub open spec fn dec_padded(n: nat, w: nat) -> Seq<char> {
    if dec_of(n).len() < w {
        zeros((w - dec_of(n).len()) as nat) + dec_of(n)
    } else {
        dec_of(n)
    }
}

/// String equality by view.
pub fn str_eq(a: &str, b: &str) -> (r: bool)
    ensures
        r == (a@ == b@),
{
    let sa = a.to_owned();
    let sb = b.to_owned();
    sa == sb
}

/// Whether `s` ends with `suffix`, stated over the views.
pub open spec fn spec_ends_with(s: Seq<char>, suffix: Seq<char>) -> bool {
    s.len() >= suffix.len() && s.subrange(s.len() - suffix.len(), s.len() as int) == suffix
}

pub fn ends_with(s: &str, suffix: &str) -> (r: bool)
    ensures
        r == spec_ends_with(s@, suffix@),
{
    let n = s.unicode_len();
    let m = suffix.unicode_len();
    if m > n {
        return false;
    }
    let tail = s.substring_char(n - m, n);
    str_eq(tail, suffix)
}

/// Whether `c` occurs in `s`.
pub fn contains_char(s: &str, c: char) -> (r: bool)
    ensures
        r == s@.contains(c),
{
    let n = s.unicode_len();
    let mut i: usize = 0;
    while i < n
        invariant
            n == s@.len(),
            i <= n,
            forall|j: int| 0 <= j < i ==> s@[j] != c,
        decreases n - i,
    {
        if s.get_char(i) == c {
            assert(s@[i as int] == c);
            return true;
        }
        i = i + 1;
    }
    assert(!s@.contains(c)) by {
        if s@.contains(c) {
            let j = choose|j: int| 0 <= j < s@.len() && s@[j] == c;
            assert(s@[j] != c);
        }
    }
    false
}

/// The first index of `c` in `s`, if any.
pub fn find_char(s: &str, c: char) -> (r: Option<usize>)
    ensures
        match r {
            Some(i) => i < s@.len() && s@[i as int] == c && forall|j: int|
                0 <= j < i ==> s@[j] != c,
            None => !s@.contains(c),
        },
{
    let n = s.unicode_len();
    let mut i: usize = 0;
    while i < n
        invariant
            n == s@.len(),
            i <= n,
            forall|j: int| 0 <= j < i ==> s@[j] != c,
        decreases n - i,
    {
        if s.get_char(i) == c {
            return Some(i);
        }
        i = i + 1;
    }
    assert(!s@.contains(c)) by {
        if s@.contains(c) {
            let j = choose|j: int| 0 <= j < s@.len() && s@[j] == c;
            assert(s@[j] != c);
        }
    }
    None
}

/// The last index of `c` in `s`, if any.
pub fn rfind_char(s: &str, c: char) -> (r: Option<usize>)
    ensures
        match r {
            Some(i) => i < s@.len() && s@[i as int] == c && forall|j: int|
                i < j < s@.len() ==> s@[j] != c,
            None => !s@.contains(c),
        },
{
    let n = s.unicode_len();
    let mut i: usize = n;
    while i > 0
        invariant
            n == s@.len(),
            i <= n,
            forall|j: int| i <= j < n ==> s@[j] != c,
        decreases i,
    {
        i = i - 1;
        if s.get_char(i) == c {
            return Some(i);
        }
    }
    assert(!s@.contains(c)) by {
        if s@.contains(c) {
            let j = choose|j: int| 0 <= j < s@.len() && s@[j] == c;
            assert(s@[j] != c);
        }
    }
    None
}

/// One-character string for a decimal digit.
fn digit_str(d: u64) -> (r: &'static str)
    requires
        d < 10,
    ensures
        r@ == seq![dec_digit(d as nat)],
{
    if d == 0 {
        let s = "0";
        proof {
            reveal_strlit("0");
        }
        s
    } else if d == 1 {
        let s = "1";
        proof {
            reveal_strlit("1");
        }
        s
    } else if d == 2 {
        let s = "2";
        proof {
            reveal_strlit("2");
        }
        s
    } else if d == 3 {
        let s = "3";
        proof {
            reveal_strlit("3");
        }
        s
    } else if d == 4 {
        let s = "4";
        proof {
            reveal_strlit("4");
        }
        s
    } else if d == 5 {
        let s = "5";
        proof {
            reveal_strlit("5");
        }
        s
    } else if d == 6 {
        let s = "6";
        proof {
            reveal_strlit("6");
        }
        s
    } else if d == 7 {
        let s = "7";
        proof {
            reveal_strlit("7");
        }
        s
    } else if d == 8 {
        let s = "8";
        proof {
            reveal_strlit("8");
        }
        s
    } else {
        let s = "9";
        proof {
            reveal_strlit("9");
        }
        s
    }
}

/// Decimal rendering of `n`.
pub fn u64_to_dec(n: u64) -> (r: String)
    ensures
        r@ == dec_of(n as nat),
    decreases n,
{
    if n < 10 {
        digit_str(n).to_owned()
    } else {
        let high = u64_to_dec(n / 10);
        let low = digit_str(n % 10);
        let r = high.concat(low);
        assert(r@ == dec_of((n / 10) as nat).push(dec_digit((n % 10) as nat)));
        r
    }
}

/// Decimal rendering of `n`, left-padded with zeros to at least `w`
/// characters.
pub fn u64_to_dec_padded(n: u64, w: usize) -> (r: String)
    ensures
        r@ == dec_padded(n as nat, w as nat),
{
    let digits = u64_to_dec(n);
    let len = digits.as_str().unicode_len();
    let mut pad = String::new();
    let mut k: usize = 0;
    if len < w {
        let target: usize = w - len;
        while k < target
            invariant
                k <= target,
                pad@ == zeros(k as nat),
            decreases target - k,
        {
            let z = digit_str(0);
            pad.append(z);
            proof {
                assert(zeros((k + 1) as nat) == zeros(k as nat).push('0'));
                assert(pad@ == zeros((k + 1) as nat));
            }
            k = k + 1;
        }
    }
    let r = pad.concat(digits.as_str());
    r
}

/// The numeric value of a sequence of decimal digit characters.
pub open spec fn is_dec_digit_char(c: char) -> bool {
    c == '0' || c == '1' || c == '2' || c == '3' || c == '4' || c == '5' || c == '6' || c == '7'
        || c == '8' || c == '9'
}

pub open spec fn dec_digit_val(c: char) -> nat {
    if c == '0' {
        0
    } else if c == '1' {
        1
    } else if c == '2' {
        2
    } else if c == '3' {
        3
    } else if c == '4' {
        4
    } else if c == '5' {
        5
    } else if c == '6' {
        6
    } else if c == '7' {
        7
    } else if c == '8' {
        8
    } else {
        9
    }
}

/// The value of a digit string, most significant digit first.
pub open spec fn dec_val(s: Seq<char>) -> nat
    decreases s.len(),
{
    if s.len() == 0 {
        0
    } else {
        dec_val(s.drop_last()) * 10 + dec_digit_val(s.last())
    }
}

pub open spec fn all_dec_digits(s: Seq<char>) -> bool {
    forall|i: int| 0 <= i < s.len() ==> is_dec_digit_char(s[i])
}

/// Parse an unsigned decimal integer; `None` on an empty string, on a
/// non-digit character, or on overflow of `u64`.
pub fn parse_u64(s: &str) -> (r: Option<u64>)
    ensures
        match r {
            Some(v) => s@.len() > 0 && all_dec_digits(s@) && v as nat == dec_val(s@),
            None => s@.len() == 0 || !all_dec_digits(s@) || dec_val(s@) > u64::MAX,
        },
{
    let n = s.unicode_len();
    if n == 0 {
        return None;
    }
    let mut acc: u64 = 0;
    let mut i: usize = 0;
    while i < n
        invariant
            n == s@.len(),
            0 < n,
            i <= n,
            all_dec_digits(s@.subrange(0, i as int)),
            acc as nat == dec_val(s@.subrange(0, i as int)),
        decreases n - i,
    {
        let c = s.get_char(i);
        let d: u64 = if c == '0' {
            0
        } else if c == '1' {
            1
        } else if c == '2' {
            2
        } else if c == '3' {
            3
        } else if c == '4' {
            4
        } else if c == '5' {
            5
        } else if c == '6' {
            6
        } else if c == '7' {
            7
        } else if c == '8' {
            8
        } else if c == '9' {
            9
        } else {
            proof {
                assert(s@.subrange(0, s@.len() as int) == s@);
            }
            return None;
        };
        proof {
            assert(s@.subrange(0, (i + 1) as int).drop_last() == s@.subrange(0, i as int));
            assert(s@.subrange(0, (i + 1) as int).last() == s@[i as int]);
        }
        if acc > (u64::MAX - d) / 10 {
            proof {
                lemma_dec_val_monotone(s@.subrange(0, (i + 1) as int), s@);
            }
            return None;
        }
        acc = acc * 10 + d;
        i = i + 1;
    }
    proof {
        assert(s@.subrange(0, s@.len() as int) == s@);
    }
    Some(acc)
}

/// A digit-string prefix never has a larger value than the whole.
proof fn lemma_dec_val_monotone(p: Seq<char>, s: Seq<char>)
    requires
        p.len() <= s.len(),
        forall|i: int| 0 <= i < p.len() ==> p[i] == s[i],
    ensures
        dec_val(p) <= dec_val(s),
    decreases s.len(),
{
    if p.len() == s.len() {
        assert(p =~= s);
    } else {
        lemma_dec_val_monotone(p, s.drop_last());
    }
}

/// Powers of ten.
pub open spec fn pow10(k: nat) -> nat
    decreases k,
{
    if k == 0 {
        1
    } else {
        10 * pow10((k - 1) as nat)
    }
}

/// The least `w` with `pow10(w) >= n`: the width needed to print every
/// index below `n` in a fixed number of digits.
pub open spec fn ceil_log10(n: nat) -> nat
    decreases n,
{
    if n <= 1 {
        0
    } else {
        1 + ceil_log10((n + 9) / 10)
    }
}

proof fn lemma_pow10_lower(k: nat)
    ensures
        k < pow10(k),
    decreases k,
{
    if k > 0 {
        lemma_pow10_lower((k - 1) as nat);
        assert(10 * pow10((k - 1) as nat) >= 10 * k) by (nonlinear_arith)
            requires
                pow10((k - 1) as nat) >= k,
        ;
    }
}

proof fn lemma_pow10_monotone(a: nat, b: nat)
    requires
        a <= b,
    ensures
        pow10(a) <= pow10(b),
    decreases b,
{
    if a < b {
        lemma_pow10_monotone(a, (b - 1) as nat);
    }
}

/// `ceil_log10(n)` is exactly characterized by its bounds.
pub proof fn lemma_ceil_log10_bounds(n: nat)
    ensures
        pow10(ceil_log10(n)) >= n,
        ceil_log10(n) > 0 ==> pow10((ceil_log10(n) - 1) as nat) < n,
    decreases n,
{
    if n > 1 {
        lemma_ceil_log10_bounds((n + 9) / 10);
    }
}

proof fn lemma_ceil_log10_unique(n: nat, w: nat)
    requires
        pow10(w) >= n,
        w > 0 ==> pow10((w - 1) as nat) < n,
    ensures
        w == ceil_log10(n),
{
    lemma_ceil_log10_bounds(n);
    let c = ceil_log10(n);
    if w < c {
        lemma_pow10_monotone(w, (c - 1) as nat);
    }
    if c < w {
        lemma_pow10_monotone(c, (w - 1) as nat);
    }
}

/// The number of digits needed to print every index below `total`.
pub fn dec_width(total: u64) -> (w: usize)
    ensures
        w == ceil_log10(total as nat),
{
    let mut p: u128 = 1;
    let mut w: usize = 0;
    while p < total as u128
        invariant
            p == pow10(w as nat),
            p <= u64::MAX as u128 * 10,
            w <= 20,
            w > 0 ==> pow10((w - 1) as nat) < total as nat,
        decreases 10 * (total as int) - p as int,
    {
        proof {
            reveal_with_fuel(pow10, 21);
            assert(pow10(20) > u64::MAX as nat);
            if w >= 20 {
                lemma_pow10_monotone(20, w as nat);
                assert(false);
            }
        }
        p = p * 10;
        w = w + 1;
    }
    proof {
        lemma_ceil_log10_unique(total as nat, w as nat);
    }
    w
}

/// Reading back the decimal rendering gives the number itself.
pub proof fn lemma_dec_val_of_dec_of(n: nat)
    ensures
        dec_val(dec_of(n)) == n,
        all_dec_digits(dec_of(n)),
        dec_of(n).len() > 0,
    decreases n,
{
    if n < 10 {
        let s = dec_of(n);
        assert(s == seq![dec_digit(n)]);
        assert(s.drop_last() =~= Seq::<char>::empty());
        assert(dec_val(s) == dec_val(s.drop_last()) * 10 + dec_digit_val(s.last()));
        assert(dec_val(s.drop_last()) == 0);
        assert(dec_digit_val(dec_digit(n)) == n);
    } else {
        lemma_dec_val_of_dec_of(n / 10);
        assert(dec_of(n).drop_last() == dec_of(n / 10));
        assert(dec_val(dec_of(n)) == (n / 10) * 10 + n % 10);
        assert(n == (n / 10) * 10 + n % 10) by (nonlinear_arith);
    }
}

/// Decimal renderings of distinct numbers are distinct.
pub proof fn lemma_dec_of_injective(m: nat, n: nat)
    requires
        dec_of(m) == dec_of(n),
    ensures
        m == n,
{
    lemma_dec_val_of_dec_of(m);
    lemma_dec_val_of_dec_of(n);
}

/// Leading zeros do not change the value of a digit string.
proof fn lemma_dec_val_zero_prefix(z: Seq<char>, s: Seq<char>)
    requires
        forall|i: int| 0 <= i < z.len() ==> z[i] == '0',
    ensures
        dec_val(z + s) == dec_val(s),
    decreases s.len(),
{
    if s.len() == 0 {
        assert(z + s == z);
        lemma_dec_val_zeros(z);
    } else {
        assert((z + s).drop_last() == z + s.drop_last());
        assert((z + s).last() == s.last());
        lemma_dec_val_zero_prefix(z, s.drop_last());
    }
}

proof fn lemma_dec_val_zeros(z: Seq<char>)
    requires
        forall|i: int| 0 <= i < z.len() ==> z[i] == '0',
    ensures
        dec_val(z) == 0,
    decreases z.len(),
{
    if z.len() > 0 {
        lemma_dec_val_zeros(z.drop_last());
    }
}

proof fn lemma_zeros_are_zero(k: nat)
    ensures
        zeros(k).len() == k,
        forall|i: int| 0 <= i < k ==> zeros(k)[i] == '0',
    decreases k,
{
    if k > 0 {
        lemma_zeros_are_zero((k - 1) as nat);
    }
}

/// Reading back a zero-padded rendering also gives the number itself.
pub proof fn lemma_dec_val_of_dec_padded(n: nat, w: nat)
    ensures
        dec_val(dec_padded(n, w)) == n,
        dec_padded(n, w).len() >= w,
        dec_padded(n, w).len() >= dec_of(n).len(),
{
    lemma_dec_val_of_dec_of(n);
    if dec_of(n).len() < w {
        lemma_zeros_are_zero((w - dec_of(n).len()) as nat);
        lemma_dec_val_zero_prefix(zeros((w - dec_of(n).len()) as nat), dec_of(n));
    }
}

/// Parse a boolean written as `true` or `false`.
pub fn parse_bool(s: &str) -> (r: Option<bool>)
    ensures
        r == Some(true) <==> s@ == "true"@,
        r == Some(false) <==> s@ == "false"@,
        r is None <==> (s@ != "true"@ && s@ != "false"@),
{
    proof {
        reveal_strlit("true");
        reveal_strlit("false");
        assert("true"@.len() == 4);
        assert("false"@.len() == 5);
        assert("true"@ != "false"@);
    }
    if str_eq(s, "true") {
        Some(true)
    } else if str_eq(s, "false") {
        Some(false)
    } else {
        None
    }
}

} // verus!
