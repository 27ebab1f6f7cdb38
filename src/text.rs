use vstd::prelude::*;

verus! {

broadcast use vstd::string::group_string_axioms;

/// The character of a decimal digit.
pub open spec fn digit_char(d: nat) -> char {
    if d == 0 { '0' }
    else if d == 1 { '1' }
    else if d == 2 { '2' }
    else if d == 3 { '3' }
    else if d == 4 { '4' }
    else if d == 5 { '5' }
    else if d == 6 { '6' }
    else if d == 7 { '7' }
    else if d == 8 { '8' }
    else { '9' }
}

/// Decimal notation of `n`, without sign or leading zeros.
pub open spec fn decimal(n: nat) -> Seq<char>
    decreases n,
{
    if n < 10 {
        seq![digit_char(n)]
    } else {
        decimal(n / 10).push(digit_char(n % 10))
    }
}

fn digit_str(d: u64) -> (r: &'static str)
    requires
        d < 10,
    ensures
        r@ == seq![digit_char(d as nat)],
{
    let r = if d == 0 { "0" }
        else if d == 1 { "1" }
        else if d == 2 { "2" }
        else if d == 3 { "3" }
        else if d == 4 { "4" }
        else if d == 5 { "5" }
        else if d == 6 { "6" }
        else if d == 7 { "7" }
        else if d == 8 { "8" }
        else { "9" };
    proof {
        reveal_strlit("0");
        reveal_strlit("1");
        reveal_strlit("2");
        reveal_strlit("3");
        reveal_strlit("4");
        reveal_strlit("5");
        reveal_strlit("6");
        reveal_strlit("7");
        reveal_strlit("8");
        reveal_strlit("9");
    }
    assert(r@ =~= seq![digit_char(d as nat)]);
    r
}

/// Decimal notation of `n`.
pub fn decimal_text(n: u64) -> (r: String)
    ensures
        r@ == decimal(n as nat),
    decreases n,
{
    if n < 10 {
        String::from_str(digit_str(n))
    } else {
        let mut s = decimal_text(n / 10);
        s.append(digit_str(n % 10));
        s
    }
}

pub open spec fn is_digit(c: char) -> bool {
    '0' <= c && c <= '9'
}

pub open spec fn digit_value(c: char) -> nat {
    (c as int - '0' as int) as nat
}

/// Value of a run of decimal digits.
pub open spec fn digits_value(s: Seq<char>) -> nat
    decreases s.len(),
{
    if s.len() == 0 {
        0
    } else {
        digits_value(s.drop_last()) * 10 + digit_value(s.last())
    }
}

pub open spec fn all_digits(s: Seq<char>) -> bool {
    s.len() > 0 && forall|i: int| 0 <= i < s.len() ==> is_digit(#[trigger] s[i])
}

/// The digits of an unsigned number written with an optional leading `+`.
pub open spec fn unsigned_digits(s: Seq<char>) -> Seq<char> {
    if s.len() > 0 && s[0] == '+' {
        s.drop_first()
    } else {
        s
    }
}

/// The value of an unsigned number in decimal notation that fits in a `usize`,
/// with an optional leading `+`; `None` for any other text.
pub open spec fn unsigned_value(s: Seq<char>) -> Option<nat> {
    let d = unsigned_digits(s);
    if all_digits(d) && digits_value(d) <= usize::MAX {
        Some(digits_value(d))
    } else {
        None
    }
}

/// Reads an unsigned number in decimal notation that fits in a `usize`.
pub fn parse_usize(s: &str) -> (r: Option<usize>)
    ensures
        r matches Some(v) <==> unsigned_value(s@) matches Some(w),
        r matches Some(v) ==> unsigned_value(s@) == Some(v as nat),
{
    let n = s.unicode_len();
    let mut i: usize = 0;
    if n > 0 && s.get_char(0) == '+' {
        i = 1;
    }
    let ghost start = i as int;
    let ghost d = unsigned_digits(s@);
    assert(d =~= s@.subrange(start, n as int));
    if i >= n {
        return None;
    }
    let mut v: usize = 0;
    while i < n
        invariant
            0 <= start <= 1,
            start <= i <= n,
            n == s@.len(),
            d == s@.subrange(start, n as int),
            d == unsigned_digits(s@),
            forall|k: int| start <= k < i ==> is_digit(#[trigger] s@[k]),
            v as nat == digits_value(s@.subrange(start, i as int)),
        decreases n - i,
    {
        let c = s.get_char(i);
        assert(s@.subrange(start, i + 1).drop_last() =~= s@.subrange(start, i as int));
        if !('0' <= c && c <= '9') {
            assert(d[i - start] == c);
            assert(!is_digit(d[i - start]));
            assert(!all_digits(d));
            return None;
        }
        let dv = (c as u32 - '0' as u32) as usize;
        if v > (usize::MAX - dv) / 10 {
            proof {
                let pre = s@.subrange(start, i as int);
                let nxt = s@.subrange(start, i + 1);
                assert(digits_value(nxt) == v * 10 + dv);
                assert(v * 10 + dv > usize::MAX) by (nonlinear_arith)
                    requires v > (usize::MAX - dv) / 10, dv <= 9;
                lemma_digits_value_prefix_le(d, i + 1 - start);
                assert(d.subrange(0, i + 1 - start) =~= nxt);
                assert(digits_value(d) > usize::MAX);
            }
            return None;
        }
        v = v * 10 + dv;
        i = i + 1;
    }
    assert(s@.subrange(start, n as int) =~= d);
    Some(v)
}

/// A run of digits is worth at least what any of its prefixes is worth.
proof fn lemma_digits_value_prefix_le(s: Seq<char>, k: int)
    requires
        0 <= k <= s.len(),
    ensures
        digits_value(s.subrange(0, k)) <= digits_value(s),
    decreases s.len() - k,
{
    if k < s.len() {
        lemma_digits_value_prefix_le(s, k + 1);
        assert(s.subrange(0, k + 1).drop_last() =~= s.subrange(0, k));
    } else {
        assert(s.subrange(0, k) =~= s);
    }
}


/// Whether two texts hold the same characters.
pub fn same_text(a: &str, b: &str) -> (r: bool)
    ensures
        r == (a@ == b@),
{
    let n = a.unicode_len();
    if n != b.unicode_len() {
        return false;
    }
    let mut i: usize = 0;
    while i < n
        invariant
            n == a@.len(),
            n == b@.len(),
            i <= n,
            forall|k: int| 0 <= k < i ==> a@[k] == b@[k],
        decreases n - i,
    {
        if a.get_char(i) != b.get_char(i) {
            return false;
        }
        i = i + 1;
    }
    assert(a@ =~= b@);
    true
}

} // verus!
