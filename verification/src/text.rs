//! Verified text helpers: character-exact string comparison, prefix
//! tests, and decimal rendering and reading of machine integers.
//!
//! Contracts speak of `Seq<char>` views, so callers can reason about
//! wire messages and parsed numbers character by character.
use vstd::prelude::*;
use vstd::string::StrSliceExecFns;
use vstd::string::StringExecFns;

verus! {

/// The decimal digits of `n`, most significant first.
pub open spec fn dec_str(n: nat) -> Seq<char>
    decreases n,
{
    if n < 10 {
        seq![digit_char(n)]
    } else {
        dec_str(n / 10).push(digit_char(n % 10))
    }
}

/// The character for one decimal digit.
pub open spec fn digit_char(d: nat) -> char {
    if d == 0 {
        '0'
    } else if d == 1 {
        '1'
    } else if d == 2 {
        '2'
    } else if d == 3 {
        '3'
    } else if d == 4 {
        '4'
    } else if d == 5 {
        '5'
    } else if d == 6 {
        '6'
    } else if d == 7 {
        '7'
    } else if d == 8 {
        '8'
    } else {
        '9'
    }
}

/// A decimal rendering is at least one character, all of them
/// digits.
pub proof fn lemma_dec_str_digits(n: nat)
    ensures
        dec_str(n).len() >= 1,
        all_digits(dec_str(n)),
    decreases n,
{
    if n < 10 {
    } else {
        lemma_dec_str_digits(n / 10);
        assert forall|i: int| 0 <= i < dec_str(n).len() implies is_digit(
            #[trigger] dec_str(n)[i],
        ) by {
            if i < dec_str(n / 10).len() {
                assert(dec_str(n)[i] == dec_str(n / 10)[i]);
            }
        }
    }
}

/// A digit's character stands for its value.
proof fn lemma_digit_char_val(d: nat)
    requires
        d < 10,
    ensures
        digit_char(d) as u32 == 48 + d,
{
}

/// A decimal rendering reads back as its value.
pub proof fn lemma_dec_str_val(n: nat)
    ensures
        digits_val(dec_str(n)) == n,
    decreases n,
{
    if n < 10 {
        lemma_digit_char_val(n);
        assert(dec_str(n).drop_last() =~= Seq::<char>::empty());
        assert(digits_val(Seq::<char>::empty()) == 0);
        assert(dec_str(n).last() == digit_char(n));
    } else {
        lemma_dec_str_val(n / 10);
        lemma_digit_char_val(n % 10);
        assert(dec_str(n).drop_last() =~= dec_str(n / 10));
        assert(dec_str(n).last() == digit_char(n % 10));
    }
}

/// The decimal rendering of a signed integer, with a leading minus
/// sign when it is negative.
pub open spec fn int_str(i: int) -> Seq<char> {
    if i >= 0 {
        dec_str(i as nat)
    } else {
        seq!['-'] + dec_str((-i) as nat)
    }
}

/// One decimal digit as a string slice.
fn digit_str(d: u64) -> (r: &'static str)
    requires
        d < 10,
    ensures
        r@ == seq![digit_char(d as nat)],
{
    proof {
        reveal_strlit("0");
        reveal_strlit("1");
        reveal_strlit("2");
        reveal_strlit("3");
        reveal_strlit("4");
        reveal_strlit("5");
        reveal_strlit("6");
        reveal_strlit("7");
        reveal_strlit("8");
        reveal_strlit("9");
    }
    match d {
        0 => "0",
        1 => "1",
        2 => "2",
        3 => "3",
        4 => "4",
        5 => "5",
        6 => "6",
        7 => "7",
        8 => "8",
        _ => "9",
    }
}

/// Decimal rendering of an unsigned integer.
pub fn u64_to_string(n: u64) -> (r: String)
    ensures
        r@ == dec_str(n as nat),
    decreases n,
{
    if n < 10 {
        String::from_str(digit_str(n))
    } else {
        let high = u64_to_string(n / 10);
        let r = high.concat(digit_str(n % 10));
        proof {
            assert(r@ =~= dec_str(n as nat));
        }
        r
    }
}

/// Decimal rendering of a signed integer.
pub fn i64_to_string(n: i64) -> (r: String)
    ensures
        r@ == int_str(n as int),
{
    if n >= 0 {
        u64_to_string(n as u64)
    } else {
        let mag: u64 = if n == i64::MIN {
            9223372036854775808u64
        } else {
            (-n) as u64
        };
        proof {
            reveal_strlit("-");
        }
        let r = String::from_str("-").concat(u64_to_string(mag).as_str());
        proof {
            assert(r@ =~= int_str(n as int));
        }
        r
    }
}

/// Decimal rendering of a 32-bit signed integer.
pub fn i32_to_string(n: i32) -> (r: String)
    ensures
        r@ == int_str(n as int),
{
    i64_to_string(n as i64)
}

/// Character-exact equality of two string slices.
pub fn str_eq(a: &str, b: &str) -> (r: bool)
    ensures
        r == (a@ == b@),
{
    let la = a.unicode_len();
    let lb = b.unicode_len();
    if la != lb {
        return false;
    }
    let mut i: usize = 0;
    while i < la
        invariant
            la == a@.len(),
            lb == b@.len(),
            la == lb,
            i <= la,
            forall|j: int| 0 <= j < i ==> a@[j] == b@[j],
        decreases la - i,
    {
        if a.get_char(i) != b.get_char(i) {
            return false;
        }
        i += 1;
    }
    proof {
        assert(a@ =~= b@);
    }
    true
}

/// Whether `c` is a decimal digit.
pub open spec fn is_digit(c: char) -> bool {
    48 <= c as u32 <= 57
}

/// Whether every character of `s` is a decimal digit.
pub open spec fn all_digits(s: Seq<char>) -> bool {
    forall|i: int| 0 <= i < s.len() ==> is_digit(#[trigger] s[i])
}

/// The value of a digit string, read most significant first.
pub open spec fn digits_val(s: Seq<char>) -> int
    decreases s.len(),
{
    if s.len() == 0 {
        0
    } else {
        digits_val(s.drop_last()) * 10 + (s.last() as u32 - 48)
    }
}

/// A digit string's value is never negative.
proof fn lemma_digits_val_nonneg(s: Seq<char>)
    requires
        all_digits(s),
    ensures
        digits_val(s) >= 0,
    decreases s.len(),
{
    if s.len() > 0 {
        assert(all_digits(s.drop_last()));
        lemma_digits_val_nonneg(s.drop_last());
    }
}

/// Dropping trailing digits never increases the value.
proof fn lemma_digits_val_take(s: Seq<char>, k: int)
    requires
        all_digits(s),
        0 <= k <= s.len(),
    ensures
        digits_val(s) >= digits_val(s.take(k)),
    decreases s.len() - k,
{
    lemma_digits_val_nonneg(s.take(k));
    if k < s.len() {
        lemma_digits_val_take(s, k + 1);
        assert(s.take(k + 1).drop_last() =~= s.take(k));
        assert(digits_val(s.take(k + 1)) == digits_val(s.take(k)) * 10 + (s[k] as u32 - 48));
    } else {
        assert(s.take(k) =~= s);
    }
}

/// What `str::parse::<i32>` accepts: an optional sign, then at least
/// one digit, valuing inside the 32-bit signed range.
pub open spec fn parse_i32_spec(s: Seq<char>) -> Option<i32> {
    let signed = s.len() > 0 && (s[0] == '+' || s[0] == '-');
    let body = if signed {
        s.drop_first()
    } else {
        s
    };
    let neg = s.len() > 0 && s[0] == '-';
    if body.len() == 0 || !all_digits(body) {
        None
    } else {
        let v = if neg {
            -digits_val(body)
        } else {
            digits_val(body)
        };
        if i32::MIN <= v <= i32::MAX {
            Some(v as i32)
        } else {
            None
        }
    }
}

/// Read a 32-bit signed integer from its decimal rendering, as
/// `str::parse::<i32>` reads it.
pub fn parse_i32(s: &str) -> (r: Option<i32>)
    ensures
        r == parse_i32_spec(s@),
{
    let len = s.unicode_len();
    if len == 0 {
        return None;
    }
    let c0 = s.get_char(0);
    let signed = c0 == '+' || c0 == '-';
    let neg = c0 == '-';
    let start: usize = if signed {
        1
    } else {
        0
    };
    let ghost body = if signed {
        s@.drop_first()
    } else {
        s@
    };
    if start == len {
        return None;
    }
    let mut acc: i64 = 0;
    let mut i: usize = start;
    while i < len
        invariant
            len == s@.len(),
            start <= i <= len,
            start == if signed { 1int } else { 0int },
            body == if signed { s@.drop_first() } else { s@ },
            body.len() == len - start,
            signed ==> (s@[0] == '+' || s@[0] == '-'),
            !signed ==> s@.len() > 0 && s@[0] != '+' && s@[0] != '-',
            neg == (s@[0] == '-'),
            forall|j: int| 0 <= j < i - start ==> is_digit(#[trigger] body[j]),
            0 <= acc <= 2147483648i64,
            acc == digits_val(body.take(i - start)),
        decreases len - i,
    {
        let c = s.get_char(i);
        let cv = c as u32;
        if cv < 48 || cv > 57 {
            assert(body[i - start] == s@[i as int]);
            assert(!all_digits(body));
            return None;
        }
        proof {
            assert(body[i - start] == s@[i as int]);
            assert(body.take(i + 1 - start).drop_last() =~= body.take(i - start));
        }
        let d = (cv - 48) as i64;
        acc = acc * 10 + d;
        i += 1;
        if acc > 2147483648i64 {
            proof {
                if all_digits(body) {
                    lemma_digits_val_take(body, i - start);
                }
            }
            return None;
        }
    }
    proof {
        assert(body.take(len - start) =~= body);
        assert(all_digits(body));
    }
    if neg {
        if acc == 2147483648i64 {
            Some(i32::MIN)
        } else {
            Some((-acc) as i32)
        }
    } else {
        if acc > 2147483647i64 {
            None
        } else {
            Some(acc as i32)
        }
    }
}

/// `s` with every occurrence of the prefix `p` removed from the front,
/// one after the other.
pub open spec fn strip_prefix_rep_spec(s: Seq<char>, p: Seq<char>) -> Seq<char>
    decreases s.len(),
{
    if p.len() > 0 && starts_with(s, p) {
        strip_prefix_rep_spec(s.skip(p.len() as int), p)
    } else {
        s
    }
}

/// `s` with every trailing occurrence of `c` removed.
pub open spec fn strip_trailing_spec(s: Seq<char>, c: char) -> Seq<char>
    decreases s.len(),
{
    if s.len() > 0 && s.last() == c {
        strip_trailing_spec(s.drop_last(), c)
    } else {
        s
    }
}

/// Remove the prefix `p` from `s` as often as it occurs, as
/// `str::trim_start_matches` does.
pub fn strip_prefix_rep<'a>(s: &'a str, p: &str) -> (r: &'a str)
    ensures
        r@ == strip_prefix_rep_spec(s@, p@),
{
    let lp = p.unicode_len();
    let mut cur: &'a str = s;
    if lp == 0 {
        return cur;
    }
    while str_starts_with(cur, p)
        invariant
            lp == p@.len(),
            lp > 0,
            strip_prefix_rep_spec(s@, p@) == strip_prefix_rep_spec(cur@, p@),
        decreases cur@.len(),
    {
        let lc = cur.unicode_len();
        cur = cur.substring_char(lp, lc);
    }
    cur
}

/// Remove every trailing `']'` from `s`, as `str::trim_end_matches`
/// does with that pattern.
pub fn strip_trailing_brackets<'a>(s: &'a str) -> (r: &'a str)
    ensures
        r@ == strip_trailing_spec(s@, ']'),
{
    let len = s.unicode_len();
    let mut e: usize = len;
    proof {
        assert(s@.take(len as int) =~= s@);
    }
    while e > 0 && s.get_char(e - 1) == ']'
        invariant
            len == s@.len(),
            e <= len,
            strip_trailing_spec(s@, ']') == strip_trailing_spec(s@.take(e as int), ']'),
        decreases e,
    {
        proof {
            assert(s@.take(e as int).last() == s@[e - 1]);
            assert(s@.take(e as int).drop_last() =~= s@.take(e - 1));
        }
        e -= 1;
    }
    let r = s.substring_char(0, e);
    proof {
        assert(r@ =~= s@.take(e as int));
    }
    r
}

/// Whether `s` begins with the characters of `p`.
pub open spec fn starts_with(s: Seq<char>, p: Seq<char>) -> bool {
    s.len() >= p.len() && s.subrange(0, p.len() as int) == p
}

/// Character-exact prefix test.
pub fn str_starts_with(s: &str, p: &str) -> (r: bool)
    ensures
        r == starts_with(s@, p@),
{
    let ls = s.unicode_len();
    let lp = p.unicode_len();
    if ls < lp {
        assert(!starts_with(s@, p@));
        return false;
    }
    let mut i: usize = 0;
    while i < lp
        invariant
            ls == s@.len(),
            lp == p@.len(),
            lp <= ls,
            i <= lp,
            forall|j: int| 0 <= j < i ==> s@[j] == p@[j],
        decreases lp - i,
    {
        if s.get_char(i) != p.get_char(i) {
            assert(s@.subrange(0, p@.len() as int)[i as int] == s@[i as int]);
            return false;
        }
        i += 1;
    }
    proof {
        assert(s@.subrange(0, p@.len() as int) =~= p@);
    }
    true
}

} // verus!
