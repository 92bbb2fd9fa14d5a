//! Text as sequences of characters: trimming, searching, replacing and decimal numbers.

use vstd::prelude::*;
use vstd::string::*;

verus! {

/// The characters with Unicode's `White_Space` property.
pub open spec fn is_white(c: char) -> bool {
    ||| '\u{9}' <= c <= '\u{d}'
    ||| c == '\u{20}'
    ||| c == '\u{85}'
    ||| c == '\u{a0}'
    ||| c == '\u{1680}'
    ||| '\u{2000}' <= c <= '\u{200a}'
    ||| c == '\u{2028}'
    ||| c == '\u{2029}'
    ||| c == '\u{202f}'
    ||| c == '\u{205f}'
    ||| c == '\u{3000}'
}

/// `s` without its leading white space.
pub open spec fn trimmed_start(s: Seq<char>) -> Seq<char>
    decreases s.len(),
{
    if s.len() > 0 && is_white(s[0]) {
        trimmed_start(s.drop_first())
    } else {
        s
    }
}

/// `s` without its trailing white space.
pub open spec fn trimmed_end(s: Seq<char>) -> Seq<char>
    decreases s.len(),
{
    if s.len() > 0 && is_white(s.last()) {
        trimmed_end(s.drop_last())
    } else {
        s
    }
}

/// `s` without white space on either side.
pub open spec fn trimmed(s: Seq<char>) -> Seq<char> {
    trimmed_end(trimmed_start(s))
}

/// Is `c` white space?
pub fn white(c: char) -> (r: bool)
    ensures
        r == is_white(c),
{
    ('\u{9}' <= c && c <= '\u{d}') || c == '\u{20}' || c == '\u{85}' || c == '\u{a0}' || c
        == '\u{1680}' || ('\u{2000}' <= c && c <= '\u{200a}') || c == '\u{2028}' || c == '\u{2029}'
        || c == '\u{202f}' || c == '\u{205f}' || c == '\u{3000}'
}

/// The characters of `s`.
pub fn to_chars(s: &str) -> (v: Vec<char>)
    ensures
        v@ == s@,
{
    let mut v: Vec<char> = Vec::new();
    for c in it: s.chars()
        invariant
            it.seq() == s@,
            v@ == s@.take(it.index() as int),
    {
        v.push(c);
    }
    v
}

/// `trimmed_start` takes off the first characters, as many as are white.
proof fn lemma_trimmed_start_at(s: Seq<char>, n: int)
    requires
        0 <= n <= s.len(),
        forall|i: int| 0 <= i < n ==> is_white(#[trigger] s[i]),
        n < s.len() ==> !is_white(s[n]),
    ensures
        trimmed_start(s) == s.skip(n),
    decreases n,
{
    if n > 0 {
        assert(is_white(s[0]));
        let t = s.drop_first();
        assert forall|i: int| 0 <= i < n - 1 implies is_white(#[trigger] t[i]) by {
            assert(t[i] == s[i + 1]);
        }
        lemma_trimmed_start_at(t, n - 1);
        assert(t.skip(n - 1) =~= s.skip(n));
    } else {
        assert(s.skip(0) =~= s);
    }
}

/// `trimmed_end` takes off the last characters, as many as are white.
proof fn lemma_trimmed_end_at(s: Seq<char>, n: int)
    requires
        0 <= n <= s.len(),
        forall|i: int| n <= i < s.len() ==> is_white(#[trigger] s[i]),
        n > 0 ==> !is_white(s[n - 1]),
    ensures
        trimmed_end(s) == s.take(n),
    decreases s.len() - n,
{
    if n < s.len() {
        assert(is_white(s[s.len() - 1]));
        let t = s.drop_last();
        assert forall|i: int| n <= i < t.len() implies is_white(#[trigger] t[i]) by {
            assert(t[i] == s[i]);
        }
        lemma_trimmed_end_at(t, n);
        assert(t.take(n) =~= s.take(n));
    } else {
        assert(s.take(n) =~= s);
    }
}

/// `s` without white space on either side.
pub fn trim(s: &str) -> (r: &str)
    ensures
        r@ == trimmed(s@),
{
    let v = to_chars(s);
    let mut from: usize = 0;
    while from < v.len() && white(v[from])
        invariant
            v@ == s@,
            from <= v.len(),
            forall|i: int| 0 <= i < from ==> is_white(#[trigger] v@[i]),
        decreases v.len() - from,
    {
        from += 1;
    }
    let mut to: usize = v.len();
    while from < to && white(v[to - 1])
        invariant
            v@ == s@,
            from <= to <= v.len(),
            from < v.len() ==> !is_white(v@[from as int]),
            forall|i: int| to <= i < v.len() ==> is_white(#[trigger] v@[i]),
        decreases to,
    {
        to -= 1;
    }
    proof {
        lemma_trimmed_start_at(s@, from as int);
        let t = s@.skip(from as int);
        assert forall|i: int| to - from <= i < t.len() implies is_white(#[trigger] t[i]) by {
            assert(t[i] == v@[i + from]);
        }
        lemma_trimmed_end_at(t, to - from);
        assert(t.take(to - from) =~= s@.subrange(from as int, to as int));
    }
    s.substring_char(from, to)
}

/// Is `s` nothing but white space?
pub open spec fn is_blank(s: Seq<char>) -> bool {
    trimmed(s).len() == 0
}

/// Is `s` nothing but white space?
pub fn blank(s: &str) -> (r: bool)
    ensures
        r == is_blank(s@),
{
    trim(s).is_empty()
}

/// Are the two texts the same?
pub fn same(a: &str, b: &str) -> (r: bool)
    ensures
        r == (a@ == b@),
{
    let x = to_chars(a);
    let y = to_chars(b);
    if x.len() != y.len() {
        return false;
    }
    assert(x@.subrange(0, x@.len() as int) =~= x@);
    matches_at(&x, &y, 0)
}

/// Does `pat` stand in `s` at position `at`?
pub open spec fn stands_at(s: Seq<char>, pat: Seq<char>, at: int) -> bool {
    &&& 0 <= at
    &&& at + pat.len() <= s.len()
    &&& s.subrange(at, at + pat.len()) == pat
}

/// Does `pat` stand in `s` at position `at`?
fn matches_at(s: &Vec<char>, pat: &Vec<char>, at: usize) -> (r: bool)
    requires
        at <= s.len(),
    ensures
        r == stands_at(s@, pat@, at as int),
{
    if pat.len() > s.len() - at {
        return false;
    }
    let mut i: usize = 0;
    while i < pat.len()
        invariant
            i <= pat.len(),
            at + pat.len() <= s.len(),
            forall|j: int| 0 <= j < i ==> s@[at + j] == #[trigger] pat@[j],
        decreases pat.len() - i,
    {
        if s[at + i] != pat[i] {
            proof {
                assert(s@.subrange(at as int, at + pat@.len())[i as int] == s@[at + i]);
            }
            return false;
        }
        i += 1;
    }
    assert(s@.subrange(at as int, at + pat@.len()) =~= pat@);
    true
}

/// The first position in `s`, not before `from`, at which `pat` stands.
pub open spec fn position_from(s: Seq<char>, pat: Seq<char>, from: int) -> Option<int>
    decreases s.len() - from + 1,
{
    if from + pat.len() > s.len() {
        None
    } else if stands_at(s, pat, from) {
        Some(from)
    } else {
        position_from(s, pat, from + 1)
    }
}

/// The first position in `s`, not before `from`, at which `pat` stands.
fn find_from(s: &Vec<char>, pat: &Vec<char>, from: usize) -> (r: Option<usize>)
    requires
        from <= s.len(),
        pat.len() > 0,
    ensures
        match r {
            Some(i) => position_from(s@, pat@, from as int) == Some(i as int) && from <= i && i
                + pat.len() <= s.len(),
            None => position_from(s@, pat@, from as int) is None,
        },
{
    let mut i: usize = from;
    while pat.len() <= s.len() - i
        invariant
            from <= i <= s.len(),
            pat.len() > 0,
            position_from(s@, pat@, from as int) == position_from(s@, pat@, i as int),
        decreases s.len() - i,
    {
        if matches_at(s, pat, i) {
            return Some(i);
        }
        i += 1;
    }
    None
}

/// Does `pat` stand anywhere in `s`?
pub open spec fn contains(s: Seq<char>, pat: Seq<char>) -> bool {
    position_from(s, pat, 0) is Some
}

/// `s` with every occurrence of `pat` replaced by `by`, from left to right. A text that `by`
/// brings in is not searched again.
pub open spec fn replaced(s: Seq<char>, pat: Seq<char>, by: Seq<char>) -> Seq<char>
    decreases s.len(),
{
    if pat.len() == 0 || s.len() < pat.len() {
        s
    } else if stands_at(s, pat, 0) {
        by + replaced(s.skip(pat.len() as int), pat, by)
    } else {
        seq![s[0]] + replaced(s.drop_first(), pat, by)
    }
}

/// The part of a text before the next occurrence of `pat` is left as it is.
proof fn lemma_replaced_from(s: Seq<char>, pat: Seq<char>, by: Seq<char>, from: int)
    requires
        0 <= from <= s.len(),
        pat.len() > 0,
    ensures
        match position_from(s, pat, from) {
            Some(i) => {
                &&& from <= i
                &&& i + pat.len() <= s.len()
                &&& replaced(s.skip(from), pat, by) == s.subrange(from, i) + by + replaced(
                    s.skip(i + pat.len()),
                    pat,
                    by,
                )
            },
            None => replaced(s.skip(from), pat, by) == s.skip(from),
        },
    decreases s.len() - from,
{
    let t = s.skip(from);
    if from + pat.len() <= s.len() {
        assert(t.subrange(0, pat.len() as int) =~= s.subrange(from, from + pat.len()));
        if stands_at(s, pat, from) {
            assert(t.skip(pat.len() as int) =~= s.skip(from + pat.len()));
            assert(s.subrange(from, from) + by =~= by);
        } else {
            lemma_replaced_from(s, pat, by, from + 1);
            assert(t.drop_first() =~= s.skip(from + 1));
            match position_from(s, pat, from) {
                Some(i) => {
                    let rest = replaced(s.skip(i + pat.len()), pat, by);
                    assert(seq![t[0]] + (s.subrange(from + 1, i) + by + rest) =~= s.subrange(
                        from,
                        i,
                    ) + by + rest);
                },
                None => {
                    assert(seq![t[0]] + s.skip(from + 1) =~= t);
                },
            }
        }
    }
}

/// `s` with every occurrence of `pat` replaced by `by`.
pub fn replace(s: &str, pat: &str, by: &str) -> (r: String)
    requires
        pat@.len() > 0,
    ensures
        r@ == replaced(s@, pat@, by@),
{
    let v = to_chars(s);
    let p = to_chars(pat);
    let mut out = String::new();
    let mut from: usize = 0;
    proof {
        assert(s@.skip(0) =~= s@);
        assert(out@ + replaced(s@, pat@, by@) =~= replaced(s@, pat@, by@));
    }
    loop
        invariant
            v@ == s@,
            p@ == pat@,
            p.len() > 0,
            from <= v.len(),
            out@ + replaced(s@.skip(from as int), pat@, by@) == replaced(s@, pat@, by@),
        decreases v.len() - from,
    {
        proof {
            lemma_replaced_from(s@, pat@, by@, from as int);
        }
        match find_from(&v, &p, from) {
            Some(i) => {
                let ghost before = out@;
                out.append(s.substring_char(from, i));
                out.append(by);
                proof {
                    let rest = replaced(s@.skip(i + pat@.len()), pat@, by@);
                    assert(before + (s@.subrange(from as int, i as int) + by@ + rest) =~= (before
                        + s@.subrange(from as int, i as int)) + by@ + rest);
                }
                from = i + p.len();
            },
            None => {
                out.append(s.substring_char(from, v.len()));
                assert(s@.subrange(from as int, v@.len() as int) =~= s@.skip(from as int));
                return out;
            },
        }
    }
}

/// `c`, in lower case where it is an ASCII letter.
pub open spec fn ascii_lower(c: char) -> char {
    if 'A' <= c <= 'Z' {
        (c as u8 + 32) as char
    } else {
        c
    }
}

/// `s` with its ASCII letters in lower case.
pub open spec fn lowered(s: Seq<char>) -> Seq<char> {
    s.map_values(|c: char| ascii_lower(c))
}

/// `v` with its ASCII letters in lower case.
fn lower(v: &Vec<char>) -> (r: Vec<char>)
    ensures
        r@ == lowered(v@),
{
    let mut r: Vec<char> = Vec::new();
    let mut i: usize = 0;
    while i < v.len()
        invariant
            i <= v.len(),
            r@.len() == i,
            forall|j: int| 0 <= j < i ==> r@[j] == ascii_lower(#[trigger] v@[j]),
        decreases v.len() - i,
    {
        let c = v[i];
        if 'A' <= c && c <= 'Z' {
            r.push((c as u8 + 32) as char);
        } else {
            r.push(c);
        }
        i += 1;
    }
    assert(r@ =~= lowered(v@));
    r
}

/// The first position in `s`, not before `from`, at which `pat` stands, whatever the case of the
/// ASCII letters of `s`.
pub fn find_lowered(s: &str, pat: &str, from: usize) -> (r: Option<usize>)
    requires
        from <= s@.len(),
        pat@.len() > 0,
    ensures
        match r {
            Some(i) => position_from(lowered(s@), pat@, from as int) == Some(i as int) && from <= i
                && i + pat@.len() <= s@.len() <= usize::MAX,
            None => position_from(lowered(s@), pat@, from as int) is None,
        },
{
    find_from(&lower(&to_chars(s)), &to_chars(pat), from)
}

/// Does `s` begin with `pat`, whatever the case of the ASCII letters of `s`?
pub fn starts_lowered(s: &str, pat: &str) -> (r: bool)
    ensures
        r == stands_at(lowered(s@), pat@, 0),
{
    matches_at(&lower(&to_chars(s)), &to_chars(pat), 0)
}

/// Are the two texts the same, whatever the case of their ASCII letters?
pub fn same_lowered(a: &str, b: &str) -> (r: bool)
    ensures
        r == (lowered(a@) == lowered(b@)),
{
    let x = lower(&to_chars(a));
    let y = lower(&to_chars(b));
    if x.len() != y.len() {
        return false;
    }
    assert(x@.subrange(0, x@.len() as int) =~= x@);
    matches_at(&x, &y, 0)
}

/// Does `pat` stand anywhere in `s`?
pub fn has(s: &str, pat: &str) -> (r: bool)
    requires
        pat@.len() > 0,
    ensures
        r == contains(s@, pat@),
{
    find_from(&to_chars(s), &to_chars(pat), 0).is_some()
}

/// The character that stands for the digit `d`.
pub open spec fn digit_char(d: int) -> char {
    (48 + d) as char
}

/// The decimal digits of `n`.
pub open spec fn digits(n: nat) -> Seq<char>
    decreases n,
{
    if n < 10 {
        seq![digit_char(n as int)]
    } else {
        digits(n / 10).push(digit_char((n % 10) as int))
    }
}

/// `n` in decimal, with a minus sign where it is negative.
pub open spec fn decimal(n: int) -> Seq<char> {
    if n < 0 {
        seq!['-'] + digits((-n) as nat)
    } else {
        digits(n as nat)
    }
}

/// One decimal digit.
fn digit_text(d: u64) -> (r: &'static str)
    requires
        d < 10,
    ensures
        r@ == seq![digit_char(d as int)],
{
    proof {
        reveal_strlit("0");
        reveal_strlit("1");
        reveal_strlit("2");
        reveal_strlit("3");
        reveal_strlit("4");
        reveal_strlit("5");
        reveal_strlit("6");
        reveal_strlit("7");
        reveal_strlit("8");
        reveal_strlit("9");
    }
    let r = match d {
        0 => "0",
        1 => "1",
        2 => "2",
        3 => "3",
        4 => "4",
        5 => "5",
        6 => "6",
        7 => "7",
        8 => "8",
        _ => "9",
    };
    assert(r@ =~= seq![digit_char(d as int)]);
    r
}

/// The decimal digits of `n`.
fn natural_text(n: u64) -> (r: String)
    ensures
        r@ == digits(n as nat),
    decreases n,
{
    if n < 10 {
        digit_text(n).to_owned()
    } else {
        let mut r = natural_text(n / 10);
        let ghost before = r@;
        r.append(digit_text(n % 10));
        assert(before + seq![digit_char((n % 10) as int)] =~= before.push(
            digit_char((n % 10) as int),
        ));
        r
    }
}

/// `n` in decimal.
pub fn decimal_text(n: i64) -> (r: String)
    ensures
        r@ == decimal(n as int),
{
    if n < 0 {
        let size: u64 = if n == i64::MIN {
            9223372036854775808
        } else {
            (-n) as u64
        };
        proof {
            reveal_strlit("-");
        }
        let r = "-".to_owned().concat(natural_text(size).as_str());
        assert("-"@ =~= seq!['-']);
        r
    } else {
        natural_text(n as u64)
    }
}

/// Is `c` a decimal digit?
pub open spec fn is_digit(c: char) -> bool {
    '0' <= c <= '9'
}

/// The number that a row of decimal digits stands for.
pub open spec fn digits_value(s: Seq<char>) -> int
    decreases s.len(),
{
    if s.len() == 0 {
        0
    } else {
        digits_value(s.drop_last()) * 10 + (s.last() as int - 48)
    }
}

/// The number that `s` stands for, where it is a row of one or more decimal digits.
pub open spec fn natural_of(s: Seq<char>) -> Option<int> {
    if s.len() > 0 && (forall|i: int| 0 <= i < s.len() ==> is_digit(#[trigger] s[i])) {
        Some(digits_value(s))
    } else {
        None
    }
}

/// The number that `s` stands for: decimal digits, after a sign or none.
pub open spec fn integer_of(s: Seq<char>) -> Option<int> {
    if s.len() > 0 && s[0] == '-' {
        match natural_of(s.drop_first()) {
            Some(n) => Some(-n),
            None => None,
        }
    } else if s.len() > 0 && s[0] == '+' {
        natural_of(s.drop_first())
    } else {
        natural_of(s)
    }
}

/// The `i64` that `s` is, as decimal digits after a sign or none.
pub open spec fn i64_of(s: Seq<char>) -> Option<i64> {
    match integer_of(s) {
        Some(n) => if i64::MIN <= n <= i64::MAX {
            Some(n as i64)
        } else {
            None
        },
        None => None,
    }
}

/// The `u32` that `s` is, as decimal digits after a plus sign or none.
pub open spec fn u32_of(s: Seq<char>) -> Option<u32> {
    let n = if s.len() > 0 && s[0] == '+' {
        natural_of(s.drop_first())
    } else {
        natural_of(s)
    };
    match n {
        Some(n) => if n <= u32::MAX {
            Some(n as u32)
        } else {
            None
        },
        None => None,
    }
}

/// A number that is larger than every machine integer read here.
pub const BEYOND: u128 = 100000000000000000000;

/// The number that the characters of `v` from `from` on stand for. Numbers from `BEYOND` on come
/// back as some number from `BEYOND` on.
fn natural_from(v: &Vec<char>, from: usize) -> (r: Option<u128>)
    requires
        from <= v.len(),
    ensures
        match r {
            Some(n) => {
                let whole = natural_of(v@.skip(from as int));
                &&& whole is Some
                &&& n < BEYOND ==> whole == Some(n as int)
                &&& n >= BEYOND ==> whole->0 >= BEYOND
            },
            None => natural_of(v@.skip(from as int)) is None,
        },
{
    let ghost s = v@.skip(from as int);
    if from == v.len() {
        return None;
    }
    let mut n: u128 = 0;
    let mut i: usize = from;
    while i < v.len()
        invariant
            from <= i <= v.len(),
            s == v@.skip(from as int),
            forall|j: int| 0 <= j < i - from ==> is_digit(#[trigger] s[j]),
            n < 10 * BEYOND,
            n < BEYOND ==> digits_value(s.take(i - from)) == n,
            n >= BEYOND ==> digits_value(s.take(i - from)) >= BEYOND,
        decreases v.len() - i,
    {
        let c = v[i];
        assert(c == s[i - from]);
        if c < '0' || '9' < c {
            return None;
        }
        proof {
            let t = s.take(i - from + 1);
            assert(t.drop_last() =~= s.take(i - from));
            assert(t.last() == c);
        }
        if n < BEYOND {
            n = n * 10 + (c as u32 - 48) as u128;
        }
        i += 1;
    }
    assert(s.take(s.len() as int) =~= s);
    Some(n)
}

/// The `i64` that `s` is, if it is one.
pub fn read_i64(s: &str) -> (r: Option<i64>)
    ensures
        r == i64_of(s@),
{
    let v = to_chars(s);
    if v.len() == 0 {
        return None;
    }
    let negative = v[0] == '-';
    let from: usize = if negative || v[0] == '+' {
        1
    } else {
        0
    };
    proof {
        assert(s@.skip(1) =~= s@.drop_first());
        assert(s@.skip(0) =~= s@);
    }
    match natural_from(&v, from) {
        Some(n) => {
            if negative {
                if n <= 9223372036854775807 {
                    Some(-(n as i64))
                } else if n == 9223372036854775808 {
                    Some(i64::MIN)
                } else {
                    None
                }
            } else if n <= 9223372036854775807 {
                Some(n as i64)
            } else {
                None
            }
        },
        None => None,
    }
}

/// The `u32` that `s` is, if it is one.
pub fn read_u32(s: &str) -> (r: Option<u32>)
    ensures
        r == u32_of(s@),
{
    let v = to_chars(s);
    if v.len() == 0 {
        return None;
    }
    let from: usize = if v[0] == '+' {
        1
    } else {
        0
    };
    proof {
        assert(s@.skip(1) =~= s@.drop_first());
        assert(s@.skip(0) =~= s@);
    }
    match natural_from(&v, from) {
        Some(n) => if n <= 4294967295 {
            Some(n as u32)
        } else {
            None
        },
        None => None,
    }
}

} // verus!
