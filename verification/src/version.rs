//! The version sequencer.
//!
//! A version token is the letter `v` followed by a non-empty run of decimal
//! digits, read as a natural number of any size. The sequencer hands out the
//! token of the next number, written without leading zeros.

use vstd::prelude::*;
use vstd::string::*;

verus! {

/// The version string handed in does not have the form `v<digits>`.
#[derive(Debug, Clone, Copy, PartialEq, Eq)]
pub struct MalformedVersion;

/// The ASCII code of the letter `v`.
const LETTER_V: u8 = 118;

/// The ASCII code of the digit `0`.
const DIGIT_0: u8 = 48;

/// The ASCII code of the digit `9`.
const DIGIT_9: u8 = 57;

/// `c` is one of `0` to `9`.
pub open spec fn is_digit(c: char) -> bool {
    '0' <= c <= '9'
}

/// The number that the digit `c` stands for.
pub open spec fn digit_value(c: char) -> nat {
    (c as int - '0' as int) as nat
}

/// The digit that stands for `d`, for `d < 10`.
pub open spec fn digit_char(d: nat) -> char {
    (d + '0' as nat) as char
}

/// All of `digits` are decimal digits.
pub open spec fn all_digits(digits: Seq<char>) -> bool {
    forall|i: int| 0 <= i < digits.len() ==> is_digit(#[trigger] digits[i])
}

/// The number that `digits` writes in base ten, most significant digit first.
pub open spec fn decimal_value(digits: Seq<char>) -> nat
    decreases digits.len(),
{
    if digits.len() == 0 {
        0
    } else {
        decimal_value(digits.drop_last()) * 10 + digit_value(digits.last())
    }
}

/// `n` written in base ten without leading zeros.
pub open spec fn decimal_digits(n: nat) -> Seq<char>
    decreases n,
{
    if n < 10 {
        seq![digit_char(n)]
    } else {
        decimal_digits(n / 10).push(digit_char(n % 10))
    }
}

/// `s` is a version token: `v` and at least one digit, nothing else.
pub open spec fn is_version(s: Seq<char>) -> bool {
    &&& s.len() >= 2
    &&& s[0] == 'v'
    &&& all_digits(s.subrange(1, s.len() as int))
}

/// The number carried by the version token `s`.
pub open spec fn version_number(s: Seq<char>) -> nat {
    decimal_value(s.subrange(1, s.len() as int))
}

/// The version token of `n`.
pub open spec fn version_text(n: nat) -> Seq<char> {
    seq!['v'] + decimal_digits(n)
}

/// What the sequencer answers: `v1` where there is no current version, the
/// token of the next number where the current one is a version token, and
/// nothing where it is not.
pub open spec fn next_version(current: Option<Seq<char>>) -> Option<Seq<char>> {
    match current {
        None => Some(version_text(1)),
        Some(s) => if is_version(s) {
            Some(version_text(version_number(s) + 1))
        } else {
            None
        },
    }
}

/// The digit string `t` after adding one at position `k`: the digits before
/// `k` stay, digit `k` is raised by one, and every later digit is `0`.
pub open spec fn bumped(t: Seq<char>, k: int) -> Seq<char> {
    Seq::new(
        t.len(),
        |i: int|
            if i < k {
                t[i]
            } else if i == k {
                digit_char(digit_value(t[k]) + 1)
            } else {
                '0'
            },
    )
}

/// `1` followed by `m` zeros.
pub open spec fn one_and_zeros(m: nat) -> Seq<char> {
    Seq::new(m + 1, |i: int| if i == 0 { '1' } else { '0' })
}

/// A leading zero does not change the number a digit string writes.
pub proof fn lemma_leading_zero(t: Seq<char>)
    requires
        t.len() > 0,
        t[0] == '0',
    ensures
        decimal_value(t) == decimal_value(t.subrange(1, t.len() as int)),
    decreases t.len(),
{
    let rest = t.subrange(1, t.len() as int);
    if t.len() == 1 {
        assert(t.drop_last().len() == 0);
        assert(decimal_value(t.drop_last()) == 0);
        assert(rest.len() == 0);
    } else {
        lemma_leading_zero(t.drop_last());
        assert(t.drop_last().subrange(1, t.len() - 1) =~= rest.drop_last());
        assert(rest.last() == t.last());
    }
}

/// A digit string that does not start with `0` writes a number of at least one.
pub proof fn lemma_value_positive(t: Seq<char>)
    requires
        all_digits(t),
        t.len() > 0,
        t[0] != '0',
    ensures
        decimal_value(t) >= 1,
    decreases t.len(),
{
    if t.len() == 1 {
        assert(t.drop_last().len() == 0);
        assert(decimal_value(t.drop_last()) == 0);
        assert(is_digit(t[0]));
    } else {
        assert(all_digits(t.drop_last())) by {
            assert forall|i: int| 0 <= i < t.drop_last().len() implies is_digit(
                #[trigger] t.drop_last()[i],
            ) by {
                assert(t.drop_last()[i] == t[i]);
            }
        }
        lemma_value_positive(t.drop_last());
    }
}

/// Writing a number and reading it back: a digit string without a leading
/// zero is the base-ten form of the number it writes.
pub proof fn lemma_canonical(t: Seq<char>)
    requires
        all_digits(t),
        t.len() > 0,
        t[0] != '0' || t.len() == 1,
    ensures
        decimal_digits(decimal_value(t)) == t,
    decreases t.len(),
{
    let init = t.drop_last();
    assert(is_digit(t.last()));
    let d = digit_value(t.last());
    assert(digit_char(d) == t.last());
    if t.len() == 1 {
        assert(init.len() == 0);
        assert(decimal_value(init) == 0);
        assert(decimal_value(t) == d);
        assert(decimal_digits(d) =~= t);
    } else {
        assert(all_digits(init)) by {
            assert forall|i: int| 0 <= i < init.len() implies is_digit(#[trigger] init[i]) by {
                assert(init[i] == t[i]);
            }
        }
        assert(init[0] == t[0]);
        lemma_value_positive(init);
        lemma_canonical(init);
        let n = decimal_value(t);
        assert(n == decimal_value(init) * 10 + d);
        assert(n >= 10);
        assert(n / 10 == decimal_value(init));
        assert(n % 10 == d);
        assert(decimal_digits(n) == decimal_digits(n / 10).push(digit_char(n % 10)));
        assert(init.push(t.last()) =~= t);
    }
}

/// Adding one with carry: where digit `k` is not `9` and every digit after it
/// is, `bumped(t, k)` writes the number after the one that `t` writes.
pub proof fn lemma_bumped(t: Seq<char>, k: int)
    requires
        all_digits(t),
        0 <= k < t.len(),
        t[k] != '9',
        forall|j: int| k < j < t.len() ==> t[j] == '9',
    ensures
        all_digits(bumped(t, k)),
        decimal_value(bumped(t, k)) == decimal_value(t) + 1,
    decreases t.len() - k,
{
    let b = bumped(t, k);
    assert(is_digit(t[k]));
    assert forall|i: int| 0 <= i < b.len() implies is_digit(#[trigger] b[i]) by {
        if i < k {
            assert(is_digit(t[i]));
        }
    }
    if k == t.len() - 1 {
        assert(b.drop_last() =~= t.drop_last());
    } else {
        let init = t.drop_last();
        assert(all_digits(init)) by {
            assert forall|i: int| 0 <= i < init.len() implies is_digit(#[trigger] init[i]) by {
                assert(init[i] == t[i]);
            }
        }
        lemma_bumped(init, k);
        assert(b.drop_last() =~= bumped(init, k));
        assert(t.last() == '9');
        assert(b.last() == '0');
    }
}

/// Adding one to a run of nines gives `1` and as many zeros.
pub proof fn lemma_all_nines(t: Seq<char>)
    requires
        forall|j: int| 0 <= j < t.len() ==> t[j] == '9',
    ensures
        all_digits(one_and_zeros(t.len())),
        decimal_value(one_and_zeros(t.len())) == decimal_value(t) + 1,
    decreases t.len(),
{
    let r = one_and_zeros(t.len());
    if t.len() == 0 {
        assert(r.drop_last().len() == 0);
        assert(decimal_value(r.drop_last()) == 0);
    } else {
        lemma_all_nines(t.drop_last());
        assert(r.drop_last() =~= one_and_zeros((t.len() - 1) as nat));
        assert(t.last() == '9');
        assert(r.last() == '0');
    }
}

/// Reading a number back from its base-ten form gives the number.
pub proof fn lemma_digits_value(n: nat)
    ensures
        decimal_digits(n).len() >= 1,
        all_digits(decimal_digits(n)),
        decimal_value(decimal_digits(n)) == n,
    decreases n,
{
    let t = decimal_digits(n);
    if n < 10 {
        assert(t.drop_last() =~= Seq::<char>::empty());
        assert(decimal_value(t.drop_last()) == 0);
        assert(t.last() == digit_char(n));
    } else {
        lemma_digits_value(n / 10);
        let init = decimal_digits(n / 10);
        assert(t.drop_last() =~= init);
        assert(t.last() == digit_char(n % 10));
        assert forall|i: int| 0 <= i < t.len() implies is_digit(#[trigger] t[i]) by {
            if i < init.len() {
                assert(t[i] == init[i]);
            }
        }
    }
}

/// What the sequencer hands out is a version token, and it counts: the
/// first token carries the number one, and every later token the number
/// after that of the token before it.
pub proof fn lemma_next_version_counts(current: Option<Seq<char>>)
    requires
        next_version(current) is Some,
    ensures
        is_version(next_version(current)->Some_0),
        version_number(next_version(current)->Some_0) == match current {
            Some(token) => version_number(token) + 1,
            None => 1,
        },
{
    let n: nat = match current {
        Some(token) => version_number(token) + 1,
        None => 1,
    };
    let next = version_text(n);
    assert(next_version(current) == Some(next));
    lemma_digits_value(n);
    assert(next.subrange(1, next.len() as int) =~= decimal_digits(n));
}

/// A version token holds ASCII characters only.
pub proof fn lemma_version_is_ascii(s: Seq<char>)
    requires
        is_version(s),
    ensures
        vstd::utf8::is_ascii_chars(s),
{
    assert forall|i: int| 0 <= i < s.len() implies '\0' <= #[trigger] s[i] <= '\u{7f}' by {
        if i > 0 {
            assert(is_digit(s.subrange(1, s.len() as int)[i - 1]));
        }
    }
}

/// The one-character text of the digit `d`.
fn digit_text(d: u8) -> (res: &'static str)
    requires
        d < 10,
    ensures
        res@ == seq![digit_char(d as nat)],
{
    proof {
        reveal_strlit("0");
        reveal_strlit("1");
        reveal_strlit("2");
        reveal_strlit("3");
        reveal_strlit("4");
        reveal_strlit("5");
        reveal_strlit("6");
        reveal_strlit("7");
        reveal_strlit("8");
        reveal_strlit("9");
    }
    let res = match d {
        0 => "0",
        1 => "1",
        2 => "2",
        3 => "3",
        4 => "4",
        5 => "5",
        6 => "6",
        7 => "7",
        8 => "8",
        _ => "9",
    };
    assert(res@ =~= seq![digit_char(d as nat)]);
    res
}

/// Whether `text` is a version token.
pub fn is_version_token(text: &str) -> (res: bool)
    ensures
        res == is_version(text@),
{
    if !text.is_ascii() {
        proof {
            if is_version(text@) {
                lemma_version_is_ascii(text@);
            }
        }
        return false;
    }
    let bytes = text.as_bytes();
    let n = bytes.len();
    proof {
        is_ascii_spec_bytes(text);
    }
    if n < 2 || bytes[0] != LETTER_V {
        return false;
    }
    assert(text@[0] == 'v');
    let mut i: usize = 1;
    while i < n
        invariant
            1 <= i <= n,
            n == text@.len(),
            n == bytes@.len(),
            is_ascii(text),
            bytes@ == text.spec_bytes(),
            text.spec_bytes() =~= Seq::new(text@.len(), |i: int| text@.index(i) as u8),
            forall|j: int| 1 <= j < i ==> is_digit(#[trigger] text@[j]),
        decreases n - i,
    {
        let b = bytes[i];
        assert(b == text@[i as int] as u8);
        if b < DIGIT_0 || b > DIGIT_9 {
            assert(!is_digit(text@[i as int]));
            assert(!is_digit(text@.subrange(1, text@.len() as int)[i - 1]));
            return false;
        }
        assert(is_digit(text@[i as int]));
        i += 1;
    }
    assert(all_digits(text@.subrange(1, text@.len() as int)));
    true
}

/// The token after the version token `text`.
fn next_token(text: &str) -> (res: String)
    requires
        is_version(text@),
    ensures
        res@ == version_text(version_number(text@) + 1),
{
    let bytes = text.as_bytes();
    let n = bytes.len();
    proof {
        lemma_version_is_ascii(text@);
        is_ascii_spec_bytes(text);
    }
    let ghost digits = text@.subrange(1, n as int);
    assert(forall|j: int| 1 <= j < n ==> text@[j] == #[trigger] digits[j - 1]);
    // Leading zeros carry no value; the last digit always stays.
    let mut first: usize = 1;
    while first < n - 1 && bytes[first] == DIGIT_0
        invariant
            1 <= first <= n - 1,
            n == text@.len(),
            n == bytes@.len(),
            is_ascii(text),
            bytes@ =~= Seq::new(text@.len(), |i: int| text@.index(i) as u8),
            decimal_value(digits) == decimal_value(text@.subrange(first as int, n as int)),
        decreases n - first,
    {
        proof {
            let t = text@.subrange(first as int, n as int);
            assert(bytes[first as int] == text@[first as int] as u8);
            assert(t[0] == '0');
            lemma_leading_zero(t);
            assert(t.subrange(1, t.len() as int) =~= text@.subrange(first + 1, n as int));
        }
        first += 1;
    }
    let ghost t = text@.subrange(first as int, n as int);
    assert(all_digits(t)) by {
        assert forall|i: int| 0 <= i < t.len() implies is_digit(#[trigger] t[i]) by {
            assert(t[i] == digits[first - 1 + i]);
        }
    }
    assert(bytes[first as int] == text@[first as int] as u8);
    assert(t[0] != '0' || t.len() == 1);
    // The digits that a carry runs through are the nines at the end.
    let mut k: usize = n;
    while k > first && bytes[k - 1] == DIGIT_9
        invariant
            first <= k <= n,
            n == text@.len(),
            n == bytes@.len(),
            is_ascii(text),
            bytes@ =~= Seq::new(text@.len(), |i: int| text@.index(i) as u8),
            forall|j: int| k <= j < n ==> text@[j] == '9',
        decreases k,
    {
        assert(bytes[k - 1] == text@[k - 1] as u8);
        k -= 1;
    }
    let mut out = String::from_str("v");
    proof {
        reveal_strlit("v");
    }
    let ghost r: Seq<char>;
    let zeros: usize = n - k;
    if k == first {
        proof {
            r = one_and_zeros(t.len());
            lemma_all_nines(t);
            assert(r[0] == '1');
        }
        out.append(digit_text(1));
        assert(out@ =~= seq!['v'] + r.subrange(0, 1));
    } else {
        proof {
            let kk = k - 1 - first;
            assert(bytes[k - 1] == text@[k - 1] as u8);
            assert(is_digit(t[kk]));
            r = bumped(t, kk);
            lemma_bumped(t, kk);
            assert(r[0] != '0' || r.len() == 1);
        }
        let mut j: usize = first;
        assert(out@ =~= seq!['v'] + r.subrange(0, 0));
        while j < k - 1
            invariant
                first <= j <= k - 1,
                k <= n,
                n == text@.len(),
                n == bytes@.len(),
                is_ascii(text),
                bytes@ =~= Seq::new(text@.len(), |i: int| text@.index(i) as u8),
                t == text@.subrange(first as int, n as int),
                all_digits(t),
                r == bumped(t, k - 1 - first),
                out@ == seq!['v'] + r.subrange(0, j - first),
            decreases k - j,
        {
            let b = bytes[j];
            assert(b == text@[j as int] as u8);
            assert(is_digit(t[j - first]));
            out.append(digit_text(b - DIGIT_0));
            assert(out@ =~= seq!['v'] + r.subrange(0, j + 1 - first));
            j += 1;
        }
        let b = bytes[k - 1];
        assert(b == text@[k - 1] as u8);
        assert(is_digit(t[k - 1 - first]));
        out.append(digit_text(b - DIGIT_0 + 1));
        assert(out@ =~= seq!['v'] + r.subrange(0, k - first));
    }
    let mut z: usize = 0;
    while z < zeros
        invariant
            z <= zeros,
            zeros == n - k,
            first <= k <= n,
            r.len() == (if k == first { n - first + 1 } else { n - first }),
            forall|i: int| r.len() - zeros <= i < r.len() ==> r[i] == '0',
            out@ == seq!['v'] + r.subrange(0, r.len() - zeros + z),
        decreases zeros - z,
    {
        out.append(digit_text(0));
        assert(out@ =~= seq!['v'] + r.subrange(0, r.len() - zeros + z + 1));
        z += 1;
    }
    proof {
        assert(r.subrange(0, r.len() as int) =~= r);
        lemma_canonical(r);
    }
    out
}

/// The text of an optional string.
pub open spec fn optional_text(s: Option<String>) -> Option<Seq<char>> {
    match s {
        Some(s) => Some(s@),
        None => None,
    }
}

/// The version that follows `version`.
///
/// Without a current version the answer is `v1`. A current version `v<N>`
/// gives `v<N+1>`, whatever the size of `N`; leading zeros of `N` are not
/// kept. Any other text is refused as malformed.
pub fn increment_version(version: Option<String>) -> (res: Result<String, MalformedVersion>)
    ensures
        match next_version(optional_text(version)) {
            Some(next) => res matches Ok(s) && s@ == next,
            None => res is Err,
        },
{
    match version {
        None => {
            let first = String::from_str("v1");
            proof {
                reveal_strlit("v1");
                assert(decimal_digits(1) =~= seq!['1']);
                assert(first@ =~= version_text(1));
            }
            Ok(first)
        },
        Some(current) => {
            if is_version_token(current.as_str()) {
                Ok(next_token(current.as_str()))
            } else {
                Err(MalformedVersion)
            }
        },
    }
}

} // verus!
