//! Text helpers of the extraction rules: whitespace trimming and digit
//! handling, specified character by character.

use vstd::prelude::*;

verus! {

/// String equality, decided through owned copies.
pub fn str_eq(a: &str, b: &str) -> (r: bool)
    ensures
        r == (a@ == b@),
{
    let left = a.to_owned();
    let right = b.to_owned();
    left == right
}

/// A whitespace character, as Unicode's White_Space property lists them.
pub open spec fn is_space(c: char) -> bool {
    ||| c == '\u{09}'
    ||| c == '\u{0A}'
    ||| c == '\u{0B}'
    ||| c == '\u{0C}'
    ||| c == '\u{0D}'
    ||| c == ' '
    ||| c == '\u{85}'
    ||| c == '\u{A0}'
    ||| c == '\u{1680}'
    ||| ('\u{2000}' <= c && c <= '\u{200A}')
    ||| c == '\u{2028}'
    ||| c == '\u{2029}'
    ||| c == '\u{202F}'
    ||| c == '\u{205F}'
    ||| c == '\u{3000}'
}

/// Decides [`is_space`].
pub fn is_space_char(c: char) -> (r: bool)
    ensures
        r == is_space(c),
{
    c == '\u{09}' || c == '\u{0A}' || c == '\u{0B}' || c == '\u{0C}' || c == '\u{0D}' || c == ' '
        || c == '\u{85}' || c == '\u{A0}' || c == '\u{1680}' || ('\u{2000}' <= c && c
        <= '\u{200A}') || c == '\u{2028}' || c == '\u{2029}' || c == '\u{202F}' || c == '\u{205F}'
        || c == '\u{3000}'
}

/// A decimal digit.
pub open spec fn is_digit(c: char) -> bool {
    '0' <= c && c <= '9'
}

/// Decides [`is_digit`].
pub fn is_digit_char(c: char) -> (r: bool)
    ensures
        r == is_digit(c),
{
    '0' <= c && c <= '9'
}

/// Index of the first non-space character at or after `i`, or the length
/// when only spaces follow.
pub open spec fn first_non_space(s: Seq<char>, i: int) -> int
    decreases s.len() - i,
{
    if i < 0 || i >= s.len() {
        s.len() as int
    } else if is_space(s[i]) {
        first_non_space(s, i + 1)
    } else {
        i
    }
}

/// Index of the last non-space character at or before `i`, or `-1` when
/// only spaces precede.
pub open spec fn last_non_space(s: Seq<char>, i: int) -> int
    decreases i + 1,
{
    if i < 0 || i >= s.len() {
        -1
    } else if is_space(s[i]) {
        last_non_space(s, i - 1)
    } else {
        i
    }
}

/// The string with leading and trailing whitespace removed.
pub open spec fn trimmed(s: Seq<char>) -> Seq<char> {
    let a = first_non_space(s, 0);
    let b = last_non_space(s, s.len() as int - 1);
    if a > b {
        Seq::empty()
    } else {
        s.subrange(a, b + 1)
    }
}

/// Everything before the first non-space character is a space, and the
/// index stays within `i ..= len`.
proof fn lemma_first_non_space(s: Seq<char>, i: int)
    requires
        0 <= i <= s.len(),
    ensures
        i <= first_non_space(s, i) <= s.len(),
        forall|k: int| i <= k < first_non_space(s, i) ==> is_space(#[trigger] s[k]),
        first_non_space(s, i) < s.len() ==> !is_space(s[first_non_space(s, i)]),
    decreases s.len() - i,
{
    if i < s.len() && is_space(s[i]) {
        lemma_first_non_space(s, i + 1);
    }
}

/// When every character up to `i` is a space, there is no last non-space.
proof fn lemma_last_non_space_all_spaces(s: Seq<char>, i: int)
    requires
        i < s.len(),
        forall|k: int| 0 <= k <= i ==> is_space(#[trigger] s[k]),
    ensures
        last_non_space(s, i) == -1,
    decreases i + 1,
{
    if i >= 0 {
        lemma_last_non_space_all_spaces(s, i - 1);
    }
}

/// Index of the first non-space character, or the length when the string
/// is all spaces.
fn first_non_space_idx(s: &str) -> (r: usize)
    ensures
        r == first_non_space(s@, 0),
{
    let n = s.unicode_len();
    let mut i: usize = 0;
    while i < n
        invariant
            0 <= i <= n,
            n == s@.len(),
            first_non_space(s@, 0) == first_non_space(s@, i as int),
        decreases n - i,
    {
        if !is_space_char(s.get_char(i)) {
            return i;
        }
        i += 1;
    }
    n
}

/// The string with leading and trailing whitespace removed.
pub fn trim_text<'a>(s: &'a str) -> (r: &'a str)
    ensures
        r@ == trimmed(s@),
{
    let n = s.unicode_len();
    let a = first_non_space_idx(s);
    proof {
        lemma_first_non_space(s@, 0);
    }
    let mut b: usize = n;
    while b > a && is_space_char(s.get_char(b - 1))
        invariant
            0 <= a <= b <= n,
            n == s@.len(),
            a == first_non_space(s@, 0),
            a < n ==> !is_space(s@[a as int]),
            a < n ==> b > a,
            last_non_space(s@, n as int - 1) == last_non_space(s@, b as int - 1),
        decreases b,
    {
        b -= 1;
    }
    proof {
        if a == n {
            if n > 0 {
                lemma_first_non_space(s@, 0);
                lemma_last_non_space_all_spaces(s@, n as int - 1);
            }
            assert(trimmed(s@) =~= Seq::<char>::empty());
        } else {
            assert(!is_space(s@[b as int - 1]));
            assert(last_non_space(s@, n as int - 1) == b - 1);
            assert(trimmed(s@) == s@.subrange(a as int, b as int));
        }
    }
    s.substring_char(a, b)
}

/// The digit predicate, as one shared closure value.
pub open spec fn digit_pred() -> spec_fn(char) -> bool {
    |c: char| is_digit(c)
}

/// The decimal digits of a string, in order, everything else discarded.
pub open spec fn digits_of(s: Seq<char>) -> Seq<char> {
    s.filter(digit_pred())
}

/// Collects the decimal digits of a string, in order, discarding currency
/// symbols, separators and any other character.
pub fn digit_chars(s: &str) -> (r: Vec<char>)
    ensures
        r@ == digits_of(s@),
{
    let n = s.unicode_len();
    let mut result: Vec<char> = Vec::new();
    let mut i: usize = 0;
    while i < n
        invariant
            0 <= i <= n,
            n == s@.len(),
            result@ =~= s@.take(i as int).filter(digit_pred()),
        decreases n - i,
    {
        proof {
            reveal(Seq::filter);
            assert(s@.take(i + 1 as int).drop_last() =~= s@.take(i as int));
            assert(s@.take(i + 1 as int).last() == s@[i as int]);
        }
        let c = s.get_char(i);
        if is_digit_char(c) {
            result.push(c);
        }
        proof {
            assert(result@ =~= s@.take(i + 1 as int).filter(digit_pred()));
        }
        i += 1;
    }
    proof {
        assert(s@.take(n as int) =~= s@);
    }
    result
}

/// Numeric value of one decimal digit.
pub open spec fn digit_val(c: char) -> int
    recommends
        is_digit(c),
{
    c as int - '0' as int
}

/// Numeric value of a digit string, most significant digit first.  An
/// empty string reads as zero.
pub open spec fn digits_val(s: Seq<char>) -> int
    decreases s.len(),
{
    if s.len() == 0 {
        0
    } else {
        digits_val(s.drop_last()) * 10 + digit_val(s.last())
    }
}

/// The value of a digit string is non-negative and never shrinks when
/// digits are appended.
proof fn lemma_digits_val_take_le(s: Seq<char>, j: int)
    requires
        forall|k: int| 0 <= k < s.len() ==> is_digit(#[trigger] s[k]),
        0 <= j <= s.len(),
    ensures
        0 <= digits_val(s.take(j)) <= digits_val(s),
        0 <= digits_val(s),
    decreases s.len(),
{
    if s.len() == 0 {
        assert(s.take(j) =~= s);
    } else {
        let rest = s.drop_last();
        lemma_digits_val_take_le(rest, if j <= rest.len() {
            j
        } else {
            rest.len() as int
        });
        if j <= rest.len() {
            assert(s.take(j) =~= rest.take(j));
        } else {
            assert(s.take(j) =~= s);
        }
    }
}

/// Parses a digit string as a non-negative integer, most significant digit
/// first; fails exactly when the value does not fit in a machine word.
pub fn parse_digits(digits: &Vec<char>) -> (r: Option<u64>)
    requires
        forall|k: int| 0 <= k < digits@.len() ==> is_digit(#[trigger] digits@[k]),
    ensures
        r is Some <==> digits_val(digits@) <= u64::MAX,
        r matches Some(v) ==> v == digits_val(digits@),
{
    let ghost s = digits@;
    let mut acc: u64 = 0;
    let mut i: usize = 0;
    while i < digits.len()
        invariant
            0 <= i <= digits.len(),
            s == digits@,
            forall|k: int| 0 <= k < s.len() ==> is_digit(#[trigger] s[k]),
            acc == digits_val(s.take(i as int)),
        decreases digits.len() - i,
    {
        proof {
            assert(s.take(i + 1 as int).drop_last() =~= s.take(i as int));
            assert(s.take(i + 1 as int).last() == s[i as int]);
            lemma_digits_val_take_le(s, i + 1 as int);
        }
        let c = digits[i];
        let d: u64 = (c as u32 - 48) as u64;
        let scaled = match acc.checked_mul(10) {
            Some(v) => v,
            None => {
                return None;
            },
        };
        let next = match scaled.checked_add(d) {
            Some(v) => v,
            None => {
                return None;
            },
        };
        acc = next;
        i += 1;
    }
    proof {
        assert(s.take(s.len() as int) =~= s);
    }
    Some(acc)
}

} // verus!
