//! Text as sequences of characters: decimal numbers, the order of keys, and
//! padding to a width.

use vstd::prelude::*;
use vstd::string::*;

verus! {

/// Whether `c` is one of the ten ASCII digits.
pub open spec fn is_digit(c: char) -> bool {
    '0' <= c <= '9'
}

/// The number that an ASCII digit stands for.
pub open spec fn digit_value(c: char) -> int {
    c as int - 48
}

/// The character for a number below ten.
pub open spec fn digit_char(d: int) -> char {
    (d + 48) as char
}

/// Whether every character of `s` is an ASCII digit.
pub open spec fn all_digits(s: Seq<char>) -> bool {
    forall|i: int| 0 <= i < s.len() ==> is_digit(#[trigger] s[i])
}

/// The number that a sequence of digits denotes in base ten.
pub open spec fn digits_value(s: Seq<char>) -> int
    decreases s.len(),
{
    if s.len() == 0 {
        0
    } else {
        digits_value(s.drop_last()) * 10 + digit_value(s.last())
    }
}

/// The digits of a number read as text: what is left once one leading `+`,
/// if there is one, is taken off.
pub open spec fn unsigned_digits(s: Seq<char>) -> Seq<char> {
    if s.len() > 0 && s[0] == '+' {
        s.subrange(1, s.len() as int)
    } else {
        s
    }
}

/// The number that the digits `s` denote: at least one digit and nothing
/// else, with a value that fits in 32 bits.
pub open spec fn parse_digits(s: Seq<char>) -> Option<u32> {
    if s.len() > 0 && all_digits(s) && digits_value(s) <= u32::MAX {
        Some(digits_value(s) as u32)
    } else {
        None
    }
}

/// The number that `s` denotes: an optional `+`, then digits as
/// `parse_digits` reads them.
pub open spec fn parse_u32(s: Seq<char>) -> Option<u32> {
    parse_digits(unsigned_digits(s))
}

/// A number in base ten, without sign or leading zeros.
pub open spec fn decimal(n: nat) -> Seq<char>
    decreases n,
{
    if n < 10 {
        seq![digit_char(n as int)]
    } else {
        decimal(n / 10).push(digit_char((n % 10) as int))
    }
}

/// A sequence of digits is worth at least as much as what it begins with.
pub proof fn lemma_digits_value_prefix(s: Seq<char>, k: int)
    requires
        all_digits(s),
        0 <= k <= s.len(),
    ensures
        0 <= digits_value(s.subrange(0, k)) <= digits_value(s),
    decreases s.len() - k,
{
    if k == s.len() {
        assert(s.subrange(0, k) =~= s);
        lemma_digits_value_nonnegative(s);
    } else {
        lemma_digits_value_prefix(s, k + 1);
        let longer = s.subrange(0, k + 1);
        assert(longer.drop_last() =~= s.subrange(0, k));
        assert(is_digit(s[k]));
        assert(longer.last() == s[k]);
        lemma_digits_value_nonnegative(s.subrange(0, k));
    }
}

/// A sequence of digits denotes no negative number.
pub proof fn lemma_digits_value_nonnegative(s: Seq<char>)
    requires
        all_digits(s),
    ensures
        0 <= digits_value(s),
    decreases s.len(),
{
    if s.len() > 0 {
        lemma_digits_value_nonnegative(s.drop_last());
        assert(is_digit(s[s.len() - 1]));
    }
}

/// Reading back the base-ten text of a number gives the number.
pub proof fn lemma_decimal_round_trip(n: nat)
    ensures
        decimal(n).len() > 0,
        all_digits(decimal(n)),
        digits_value(decimal(n)) == n,
        decimal(n)[0] != '+',
    decreases n,
{
    if n < 10 {
        let s = decimal(n);
        assert(s.drop_last() =~= Seq::<char>::empty());
        assert(digits_value(s.drop_last()) == 0);
    } else {
        lemma_decimal_round_trip(n / 10);
        let s = decimal(n);
        assert(s.drop_last() =~= decimal(n / 10));
    }
}

/// A number within 32 bits is what its base-ten text parses to.
pub proof fn lemma_parse_decimal(n: u32)
    ensures
        parse_u32(decimal(n as nat)) == Some(n),
        parse_digits(decimal(n as nat)) == Some(n),
{
    lemma_decimal_round_trip(n as nat);
}

/// Reads a number in base ten, as `parse_u32` defines it.
pub fn parse_decimal(text: &str) -> (value: Option<u32>)
    ensures
        value == parse_u32(text@),
{
    if !text.is_ascii() {
        proof {
            let s = text@;
            let i = choose|i: int| 0 <= i < s.len() && !('\0' <= #[trigger] s[i] <= '\u{7f}');
            let digits = unsigned_digits(s);
            if s[0] == '+' {
                assert(i > 0);
                assert(digits[i - 1] == s[i]);
                assert(!is_digit(digits[i - 1]));
            } else {
                assert(!is_digit(digits[i]));
            }
        }
        return None;
    }
    let len = text.unicode_len();
    let first: usize = if len > 0 && text.get_ascii(0) == 43u8 {
        1
    } else {
        0
    };
    if first >= len {
        return None;
    }
    let ghost digits = unsigned_digits(text@);
    let mut at: usize = first;
    let mut total: u64 = 0;
    while at < len
        invariant
            text.is_ascii(),
            len == text@.len(),
            first <= at <= len,
            first <= 1,
            digits == unsigned_digits(text@),
            digits.len() == len - first,
            forall|j: int| 0 <= j < digits.len() ==> digits[j] == text@[j + first],
            all_digits(digits.subrange(0, at - first)),
            total == digits_value(digits.subrange(0, at - first)),
            total <= u32::MAX,
        decreases len - at,
    {
        let byte = text.get_ascii(at);
        if byte < 48u8 || byte > 57u8 {
            assert(!is_digit(digits[at - first]));
            return None;
        }
        let ghost longer = digits.subrange(0, at - first + 1);
        proof {
            assert(longer.drop_last() =~= digits.subrange(0, at - first));
            assert(longer.last() == text@[at as int]);
            assert forall|j: int| 0 <= j < longer.len() implies is_digit(#[trigger] longer[j]) by {
                if j < at - first {
                    assert(longer[j] == digits.subrange(0, at - first)[j]);
                }
            }
        }
        total = total * 10 + (byte - 48u8) as u64;
        if total > u32::MAX as u64 {
            proof {
                if all_digits(digits) {
                    lemma_digits_value_prefix(digits, at - first + 1);
                }
            }
            return None;
        }
        at = at + 1;
    }
    proof {
        assert(digits.subrange(0, at - first) =~= digits);
    }
    Some(total as u32)
}

/// Reads a number in base ten that is written with digits alone.
pub fn parse_unsigned(text: &str) -> (value: Option<u32>)
    ensures
        value == parse_digits(text@),
{
    if text.unicode_len() > 0 && text.get_char(0) == '+' {
        assert(!is_digit(text@[0]));
        return None;
    }
    parse_decimal(text)
}

/// The text of one digit.
pub(crate) fn digit_str(d: u32) -> (s: &'static str)
    requires
        d < 10,
    ensures
        s@ == seq![digit_char(d as int)],
{
    proof {
        reveal_strlit("0");
        reveal_strlit("1");
        reveal_strlit("2");
        reveal_strlit("3");
        reveal_strlit("4");
        reveal_strlit("5");
        reveal_strlit("6");
        reveal_strlit("7");
        reveal_strlit("8");
        reveal_strlit("9");
    }
    let s = if d == 0 {
        "0"
    } else if d == 1 {
        "1"
    } else if d == 2 {
        "2"
    } else if d == 3 {
        "3"
    } else if d == 4 {
        "4"
    } else if d == 5 {
        "5"
    } else if d == 6 {
        "6"
    } else if d == 7 {
        "7"
    } else if d == 8 {
        "8"
    } else {
        "9"
    };
    assert(s@ =~= seq![digit_char(d as int)]);
    s
}

/// Writes a number in base ten.
pub fn decimal_string(n: u128) -> (s: String)
    ensures
        s@ == decimal(n as nat),
    decreases n,
{
    if n < 10 {
        digit_str(n as u32).to_owned()
    } else {
        let mut s = decimal_string(n / 10);
        s.append(digit_str((n % 10) as u32));
        s
    }
}

/// `count` copies of `fill`.
pub open spec fn repeat(fill: char, count: nat) -> Seq<char> {
    Seq::new(count, |i: int| fill)
}

/// `s` with copies of `fill` put in front until it is `width` long; `s`
/// itself where it is that long already.
pub open spec fn pad_left(s: Seq<char>, width: nat, fill: char) -> Seq<char> {
    if s.len() >= width {
        s
    } else {
        repeat(fill, (width - s.len()) as nat) + s
    }
}

/// Pads `text` on the left with spaces (`zeros` false) or zeros (`zeros`
/// true) to `width` characters.
pub fn padded(text: &str, width: usize, zeros: bool) -> (s: String)
    ensures
        s@ == pad_left(
            text@,
            width as nat,
            if zeros {
                '0'
            } else {
                ' '
            },
        ),
{
    let len = text.unicode_len();
    let ghost fill = if zeros {
        '0'
    } else {
        ' '
    };
    let mut s = String::new();
    let mut have: usize = len;
    while have < width
        invariant
            len <= have,
            have <= width || have == len,
            s@ == repeat(fill, (have - len) as nat),
            fill == (if zeros {
                '0'
            } else {
                ' '
            }),
        decreases width - have,
    {
        proof {
            reveal_strlit("0");
            reveal_strlit(" ");
        }
        let ghost before = s@;
        if zeros {
            s.append("0");
        } else {
            s.append(" ");
        }
        have = have + 1;
        assert(s@ =~= repeat(fill, (have - len) as nat));
    }
    s.append(text);
    proof {
        if len >= width {
            assert(s@ =~= text@);
        }
    }
    s
}

/// Whether `a` comes before `b` in the order of strings: character by
/// character, a proper prefix before what it begins.
pub open spec fn lex_lt(a: Seq<char>, b: Seq<char>) -> bool
    decreases a.len(),
{
    if b.len() == 0 {
        false
    } else if a.len() == 0 {
        true
    } else if a[0] != b[0] {
        a[0] < b[0]
    } else {
        lex_lt(a.drop_first(), b.drop_first())
    }
}

/// Nothing comes before itself.
pub proof fn lemma_lex_irreflexive(a: Seq<char>)
    ensures
        !lex_lt(a, a),
    decreases a.len(),
{
    if a.len() > 0 {
        lemma_lex_irreflexive(a.drop_first());
    }
}

/// The order of strings is transitive.
pub proof fn lemma_lex_transitive(a: Seq<char>, b: Seq<char>, c: Seq<char>)
    requires
        lex_lt(a, b),
        lex_lt(b, c),
    ensures
        lex_lt(a, c),
    decreases a.len(),
{
    if a.len() > 0 && b.len() > 0 && c.len() > 0 && a[0] == b[0] && b[0] == c[0] {
        lemma_lex_transitive(a.drop_first(), b.drop_first(), c.drop_first());
    }
}

/// Of two different strings one comes before the other.
pub proof fn lemma_lex_total(a: Seq<char>, b: Seq<char>)
    ensures
        lex_lt(a, b) || lex_lt(b, a) || a == b,
    decreases a.len(),
{
    if a.len() > 0 && b.len() > 0 && a[0] == b[0] {
        lemma_lex_total(a.drop_first(), b.drop_first());
        if a.drop_first() == b.drop_first() {
            assert(a =~= seq![a[0]] + a.drop_first());
            assert(b =~= seq![b[0]] + b.drop_first());
        }
    } else if a.len() == 0 && b.len() == 0 {
        assert(a =~= b);
    }
}

/// How two strings stand to each other.
#[derive(Clone, Copy, Debug, PartialEq, Eq, Structural)]
pub enum Order {
    Before,
    Same,
    After,
}

/// The order of `a` against `b`.
pub open spec fn lex_order(a: Seq<char>, b: Seq<char>) -> Order {
    if lex_lt(a, b) {
        Order::Before
    } else if a == b {
        Order::Same
    } else {
        Order::After
    }
}

/// Says whether `a` comes before, with or after `b` in the order of strings.
pub fn compare(a: &str, b: &str) -> (order: Order)
    ensures
        order == lex_order(a@, b@),
        order == Order::Same <==> a@ == b@,
        order == Order::After ==> lex_lt(b@, a@),
{
    let a_len = a.unicode_len();
    let b_len = b.unicode_len();
    let mut at: usize = 0;
    proof {
        assert(a@.subrange(0, a_len as int) =~= a@);
        assert(b@.subrange(0, b_len as int) =~= b@);
        lemma_lex_irreflexive(a@);
    }
    while at < a_len && at < b_len
        invariant
            a_len == a@.len(),
            b_len == b@.len(),
            at <= a_len,
            at <= b_len,
            a@.subrange(0, at as int) == b@.subrange(0, at as int),
            lex_lt(a@, b@) == lex_lt(
                a@.subrange(at as int, a_len as int),
                b@.subrange(at as int, b_len as int),
            ),
            lex_lt(b@, a@) == lex_lt(
                b@.subrange(at as int, b_len as int),
                a@.subrange(at as int, a_len as int),
            ),
        decreases a_len - at,
    {
        let x = a.get_char(at);
        let y = b.get_char(at);
        let ghost a_rest = a@.subrange(at as int, a_len as int);
        let ghost b_rest = b@.subrange(at as int, b_len as int);
        assert(a_rest[0] == x && b_rest[0] == y);
        if x != y {
            proof {
                if a@ == b@ {
                    assert(a@[at as int] == b@[at as int]);
                }
            }
            if x < y {
                return Order::Before;
            } else {
                return Order::After;
            }
        }
        proof {
            assert(a_rest.drop_first() =~= a@.subrange(at + 1, a_len as int));
            assert(b_rest.drop_first() =~= b@.subrange(at + 1, b_len as int));
            assert(a@.subrange(0, at + 1) =~= a@.subrange(0, at as int).push(x));
            assert(b@.subrange(0, at + 1) =~= b@.subrange(0, at as int).push(y));
        }
        at = at + 1;
    }
    proof {
        let a_rest = a@.subrange(at as int, a_len as int);
        let b_rest = b@.subrange(at as int, b_len as int);
        if a_len == b_len {
            assert(a@ =~= a@.subrange(0, at as int));
            assert(b@ =~= b@.subrange(0, at as int));
            lemma_lex_irreflexive(a@);
        } else {
            assert(a@.len() != b@.len());
        }
    }
    if a_len == b_len {
        Order::Same
    } else if a_len < b_len {
        Order::Before
    } else {
        Order::After
    }
}

/// Whether two strings hold the same characters.
pub fn same_text(a: &str, b: &str) -> (same: bool)
    ensures
        same == (a@ == b@),
{
    match compare(a, b) {
        Order::Same => true,
        _ => false,
    }
}

/// Whether `s` ends with `suffix`.
pub open spec fn ends_with(s: Seq<char>, suffix: Seq<char>) -> bool {
    s.len() >= suffix.len() && s.subrange(s.len() - suffix.len(), s.len() as int) == suffix
}

/// Says whether `text` ends with `suffix`.
pub fn has_suffix(text: &str, suffix: &str) -> (found: bool)
    ensures
        found == ends_with(text@, suffix@),
{
    let len = text.unicode_len();
    let suffix_len = suffix.unicode_len();
    if len < suffix_len {
        return false;
    }
    let tail = text.substring_char(len - suffix_len, len);
    same_text(tail, suffix)
}

} // verus!
