//! Decimal and hexadecimal text.

use vstd::prelude::*;

verus! {

/// The lower-case hexadecimal digit of value `d`.
pub open spec fn digit(d: int) -> char {
    if d < 10 {
        ('0' as int + d) as char
    } else {
        ('a' as int + d - 10) as char
    }
}

/// `n` in base ten, without leading zeros.
pub open spec fn decimal(n: nat) -> Seq<char>
    decreases n,
{
    if n < 10 {
        seq![digit(n as int)]
    } else {
        decimal(n / 10).push(digit((n % 10) as int))
    }
}

/// Two hexadecimal digits for each byte, the high half first.
pub open spec fn hex(bytes: Seq<u8>) -> Seq<char> {
    Seq::new(
        2 * bytes.len(),
        |i: int|
            digit(
                if i % 2 == 0 {
                    bytes[i / 2] as int / 16
                } else {
                    bytes[i / 2] as int % 16
                },
            ),
    )
}

/// `s` without any of the copies of `0x` that it starts with.
pub open spec fn trimmed(s: Seq<char>) -> Seq<char>
    decreases s.len(),
{
    if s.len() >= 2 && s[0] == '0' && s[1] == 'x' {
        trimmed(s.skip(2))
    } else {
        s
    }
}

/// The one-character text of a hexadecimal digit.
fn digit_text(d: u8) -> (text: &'static str)
    requires
        d < 16,
    ensures
        text@ == seq![digit(d as int)],
{
    proof {
        reveal_strlit("0");
        reveal_strlit("1");
        reveal_strlit("2");
        reveal_strlit("3");
        reveal_strlit("4");
        reveal_strlit("5");
        reveal_strlit("6");
        reveal_strlit("7");
        reveal_strlit("8");
        reveal_strlit("9");
        reveal_strlit("a");
        reveal_strlit("b");
        reveal_strlit("c");
        reveal_strlit("d");
        reveal_strlit("e");
        reveal_strlit("f");
    }
    match d {
        0 => "0",
        1 => "1",
        2 => "2",
        3 => "3",
        4 => "4",
        5 => "5",
        6 => "6",
        7 => "7",
        8 => "8",
        9 => "9",
        10 => "a",
        11 => "b",
        12 => "c",
        13 => "d",
        14 => "e",
        _ => "f",
    }
}

/// Writes a number in base ten.
pub fn decimal_text(n: u64) -> (text: String)
    ensures
        text@ == decimal(n as nat),
    decreases n,
{
    let mut text = if n < 10 {
        String::new()
    } else {
        decimal_text(n / 10)
    };
    text.append(digit_text((n % 10) as u8));
    text
}

/// Writes a hash in hexadecimal, behind `0x`.
pub fn hex_encode(hash: &[u8; 32]) -> (text: String)
    ensures
        text@ == "0x"@ + hex(hash@),
{
    let mut text = "0x".to_owned();
    let ghost prefix = text@;
    let mut i: usize = 0;
    while i < 32
        invariant
            i <= 32,
            text@ == prefix + hex(hash@.take(i as int)),
        decreases 32 - i,
    {
        let byte = hash[i];
        text.append(digit_text(byte / 16));
        text.append(digit_text(byte % 16));
        i += 1;
        assert(text@ == prefix + hex(hash@.take(i as int)));
    }
    assert(hash@.take(32) == hash@);
    text
}

/// Drops every copy of `0x` from the front of a text.
pub fn trim_hex_prefix<'a>(text: &'a str) -> (rest: &'a str)
    ensures
        rest@ == trimmed(text@),
{
    let mut rest: &'a str = text;
    loop
        invariant
            trimmed(rest@) == trimmed(text@),
        ensures
            rest@ == trimmed(text@),
        decreases rest@.len(),
    {
        let len = rest.unicode_len();
        if len < 2 || rest.get_char(0) != '0' || rest.get_char(1) != 'x' {
            break;
        }
        let shorter = rest.substring_char(2, len);
        assert(shorter@ == rest@.skip(2));
        rest = shorter;
    }
    rest
}

/// Hexadecimal digits never form the prefix `0x`, so trimming takes off exactly the prefix that
/// `hex_encode` wrote.
pub proof fn trimming_undoes_the_prefix(bytes: Seq<u8>)
    ensures
        trimmed("0x"@ + hex(bytes)) == hex(bytes),
{
    reveal_strlit("0x");
    reveal_with_fuel(trimmed, 2);
    let text = "0x"@ + hex(bytes);
    assert(text.skip(2) == hex(bytes));
}

/// Hexadecimal text determines the bytes that it stands for.
pub proof fn hex_is_injective(a: Seq<u8>, b: Seq<u8>)
    requires
        hex(a) == hex(b),
    ensures
        a == b,
{
    assert(hex(a).len() == 2 * a.len() && hex(b).len() == 2 * b.len());
    assert forall|i: int| 0 <= i < a.len() implies a[i] == b[i] by {
        let x = a[i] as int;
        let y = b[i] as int;
        assert(hex(a)[2 * i] == digit(x / 16));
        assert(hex(b)[2 * i] == digit(y / 16));
        assert(hex(a)[2 * i + 1] == digit(x % 16));
        assert(hex(b)[2 * i + 1] == digit(y % 16));
        digit_is_injective(x / 16, y / 16);
        digit_is_injective(x % 16, y % 16);
    }
    assert(a =~= b);
}

proof fn digit_is_injective(d: int, e: int)
    requires
        0 <= d < 16,
        0 <= e < 16,
        digit(d) == digit(e),
    ensures
        d == e,
{
}

/// What a digit stands for.
pub open spec fn digit_value(c: char) -> int {
    if '0' <= c <= '9' {
        c as int - '0' as int
    } else {
        c as int - 'a' as int + 10
    }
}

/// What a text of digits stands for, the most significant digit first.
pub open spec fn value(text: Seq<char>, base: int) -> int
    decreases text.len(),
{
    if text.len() == 0 {
        0
    } else {
        value(text.drop_last(), base) * base + digit_value(text.last())
    }
}

/// Whether a text holds nothing but the digits from `0` to `9`.
pub open spec fn all_digits(text: Seq<char>) -> bool {
    forall|i: int| 0 <= i < text.len() ==> '0' <= #[trigger] text[i] <= '9'
}

/// Whether a text is how a number is usually written: digits that read as the number, without a
/// zero in front unless the number is zero.
pub open spec fn is_decimal(text: Seq<char>, n: nat) -> bool {
    &&& text.len() > 0
    &&& all_digits(text)
    &&& value(text, 10) == n
    &&& text.len() > 1 ==> text[0] != '0'
}

/// Every digit is the usual one, in lower case, and reads as what it stands for.
pub proof fn digits_are_the_usual_ones(d: int)
    requires
        0 <= d < 16,
    ensures
        digit(d) == "0123456789abcdef"@[d],
        digit_value("0123456789abcdef"@[d]) == d,
{
    reveal_strlit("0123456789abcdef");
}

/// A digit behind a text multiplies what the text stands for by the base and adds its own value.
pub proof fn digits_count_by_their_place(text: Seq<char>, c: char, base: int)
    ensures
        value(Seq::empty(), base) == 0,
        value(text.push(c), base) == value(text, base) * base + digit_value(c),
{
    assert(text.push(c).drop_last() == text);
}

/// A number's text is the usual one.
pub proof fn decimals_read_back(n: nat)
    ensures
        is_decimal(decimal(n), n),
    decreases n,
{
    reveal_with_fuel(value, 2);
    if n < 10 {
        assert(decimal(n).drop_last() == Seq::<char>::empty());
    } else {
        let front = decimal(n / 10);
        decimals_read_back(n / 10);
        digits_count_by_their_place(front, digit((n % 10) as int), 10);
        if front.len() == 1 {
            assert(front.drop_last() == Seq::<char>::empty());
        }
    }
}

/// No number is written in two ways.
pub proof fn decimals_are_unique(one: Seq<char>, other: Seq<char>, n: nat)
    requires
        is_decimal(one, n),
        is_decimal(other, n),
    ensures
        one == other,
    decreases one.len(),
{
    let (a, b) = (one.drop_last(), other.drop_last());
    let (x, y) = (digit_value(one.last()), digit_value(other.last()));
    values_are_natural(a);
    values_are_natural(b);
    assert(value(a, 10) * 10 + x == value(b, 10) * 10 + y);
    assert(value(a, 10) == value(b, 10) && x == y);
    assert(one.last() == other.last());
    if a.len() == 0 || b.len() == 0 {
        if a.len() > 0 {
            positive_values(a);
        }
        if b.len() > 0 {
            positive_values(b);
        }
        assert(a.len() == 0 && b.len() == 0);
    } else {
        decimals_are_unique(a, b, value(a, 10) as nat);
    }
    assert(one == a.push(one.last()));
    assert(other == b.push(other.last()));
}

proof fn values_are_natural(text: Seq<char>)
    requires
        all_digits(text),
    ensures
        value(text, 10) >= 0,
    decreases text.len(),
{
    if text.len() > 0 {
        values_are_natural(text.drop_last());
    }
}

proof fn positive_values(text: Seq<char>)
    requires
        text.len() > 0,
        all_digits(text),
        text[0] != '0',
    ensures
        value(text, 10) > 0,
    decreases text.len(),
{
    reveal_with_fuel(value, 2);
    if text.len() > 1 {
        positive_values(text.drop_last());
    } else {
        assert(text.drop_last() == Seq::<char>::empty());
    }
}

/// Each byte is written as the usual digits of its two halves, and reads back as the byte.
pub proof fn hex_reads_back(bytes: Seq<u8>, i: int)
    requires
        0 <= i < bytes.len(),
    ensures
        hex(bytes).len() == 2 * bytes.len(),
        hex(bytes)[2 * i] == "0123456789abcdef"@[bytes[i] as int / 16],
        hex(bytes)[2 * i + 1] == "0123456789abcdef"@[bytes[i] as int % 16],
        value(hex(bytes).subrange(2 * i, 2 * i + 2), 16) == bytes[i],
{
    let (high, low) = (bytes[i] as int / 16, bytes[i] as int % 16);
    digits_are_the_usual_ones(high);
    digits_are_the_usual_ones(low);
    assert(hex(bytes)[2 * i] == digit(high));
    assert(hex(bytes)[2 * i + 1] == digit(low));
    let empty = Seq::<char>::empty();
    assert(hex(bytes).subrange(2 * i, 2 * i + 2) == empty.push(digit(high)).push(digit(low)));
    digits_count_by_their_place(empty, digit(high), 16);
    digits_count_by_their_place(empty.push(digit(high)), digit(low), 16);
}

/// Trimming takes off copies of `0x` from the front, all of them and nothing else.
pub proof fn trimming_takes_off_prefixes(s: Seq<char>) -> (copies: nat)
    ensures
        s.len() == 2 * copies + trimmed(s).len(),
        trimmed(s) == s.skip(2 * copies as int),
        forall|i: int|
            0 <= i < 2 * copies ==> #[trigger] s[i] == (if i % 2 == 0 {
                '0'
            } else {
                'x'
            }),
        !(trimmed(s).len() >= 2 && trimmed(s)[0] == '0' && trimmed(s)[1] == 'x'),
    decreases s.len(),
{
    if s.len() >= 2 && s[0] == '0' && s[1] == 'x' {
        let rest = s.skip(2);
        let copies = trimming_takes_off_prefixes(rest);
        assert(rest.skip(2 * copies as int) == s.skip(2 * (copies + 1) as int));
        assert forall|i: int| 0 <= i < 2 * (copies + 1) implies #[trigger] s[i] == (if i % 2 == 0 {
            '0'
        } else {
            'x'
        }) by {
            if i >= 2 {
                assert(s[i] == rest[i - 2]);
            }
        }
        copies + 1
    } else {
        assert(s.skip(0) == s);
        0
    }
}

/// Texts of digits in front of a mark that is no digit can be told apart from what is behind it.
pub proof fn marks_separate_digits(
    one: Seq<char>,
    other: Seq<char>,
    mark: Seq<char>,
    behind_one: Seq<char>,
    behind_other: Seq<char>,
)
    requires
        all_digits(one),
        all_digits(other),
        mark.len() > 0,
        !('0' <= mark[0] <= '9'),
        one + mark + behind_one == other + mark + behind_other,
    ensures
        one == other,
        behind_one == behind_other,
{
    let (a, b) = (one + mark + behind_one, other + mark + behind_other);
    assert(a[one.len() as int] == mark[0]);
    assert(b[other.len() as int] == mark[0]);
    if one.len() < other.len() {
        assert(b[one.len() as int] == other[one.len() as int]);
    }
    if other.len() < one.len() {
        assert(a[other.len() as int] == one[other.len() as int]);
    }
    assert(one == a.take(one.len() as int));
    assert(other == b.take(other.len() as int));
    assert(behind_one == a.skip((one.len() + mark.len()) as int));
    assert(behind_other == b.skip((other.len() + mark.len()) as int));
}

/// Writing a number gives its usual text.
pub proof fn written_decimals_read_back(n: u64, text: String)
    requires
        call_ensures(decimal_text, (n,), text),
    ensures
        is_decimal(text@, n as nat),
{
    decimals_read_back(n as nat);
}

/// Writing a hash gives `0x` and the usual digits of every byte.
pub proof fn written_hashes_read_back(hash: [u8; 32], text: String, i: int)
    requires
        call_ensures(hex_encode, (&hash,), text),
        0 <= i < 32,
    ensures
        text@.len() == 66,
        text@[0] == '0' && text@[1] == 'x',
        text@[2 + 2 * i] == "0123456789abcdef"@[hash@[i] as int / 16],
        text@[3 + 2 * i] == "0123456789abcdef"@[hash@[i] as int % 16],
{
    reveal_strlit("0x");
    hex_reads_back(hash@, i);
}

/// The text of a digit is the character at its place among the sixteen digits.
proof fn digits_are_written_as_usual(d: u8, text: &'static str)
    requires
        d < 16,
        call_ensures(digit_text, (d,), text),
    ensures
        text@.len() == 1,
        text@[0] == "0123456789abcdef"@[d as int],
{
    digits_are_the_usual_ones(d as int);
}

/// What `trim_hex_prefix` gives: the text behind all the copies of `0x` at its front.
pub proof fn trimmed_texts_lack_only_prefixes(text: &str, rest: &str) -> (copies: nat)
    requires
        call_ensures(trim_hex_prefix, (text,), rest),
    ensures
        text@.len() == 2 * copies + rest@.len(),
        rest@ == text@.skip(2 * copies as int),
        forall|i: int|
            0 <= i < 2 * copies ==> #[trigger] text@[i] == (if i % 2 == 0 {
                '0'
            } else {
                'x'
            }),
        !(rest@.len() >= 2 && rest@[0] == '0' && rest@[1] == 'x'),
{
    trimming_takes_off_prefixes(text@)
}

} // verus!
