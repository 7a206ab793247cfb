//! Reading back what the JSON writer wrote: string literals and numbers in
//! their canonical form, and nothing else.

use vstd::prelude::*;

use crate::amount::decimal_value;
use crate::codec::hex_digit;
use crate::text::{chars_of, matches_at, push_char};
use crate::text::{decimal_text, digit_char, is_prefix, json_escaped, json_escaped_char, json_string};

verus! {

pub open spec fn is_digit(c: char) -> bool {
    '0' <= c && c <= '9'
}

/// The value of a lower-case hexadecimal digit.
pub open spec fn lower_hex_value(c: char) -> Option<nat> {
    if '0' <= c && c <= '9' {
        Some((c as u32 - '0' as u32) as nat)
    } else if 'a' <= c && c <= 'f' {
        Some((c as u32 - 'a' as u32 + 10) as nat)
    } else {
        None
    }
}

/// Whether a control character has an escape of two characters.
pub open spec fn has_short_escape(code: nat) -> bool {
    code == 8 || code == 9 || code == 10 || code == 12 || code == 13
}

/// The character that the input starts with, inside a string literal, and how
/// many characters of the input write it. Only the escapes that the writer
/// uses are read.
pub open spec fn json_char(input: Seq<char>) -> Option<(char, int)> {
    if input.len() == 0 {
        None
    } else if input[0] == '\\' {
        if input.len() < 2 {
            None
        } else if input[1] == '"' {
            Some(('"', 2))
        } else if input[1] == '\\' {
            Some(('\\', 2))
        } else if input[1] == 'b' {
            Some(('\u{8}', 2))
        } else if input[1] == 'f' {
            Some(('\u{c}', 2))
        } else if input[1] == 'n' {
            Some(('\n', 2))
        } else if input[1] == 'r' {
            Some(('\r', 2))
        } else if input[1] == 't' {
            Some(('\t', 2))
        } else if input[1] == 'u' && input.len() >= 6 && input[2] == '0' && input[3] == '0' && (
        input[4] == '0' || input[4] == '1') && lower_hex_value(input[5]) is Some {
            let code = (if input[4] == '1' {
                16nat
            } else {
                0nat
            }) + lower_hex_value(input[5])->0;
            if has_short_escape(code) {
                None
            } else {
                Some(((code as u32) as char, 6))
            }
        } else {
            None
        }
    } else if input[0] == '"' || (input[0] as u32) < 0x20 {
        None
    } else {
        Some((input[0], 1))
    }
}

/// The text of a string literal whose opening quote was read, and how many
/// characters of the input it takes, the closing quote included.
pub open spec fn json_body(input: Seq<char>) -> Option<(Seq<char>, int)>
    decreases input.len(),
{
    if input.len() == 0 {
        None
    } else if input[0] == '"' {
        Some((Seq::empty(), 1))
    } else {
        match json_char(input) {
            Some((c, n)) => if 1 <= n <= input.len() {
                match json_body(input.subrange(n, input.len() as int)) {
                    Some((rest, m)) => Some((seq![c] + rest, n + m)),
                    None => None,
                }
            } else {
                None
            },
            None => None,
        }
    }
}

/// The text of the string literal that the input starts with, and what
/// follows the literal.
pub open spec fn read_string(input: Seq<char>) -> Option<(Seq<char>, Seq<char>)> {
    if input.len() == 0 || input[0] != '"' {
        None
    } else {
        match json_body(input.subrange(1, input.len() as int)) {
            Some((text, n)) => Some((text, input.subrange(1 + n, input.len() as int))),
            None => None,
        }
    }
}

/// How many digits the input starts with.
pub open spec fn digit_run(input: Seq<char>) -> int
    decreases input.len(),
{
    if input.len() > 0 && is_digit(input[0]) {
        1 + digit_run(input.subrange(1, input.len() as int))
    } else {
        0
    }
}

/// The number that the input starts with, and what follows it. A number is
/// read in its canonical form only: digits without a leading zero, and of a
/// value that 64 bits hold.
pub open spec fn read_number(input: Seq<char>) -> Option<(u64, Seq<char>)> {
    let n = digit_run(input);
    if n == 0 || (input[0] == '0' && n > 1) {
        None
    } else {
        match decimal_value(input.subrange(0, n)) {
            Some(v) => if v <= u64::MAX {
                Some((v as u64, input.subrange(n, input.len() as int)))
            } else {
                None
            },
            None => None,
        }
    }
}

/// What follows the given text at the start of the input, if the input
/// starts with it.
pub open spec fn read_literal(input: Seq<char>, literal: Seq<char>) -> Option<Seq<char>> {
    if is_prefix(literal, input) {
        Some(input.subrange(literal.len() as int, input.len() as int))
    } else {
        None
    }
}

pub proof fn lemma_read_literal(literal: Seq<char>, rest: Seq<char>)
    ensures
        read_literal(literal + rest, literal) == Some(rest),
{
    let input = literal + rest;
    assert(input.subrange(0, literal.len() as int) =~= literal);
    assert(input.subrange(literal.len() as int, input.len() as int) =~= rest);
}

proof fn lemma_lower_hex_round_trip(v: nat)
    requires
        v < 16,
    ensures
        lower_hex_value(hex_digit(v)) == Some(v),
{
}

/// The escape of a character is read back as the character.
pub proof fn lemma_json_char_round_trip(c: char, rest: Seq<char>)
    ensures
        json_char(json_escaped_char(c) + rest) == Some((c, json_escaped_char(c).len() as int)),
        json_escaped_char(c).len() >= 1,
        json_escaped_char(c)[0] != '"',
{
    let input = json_escaped_char(c) + rest;
    if c == '"' || c == '\\' || c == '\u{8}' || c == '\u{c}' || c == '\n' || c == '\r' || c
        == '\t' {
        assert(input[0] == '\\');
        assert(input[1] == json_escaped_char(c)[1]);
    } else if (c as u32) < 0x20 {
        let code = c as u32;
        let high = (code / 16) as nat;
        let low = (code % 16) as nat;
        assert(input[0] == '\\' && input[1] == 'u' && input[2] == '0' && input[3] == '0');
        assert(input[4] == hex_digit(high));
        assert(input[5] == hex_digit(low));
        lemma_lower_hex_round_trip(low);
        assert(high == 0 || high == 1);
        assert((if input[4] == '1' {
            16nat
        } else {
            0nat
        }) + low == code);
        vstd::utf8::char_u32_cast(c, code);
        assert(!has_short_escape(code as nat));
    } else {
        assert(input[0] == c);
    }
}

pub proof fn lemma_json_escaped_front(c: char, t: Seq<char>)
    ensures
        json_escaped(seq![c] + t) == json_escaped_char(c) + json_escaped(t),
    decreases t.len(),
{
    let s = seq![c] + t;
    if t.len() == 0 {
        assert(s.drop_last() =~= Seq::<char>::empty());
        assert(json_escaped(s.drop_last()) =~= Seq::<char>::empty());
        assert(json_escaped(s) =~= json_escaped_char(c) + json_escaped(t));
    } else {
        lemma_json_escaped_front(c, t.drop_last());
        assert(s.drop_last() =~= seq![c] + t.drop_last());
        assert(s.last() == t.last());
        assert(json_escaped(s) =~= json_escaped_char(c) + json_escaped(t));
    }
}

/// What the writer wrote for a text, closed by a quote, is read back as the
/// text.
pub proof fn lemma_json_body_round_trip(s: Seq<char>, rest: Seq<char>)
    ensures
        json_body(json_escaped(s) + seq!['"'] + rest) == Some(
            (s, json_escaped(s).len() as int + 1),
        ),
    decreases s.len(),
{
    let input = json_escaped(s) + seq!['"'] + rest;
    if s.len() == 0 {
        assert(input[0] == '"');
    } else {
        let c = s[0];
        let t = s.subrange(1, s.len() as int);
        assert(s =~= seq![c] + t);
        lemma_json_escaped_front(c, t);
        let tail = json_escaped(t) + seq!['"'] + rest;
        assert(input =~= json_escaped_char(c) + tail);
        lemma_json_char_round_trip(c, tail);
        let n = json_escaped_char(c).len() as int;
        assert(input[0] == json_escaped_char(c)[0]);
        assert(input.subrange(n, input.len() as int) =~= tail);
        lemma_json_body_round_trip(t, rest);
        assert(seq![c] + t =~= s);
    }
}

/// A string literal that the writer wrote is read back as its text.
pub proof fn lemma_read_string_round_trip(s: Seq<char>, rest: Seq<char>)
    ensures
        read_string(json_string(s) + rest) == Some((s, rest)),
{
    let input = json_string(s) + rest;
    let inner = json_escaped(s) + seq!['"'] + rest;
    assert(input[0] == '"');
    assert(input.subrange(1, input.len() as int) =~= inner);
    lemma_json_body_round_trip(s, rest);
    let n = json_escaped(s).len() as int + 1;
    assert(input.subrange(1 + n, input.len() as int) =~= rest);
}

/// A decimal numeral is made of digits, starts with a zero only where it is
/// the numeral of zero, and denotes its number.
pub proof fn lemma_decimal_text(n: nat)
    ensures
        decimal_text(n).len() >= 1,
        forall|i: int| 0 <= i < decimal_text(n).len() ==> is_digit(#[trigger] decimal_text(n)[i]),
        decimal_text(n)[0] == '0' ==> n == 0,
        n == 0 ==> decimal_text(n).len() == 1,
        decimal_value(decimal_text(n)) == Some(n),
    decreases n,
{
    if n >= 10 {
        lemma_decimal_text(n / 10);
        let front = decimal_text(n / 10);
        let d = digit_char(n % 10);
        assert(decimal_text(n) == front.push(d));
        assert(decimal_text(n).drop_last() =~= front);
        assert(decimal_text(n)[0] == front[0]);
        assert((d as u32 - '0' as u32) as nat == n % 10);
    } else {
        let d = digit_char(n);
        assert((d as u32 - '0' as u32) as nat == n);
    }
}

proof fn lemma_digit_run_of_digits(digits: Seq<char>, rest: Seq<char>)
    requires
        forall|i: int| 0 <= i < digits.len() ==> is_digit(#[trigger] digits[i]),
        rest.len() == 0 || !is_digit(rest[0]),
    ensures
        digit_run(digits + rest) == digits.len(),
    decreases digits.len(),
{
    let input = digits + rest;
    if digits.len() == 0 {
        assert(input =~= rest);
    } else {
        assert(input[0] == digits[0]);
        let tail = digits.subrange(1, digits.len() as int);
        assert(input.subrange(1, input.len() as int) =~= tail + rest);
        assert forall|i: int| 0 <= i < tail.len() implies is_digit(#[trigger] tail[i]) by {
            assert(tail[i] == digits[i + 1]);
        }
        lemma_digit_run_of_digits(tail, rest);
    }
}

/// A number that the writer wrote is read back, as long as no digit follows
/// it.
pub proof fn lemma_read_number_round_trip(n: u64, rest: Seq<char>)
    requires
        rest.len() == 0 || !is_digit(rest[0]),
    ensures
        read_number(decimal_text(n as nat) + rest) == Some((n, rest)),
{
    let digits = decimal_text(n as nat);
    let input = digits + rest;
    lemma_decimal_text(n as nat);
    lemma_digit_run_of_digits(digits, rest);
    assert(input[0] == digits[0]);
    assert(input.subrange(0, digits.len() as int) =~= digits);
    assert(input.subrange(digits.len() as int, input.len() as int) =~= rest);
}

/// Reads the given text at a position: where it ends, if it stands there.
pub fn scan_literal(chars: &Vec<char>, pos: usize, literal: &str) -> (next: Option<usize>)
    requires
        pos <= chars.len(),
    ensures
        match read_literal(chars@.subrange(pos as int, chars@.len() as int), literal@) {
            Some(rest) => next matches Some(end) && pos <= end <= chars@.len() && end == pos
                + literal@.len() && rest == chars@.subrange(end as int, chars@.len() as int),
            None => next is None,
        },
{
    let pattern = chars_of(literal);
    let ghost input = chars@.subrange(pos as int, chars@.len() as int);
    if matches_at(chars, pos, &pattern) {
        proof {
            assert(input.subrange(0, pattern@.len() as int) =~= chars@.subrange(
                pos as int,
                pos + pattern@.len(),
            ));
            assert(input.subrange(pattern@.len() as int, input.len() as int) =~= chars@.subrange(
                pos + pattern@.len(),
                chars@.len() as int,
            ));
        }
        Some(pos + pattern.len())
    } else {
        proof {
            if is_prefix(literal@, input) {
                assert(input.subrange(0, pattern@.len() as int) =~= chars@.subrange(
                    pos as int,
                    pos + pattern@.len(),
                ));
            }
        }
        None
    }
}

fn lower_hex_of(c: char) -> (v: Option<u8>)
    ensures
        match lower_hex_value(c) {
            Some(n) => v == Some(n as u8) && n < 16,
            None => v is None,
        },
{
    if '0' <= c && c <= '9' {
        Some((c as u32 - '0' as u32) as u8)
    } else if 'a' <= c && c <= 'f' {
        Some((c as u32 - 'a' as u32 + 10) as u8)
    } else {
        None
    }
}

/// Reads one character of a string literal at a position.
fn scan_char(chars: &Vec<char>, pos: usize) -> (r: Option<(char, usize)>)
    requires
        pos <= chars.len(),
    ensures
        match json_char(chars@.subrange(pos as int, chars@.len() as int)) {
            Some((c, n)) => r == Some((c, n as usize)) && 1 <= n && pos + n <= chars@.len(),
            None => r is None,
        },
{
    let ghost input = chars@.subrange(pos as int, chars@.len() as int);
    if pos >= chars.len() {
        return None;
    }
    let c = chars[pos];
    assert(input[0] == c);
    if c == '\\' {
        if chars.len() - pos < 2 {
            return None;
        }
        let e = chars[pos + 1];
        assert(input[1] == e);
        if e == '"' {
            Some(('"', 2))
        } else if e == '\\' {
            Some(('\\', 2))
        } else if e == 'b' {
            Some(('\u{8}', 2))
        } else if e == 'f' {
            Some(('\u{c}', 2))
        } else if e == 'n' {
            Some(('\n', 2))
        } else if e == 'r' {
            Some(('\r', 2))
        } else if e == 't' {
            Some(('\t', 2))
        } else if e == 'u' {
            if chars.len() - pos < 6 {
                return None;
            }
            assert(input[2] == chars@[pos + 2] && input[3] == chars@[pos + 3] && input[4]
                == chars@[pos + 4] && input[5] == chars@[pos + 5]);
            if chars[pos + 2] != '0' || chars[pos + 3] != '0' {
                return None;
            }
            let high: u8 = if chars[pos + 4] == '1' {
                16
            } else if chars[pos + 4] == '0' {
                0
            } else {
                return None;
            };
            let low = match lower_hex_of(chars[pos + 5]) {
                Some(low) => low,
                None => {
                    return None;
                },
            };
            let code: u8 = high + low;
            if code == 8 || code == 9 || code == 10 || code == 12 || code == 13 {
                return None;
            }
            Some((code as char, 6))
        } else {
            None
        }
    } else if c == '"' || (c as u32) < 0x20 {
        None
    } else {
        Some((c, 1))
    }
}

/// Reads a string literal at a position: its text and where it ends.
pub fn scan_string(chars: &Vec<char>, pos: usize) -> (r: Option<(String, usize)>)
    requires
        pos <= chars.len(),
    ensures
        match read_string(chars@.subrange(pos as int, chars@.len() as int)) {
            Some((text, rest)) => r matches Some(pair) && pair.0@ == text && pos <= pair.1
                <= chars@.len() && rest == chars@.subrange(pair.1 as int, chars@.len() as int),
            None => r is None,
        },
{
    let ghost input = chars@.subrange(pos as int, chars@.len() as int);
    if pos >= chars.len() || chars[pos] != '"' {
        assert(input.len() == 0 || input[0] == chars@[pos as int]);
        return None;
    }
    assert(input[0] == '"');
    let start = pos + 1;
    let ghost body = chars@.subrange(start as int, chars@.len() as int);
    assert(input.subrange(1, input.len() as int) =~= body);
    let mut out = String::new();
    let mut i: usize = start;
    assert(out@ + Seq::<char>::empty() =~= Seq::<char>::empty());
    loop
        invariant
            start <= i <= chars.len(),
            start == pos + 1,
            input == chars@.subrange(pos as int, chars@.len() as int),
            input.len() > 0,
            input[0] == '"',
            input.subrange(1, input.len() as int) == body,
            body == chars@.subrange(start as int, chars@.len() as int),
            json_body(body) == (match json_body(chars@.subrange(i as int, chars@.len() as int)) {
                Some((rest, m)) => Some((out@ + rest, (i - start) + m)),
                None => None,
            }),
        decreases chars.len() - i,
    {
        let ghost here = chars@.subrange(i as int, chars@.len() as int);
        if i >= chars.len() {
            return None;
        }
        assert(here[0] == chars@[i as int]);
        if chars[i] == '"' {
            proof {
                assert(json_body(here) == Some((Seq::<char>::empty(), 1int)));
                assert(out@ + Seq::<char>::empty() =~= out@);
                assert(input.subrange(1 + ((i - start) + 1), input.len() as int) =~= chars@.subrange(
                    i + 1,
                    chars@.len() as int,
                ));
            }
            return Some((out, i + 1));
        }
        match scan_char(chars, i) {
            None => {
                return None;
            },
            Some((c, n)) => {
                let ghost before = out@;
                proof {
                    assert(here.subrange(n as int, here.len() as int) =~= chars@.subrange(
                        i + n,
                        chars@.len() as int,
                    ));
                    match json_body(chars@.subrange(i + n, chars@.len() as int)) {
                        Some((rest, m)) => {
                            assert(before + (seq![c] + rest) =~= before.push(c) + rest);
                        },
                        None => {},
                    }
                }
                push_char(&mut out, c);
                i = i + n;
            },
        }
    }
}

pub proof fn lemma_digit_run(input: Seq<char>)
    ensures
        0 <= digit_run(input) <= input.len(),
        forall|j: int| 0 <= j < digit_run(input) ==> is_digit(#[trigger] input[j]),
        digit_run(input) < input.len() ==> !is_digit(input[digit_run(input)]),
    decreases input.len(),
{
    if input.len() > 0 && is_digit(input[0]) {
        let tail = input.subrange(1, input.len() as int);
        lemma_digit_run(tail);
        assert forall|j: int| 0 <= j < digit_run(input) implies is_digit(#[trigger] input[j]) by {
            if j > 0 {
                assert(input[j] == tail[j - 1]);
            }
        }
        if digit_run(input) < input.len() {
            assert(input[digit_run(input)] == tail[digit_run(tail)]);
        }
    }
}

/// The value of a text of digits is not below the value of a front part of
/// it.
pub proof fn lemma_decimal_value_monotone(t: Seq<char>, k: int)
    requires
        forall|j: int| 0 <= j < t.len() ==> is_digit(#[trigger] t[j]),
        1 <= k <= t.len(),
    ensures
        decimal_value(t) is Some,
        decimal_value(t.subrange(0, k)) is Some,
        decimal_value(t)->0 >= decimal_value(t.subrange(0, k))->0,
    decreases t.len(),
{
    if k == t.len() {
        assert(t.subrange(0, k) =~= t);
        if t.len() > 1 {
            lemma_decimal_value_monotone(t.drop_last(), k - 1);
        }
    } else {
        lemma_decimal_value_monotone(t.drop_last(), k);
        assert(t.drop_last().subrange(0, k) =~= t.subrange(0, k));
    }
}

/// Reads a number at a position: its value and where it ends.
pub fn scan_number(chars: &Vec<char>, pos: usize) -> (r: Option<(u64, usize)>)
    requires
        pos <= chars.len(),
    ensures
        match read_number(chars@.subrange(pos as int, chars@.len() as int)) {
            Some((value, rest)) => r matches Some(pair) && pair.0 == value && pos <= pair.1
                <= chars@.len() && rest == chars@.subrange(pair.1 as int, chars@.len() as int),
            None => r is None,
        },
{
    let ghost input = chars@.subrange(pos as int, chars@.len() as int);
    proof {
        lemma_digit_run(input);
    }
    let mut i: usize = pos;
    let mut value: u64 = 0;
    while i < chars.len() && '0' <= chars[i] && chars[i] <= '9'
        invariant
            pos <= i <= chars.len(),
            input == chars@.subrange(pos as int, chars@.len() as int),
            i - pos <= digit_run(input) <= input.len(),
            forall|j: int| 0 <= j < digit_run(input) ==> is_digit(#[trigger] input[j]),
            digit_run(input) < input.len() ==> !is_digit(input[digit_run(input)]),
            i == pos ==> value == 0,
            i > pos ==> decimal_value(input.subrange(0, i - pos)) == Some(value as nat),
        decreases chars.len() - i,
    {
        let digit: u64 = (chars[i] as u32 - '0' as u32) as u64;
        let ghost next = input.subrange(0, i - pos + 1);
        proof {
            assert(input[i - pos] == chars@[i as int]);
            if i - pos == digit_run(input) {
                assert(!is_digit(input[digit_run(input)]));
            }
            assert(next.last() == chars@[i as int]);
            assert(next.drop_last() =~= input.subrange(0, i - pos));
            assert(decimal_value(next) == Some((value * 10 + digit) as nat));
        }
        if value > (u64::MAX - digit) / 10 {
            proof {
                let n = digit_run(input);
                let run = input.subrange(0, n);
                assert(run.subrange(0, i - pos + 1) =~= next);
                lemma_decimal_value_monotone(run, i - pos + 1);
            }
            return None;
        }
        value = value * 10 + digit;
        i = i + 1;
    }
    proof {
        if i < chars.len() {
            assert(input[i - pos] == chars@[i as int]);
        }
        assert(digit_run(input) == i - pos);
    }
    if i == pos {
        return None;
    }
    assert(input[0] == chars@[pos as int]);
    if chars[pos] == '0' && i - pos > 1 {
        return None;
    }
    assert(input.subrange(i - pos, input.len() as int) =~= chars@.subrange(
        i as int,
        chars@.len() as int,
    ));
    Some((value, i))
}

} // verus!
