//! Decimal numbers and separated fields in the bytes of a text.
//!
//! Everything here works on the UTF-8 bytes of a `&str`. The separators and
//! digits that the notations use are ASCII, and an ASCII byte never occurs
//! inside the encoding of another character, so a byte-wise reading is exact.

use vstd::prelude::*;
use vstd::string::*;
use vstd::utf8::*;

verus! {

/// The byte of the plus sign that may stand before a number.
pub const PLUS: u8 = 0x2B;

/// The byte of the digit zero.
pub const ZERO: u8 = 0x30;

/// Whether a byte is an ASCII decimal digit.
pub open spec fn is_digit(b: u8) -> bool {
    0x30 <= b <= 0x39
}

/// Whether every byte is an ASCII decimal digit.
pub open spec fn all_digits(s: Seq<u8>) -> bool {
    forall|i: int| 0 <= i < s.len() ==> is_digit(#[trigger] s[i])
}

/// The number that a sequence of decimal digits denotes, most significant
/// digit first. Leading zeros do not count.
pub open spec fn digits_value(s: Seq<u8>) -> nat
    decreases s.len(),
{
    if s.len() == 0 {
        0
    } else {
        digits_value(s.drop_last()) * 10 + (s.last() - 0x30) as nat
    }
}

/// The digits of an unsigned number: the text without one leading plus sign.
pub open spec fn unsigned_digits(s: Seq<u8>) -> Seq<u8> {
    if s.len() > 0 && s[0] == PLUS {
        s.subrange(1, s.len() as int)
    } else {
        s
    }
}

/// The unsigned number that a text denotes, if it denotes one that is at most
/// `max`: an optional plus sign, then one or more decimal digits and nothing
/// else.
pub open spec fn parse_unsigned(s: Seq<u8>, max: nat) -> Option<nat> {
    let d = unsigned_digits(s);
    if d.len() > 0 && all_digits(d) && digits_value(d) <= max {
        Some(digits_value(d))
    } else {
        None
    }
}

/// A longer sequence of digits denotes no smaller number than its start.
pub proof fn lemma_digits_value_prefix(s: Seq<u8>, n: int)
    requires
        0 <= n <= s.len(),
        all_digits(s),
    ensures
        digits_value(s.take(n)) <= digits_value(s),
    decreases s.len() - n,
{
    if n == s.len() {
        assert(s.take(n) =~= s);
    } else {
        lemma_digits_value_prefix(s, n + 1);
        let t = s.take(n + 1);
        assert(t.drop_last() =~= s.take(n));
        assert(is_digit(s[n]));
        assert(t.last() == s[n]);
    }
}

/// Reads an unsigned decimal number that is at most `max`, as `str::parse`
/// reads one: a plus sign may lead, at least one digit follows, and nothing
/// else is in the text. Leading zeros are read over.
pub fn parse_number(bytes: &[u8], max: u32) -> (r: Option<u32>)
    ensures
        r matches Some(n) ==> parse_unsigned(bytes@, max as nat) == Some(n as nat),
        r is None ==> parse_unsigned(bytes@, max as nat) is None,
{
    let len: usize = bytes.len();
    let start: usize = if len > 0 && bytes[0] == PLUS {
        1
    } else {
        0
    };
    let ghost digits = unsigned_digits(bytes@);
    assert(digits =~= bytes@.subrange(start as int, len as int));
    if start == len {
        return None;
    }
    let mut value: u32 = 0;
    let mut i: usize = start;
    while i < len
        invariant
            start <= i <= len,
            len == bytes@.len(),
            digits == bytes@.subrange(start as int, len as int),
            digits == unsigned_digits(bytes@),
            digits.len() > 0,
            all_digits(digits.take(i - start)),
            value as nat == digits_value(digits.take(i - start)),
            value <= max,
        decreases len - i,
    {
        let b: u8 = bytes[i];
        let ghost k: int = i - start;
        assert(digits[k] == b);
        if b < ZERO || b > 0x39 {
            assert(!is_digit(digits[k]));
            return None;
        }
        let next: u64 = value as u64 * 10 + (b - ZERO) as u64;
        proof {
            let t = digits.take(k + 1);
            assert(t.drop_last() =~= digits.take(k));
            assert(t.last() == b);
            assert(digits_value(t) == next as nat);
            assert forall|j: int| 0 <= j < t.len() implies is_digit(#[trigger] t[j]) by {
                if j < k {
                    assert(t[j] == digits.take(k)[j]);
                }
            }
        }
        if next > max as u64 {
            proof {
                if all_digits(digits) {
                    lemma_digits_value_prefix(digits, k + 1);
                }
            }
            return None;
        }
        value = next as u32;
        i = i + 1;
    }
    assert(digits.take(i - start) =~= digits);
    Some(value)
}

/// The character of a decimal digit.
pub open spec fn digit_char(d: nat) -> char {
    (0x30 + d) as char
}

/// The decimal notation of a number, without sign or leading zeros.
pub open spec fn decimal_text(n: nat) -> Seq<char>
    decreases n,
{
    if n < 10 {
        seq![digit_char(n)]
    } else {
        decimal_text(n / 10).push(digit_char(n % 10))
    }
}

/// The bytes of a text of ASCII characters, one for each character.
pub open spec fn ascii_bytes(text: Seq<char>) -> Seq<u8> {
    Seq::new(text.len(), |i: int| text[i] as u8)
}

/// A text of ASCII characters is encoded as one byte for each character.
pub proof fn lemma_ascii_text_bytes(text: Seq<char>)
    requires
        is_ascii_chars(text),
    ensures
        encode_utf8(text) == ascii_bytes(text),
{
    is_ascii_chars_encode_utf8(text);
    assert(encode_utf8(text) =~= ascii_bytes(text));
}

/// The decimal notation of a number is made of ASCII digits, and read as
/// digits it denotes that number.
pub proof fn lemma_decimal_text_digits(n: nat)
    ensures
        is_ascii_chars(decimal_text(n)),
        decimal_text(n).len() > 0,
        all_digits(ascii_bytes(decimal_text(n))),
        digits_value(ascii_bytes(decimal_text(n))) == n,
    decreases n,
{
    let t = decimal_text(n);
    let b = ascii_bytes(t);
    if n < 10 {
        assert(t[0] == digit_char(n));
        assert(b[0] == 0x30 + n);
        assert(b.drop_last() =~= Seq::<u8>::empty());
        assert(digits_value(b.drop_last()) == 0);
    } else {
        let head = decimal_text(n / 10);
        lemma_decimal_text_digits(n / 10);
        assert(t == head.push(digit_char(n % 10)));
        assert(b.drop_last() =~= ascii_bytes(head));
        assert(b.last() == 0x30 + n % 10);
        assert forall|i: int| 0 <= i < b.len() implies is_digit(#[trigger] b[i]) by {
            if i < head.len() {
                assert(b[i] == ascii_bytes(head)[i]);
            }
        }
        assert forall|i: int| 0 <= i < t.len() implies '\0' <= #[trigger] t[i] <= '\u{7f}' by {
            if i < head.len() {
                assert(t[i] == head[i]);
            }
        }
    }
}

/// Reading the decimal notation of a number gives the number back.
pub proof fn lemma_parse_decimal_text(n: nat, max: nat)
    requires
        n <= max,
    ensures
        encode_utf8(decimal_text(n)) == ascii_bytes(decimal_text(n)),
        parse_unsigned(encode_utf8(decimal_text(n)), max) == Some(n),
{
    lemma_decimal_text_digits(n);
    lemma_ascii_text_bytes(decimal_text(n));
    let b = ascii_bytes(decimal_text(n));
    assert(is_digit(b[0]));
}

/// The bytes of ASCII texts joined are the bytes of each, joined.
pub proof fn lemma_ascii_bytes_concat(a: Seq<char>, b: Seq<char>)
    ensures
        ascii_bytes(a + b) == ascii_bytes(a) + ascii_bytes(b),
        is_ascii_chars(a) && is_ascii_chars(b) ==> is_ascii_chars(a + b),
{
    assert(ascii_bytes(a + b) =~= ascii_bytes(a) + ascii_bytes(b));
    if is_ascii_chars(a) && is_ascii_chars(b) {
        assert forall|i: int| 0 <= i < (a + b).len() implies '\0' <= #[trigger] (a + b)[i]
            <= '\u{7f}' by {
            if i < a.len() {
                assert((a + b)[i] == a[i]);
            } else {
                assert((a + b)[i] == b[i - a.len()]);
            }
        }
    }
}

/// Appends one decimal digit to a text.
fn push_digit(text: &mut String, d: u8)
    requires
        d < 10,
    ensures
        final(text)@ == old(text)@.push(digit_char(d as nat)),
{
    proof {
        reveal_strlit("0");
        reveal_strlit("1");
        reveal_strlit("2");
        reveal_strlit("3");
        reveal_strlit("4");
        reveal_strlit("5");
        reveal_strlit("6");
        reveal_strlit("7");
        reveal_strlit("8");
        reveal_strlit("9");
    }
    let ghost before = text@;
    let digit: &str = match d {
        0 => "0",
        1 => "1",
        2 => "2",
        3 => "3",
        4 => "4",
        5 => "5",
        6 => "6",
        7 => "7",
        8 => "8",
        _ => "9",
    };
    assert(digit@ =~= seq![digit_char(d as nat)]);
    text.append(digit);
    assert(text@ =~= before.push(digit_char(d as nat)));
}

/// Appends the decimal notation of a number to a text.
pub fn push_decimal(text: &mut String, n: u16)
    ensures
        final(text)@ == old(text)@ + decimal_text(n as nat),
    decreases n,
{
    let ghost before = text@;
    if n >= 10 {
        push_decimal(text, n / 10);
    }
    push_digit(text, (n % 10) as u8);
    assert(text@ =~= before + decimal_text(n as nat));
}

/// The places of a separator in a text, in rising order.
pub open spec fn separator_positions(s: Seq<u8>, sep: u8) -> Seq<int>
    decreases s.len(),
{
    if s.len() == 0 {
        Seq::empty()
    } else {
        let before = separator_positions(s.drop_last(), sep);
        if s.last() == sep {
            before.push(s.len() - 1)
        } else {
            before
        }
    }
}

/// The field of the given number among those that the separator parts the
/// text into: it reaches from behind the separator before it, or from the
/// start, up to the next separator, or to the end.
pub open spec fn field(s: Seq<u8>, sep: u8, k: int) -> Seq<u8> {
    let p = separator_positions(s, sep);
    let from = if k == 0 {
        0
    } else {
        p[k - 1] + 1
    };
    let to = if k == p.len() {
        s.len() as int
    } else {
        p[k]
    };
    s.subrange(from, to)
}

/// The separator stands at each of its places, the places rise, and they are
/// all the places where it stands.
pub proof fn lemma_separator_positions(s: Seq<u8>, sep: u8)
    ensures
        forall|k: int|
            0 <= k < separator_positions(s, sep).len() ==> 0 <= #[trigger] separator_positions(
                s,
                sep,
            )[k] < s.len() && s[separator_positions(s, sep)[k]] == sep,
        forall|j: int, k: int|
            0 <= j < k < separator_positions(s, sep).len() ==> #[trigger] separator_positions(
                s,
                sep,
            )[j] < #[trigger] separator_positions(s, sep)[k],
        forall|i: int|
            0 <= i < s.len() && s[i] == sep ==> #[trigger] separator_positions(s, sep).contains(i),
        separator_positions(s, sep).len() <= s.len(),
    decreases s.len(),
{
    let p = separator_positions(s, sep);
    if s.len() > 0 {
        let t = s.drop_last();
        let q = separator_positions(t, sep);
        lemma_separator_positions(t, sep);
        assert forall|i: int| 0 <= i < s.len() && s[i] == sep implies #[trigger] p.contains(
            i,
        ) by {
            if i < t.len() {
                assert(t[i] == sep);
                assert(q.contains(i));
                let k = choose|k: int| 0 <= k < q.len() && q[k] == i;
                assert(p[k] == i);
            } else {
                assert(p[p.len() - 1] == i);
            }
        }
    }
}

/// A text without the separator is one field.
pub proof fn lemma_no_separator(s: Seq<u8>, sep: u8)
    requires
        forall|i: int| 0 <= i < s.len() ==> s[i] != sep,
    ensures
        separator_positions(s, sep) == Seq::<int>::empty(),
    decreases s.len(),
{
    if s.len() > 0 {
        lemma_no_separator(s.drop_last(), sep);
    }
}

/// The places of the separator in two texts joined: those in the first, then
/// those in the second, moved by the length of the first.
pub proof fn lemma_separator_positions_concat(a: Seq<u8>, b: Seq<u8>, sep: u8)
    ensures
        separator_positions(a + b, sep) == separator_positions(a, sep) + separator_positions(
            b,
            sep,
        ).map_values(|p: int| p + a.len()),
    decreases b.len(),
{
    let shift = |p: int| p + a.len();
    if b.len() == 0 {
        assert(a + b =~= a);
        assert(separator_positions(b, sep).map_values(shift) =~= Seq::<int>::empty());
        assert(separator_positions(a, sep) + Seq::<int>::empty() =~= separator_positions(a, sep));
    } else {
        let c = b.drop_last();
        lemma_separator_positions_concat(a, c, sep);
        assert((a + b).drop_last() =~= a + c);
        assert((a + b).last() == b.last());
        let pc = separator_positions(c, sep);
        if b.last() == sep {
            assert(pc.push(b.len() - 1).map_values(shift) =~= pc.map_values(shift).push(
                a.len() + b.len() - 1,
            ));
            assert(separator_positions(a + b, sep) =~= separator_positions(a, sep)
                + separator_positions(b, sep).map_values(shift));
        }
    }
}

/// A text made of a first field without the separator, the separator and a
/// rest has the first field as its field 0, and behind it the fields of the
/// rest.
pub proof fn lemma_fields_of_joined(first: Seq<u8>, rest: Seq<u8>, sep: u8)
    requires
        forall|i: int| 0 <= i < first.len() ==> first[i] != sep,
    ensures
        separator_positions(first + seq![sep] + rest, sep).len() == separator_positions(
            rest,
            sep,
        ).len() + 1,
        field(first + seq![sep] + rest, sep, 0) == first,
        forall|k: int|
            1 <= k <= separator_positions(rest, sep).len() + 1 ==> #[trigger] field(
                first + seq![sep] + rest,
                sep,
                k,
            ) == field(rest, sep, k - 1),
{
    let head = first + seq![sep];
    let whole = head + rest;
    let shift = |p: int| p + head.len();
    let q = separator_positions(rest, sep);
    let p = separator_positions(whole, sep);
    lemma_no_separator(first, sep);
    assert(head.drop_last() =~= first);
    assert(separator_positions(head, sep) =~= seq![first.len() as int]);
    lemma_separator_positions_concat(head, rest, sep);
    assert(p =~= seq![first.len() as int] + q.map_values(shift));
    assert(p[0] == first.len());
    assert(whole.subrange(0, first.len() as int) =~= first);
    lemma_separator_positions(rest, sep);
    assert forall|k: int| 1 <= k <= q.len() + 1 implies #[trigger] field(whole, sep, k) == field(
        rest,
        sep,
        k - 1,
    ) by {
        let from = p[k - 1] + 1;
        let to = if k == p.len() {
            whole.len() as int
        } else {
            p[k]
        };
        let from_rest = if k - 1 == 0 {
            0
        } else {
            q[k - 2] + 1
        };
        let to_rest = if k - 1 == q.len() {
            rest.len() as int
        } else {
            q[k - 1]
        };
        if k >= 2 {
            assert(p[k - 1] == q.map_values(shift)[k - 2]);
        }
        if k < p.len() {
            assert(p[k] == q.map_values(shift)[k - 1]);
        }
        assert(from == from_rest + head.len());
        assert(to == to_rest + head.len());
        if k - 1 > 0 && k - 1 < q.len() {
            assert(q[k - 2] < q[k - 1]);
        }
        assert(0 <= from_rest <= to_rest <= rest.len());
        assert(whole.subrange(from, to) =~= rest.subrange(from_rest, to_rest));
    }
}

/// Finds the places of a separator.
pub fn find_separators(bytes: &[u8], sep: u8) -> (r: Vec<usize>)
    ensures
        r@.len() == separator_positions(bytes@, sep).len(),
        forall|k: int| 0 <= k < r@.len() ==> r@[k] as int == separator_positions(bytes@, sep)[k],
{
    let mut found: Vec<usize> = Vec::new();
    let len: usize = bytes.len();
    let mut i: usize = 0;
    while i < len
        invariant
            i <= len,
            len == bytes@.len(),
            found@.len() == separator_positions(bytes@.take(i as int), sep).len(),
            forall|k: int|
                0 <= k < found@.len() ==> found@[k] as int == separator_positions(
                    bytes@.take(i as int),
                    sep,
                )[k],
        decreases len - i,
    {
        proof {
            let t = bytes@.take(i + 1);
            assert(t.drop_last() =~= bytes@.take(i as int));
            assert(t.last() == bytes@[i as int]);
        }
        if bytes[i] == sep {
            found.push(i);
        }
        i = i + 1;
    }
    assert(bytes@.take(len as int) =~= bytes@);
    found
}

/// In well-formed UTF-8 a character starts at an ASCII byte, and another one
/// starts, or the text ends, right behind it.
pub proof fn lemma_ascii_byte_boundaries(bytes: Seq<u8>, i: int)
    requires
        valid_utf8(bytes),
        0 <= i < bytes.len(),
        bytes[i] < 0x80,
    ensures
        is_char_boundary(bytes, i),
        is_char_boundary(bytes, i + 1),
    decreases bytes.len(),
{
    is_char_boundary_iff_not_is_continuation_byte(bytes, i);
    reveal_with_fuel(is_char_boundary, 2);
    if i > 0 {
        let width = length_of_first_scalar(bytes);
        let rest = pop_first_scalar(bytes);
        assert(is_char_boundary(rest, i - width));
        assert(rest[i - width] == bytes[i]);
        lemma_ascii_byte_boundaries(rest, i - width);
    }
}

/// The part of a text between two character boundaries.
fn substring<'a>(text: &'a str, from: usize, to: usize) -> (r: &'a str)
    requires
        from <= to <= text.spec_bytes().len(),
        is_char_boundary(text.spec_bytes(), from as int),
        is_char_boundary(text.spec_bytes(), to as int),
    ensures
        r.spec_bytes() == text.spec_bytes().subrange(from as int, to as int),
{
    let ghost bytes = text.spec_bytes();
    let (head, _) = text.split_at(to);
    proof {
        encode_utf8_valid_utf8(text@);
        valid_utf8_split(bytes, to as int);
        let h = head.spec_bytes();
        assert(h == bytes.subrange(0, to as int));
        if from < to {
            is_char_boundary_iff_not_is_continuation_byte(bytes, from as int);
            is_char_boundary_iff_not_is_continuation_byte(h, from as int);
        } else {
            is_char_boundary_start_end_of_seq(h);
        }
    }
    let (_, part) = head.split_at(from);
    assert(part.spec_bytes() =~= bytes.subrange(from as int, to as int));
    part
}

/// Parts a text at each place of an ASCII separator, as `str::split` does:
/// a text with `n` separators has `n + 1` fields, some of them maybe empty.
pub fn split_fields<'a>(text: &'a str, sep: u8) -> (r: Vec<&'a str>)
    requires
        sep < 0x80,
    ensures
        r@.len() == separator_positions(text.spec_bytes(), sep).len() + 1,
        forall|k: int|
            0 <= k < r@.len() ==> (#[trigger] r@[k]).spec_bytes() == field(
                text.spec_bytes(),
                sep,
                k,
            ),
{
    let bytes = text.as_bytes();
    let places = find_separators(bytes, sep);
    let ghost p = separator_positions(bytes@, sep);
    proof {
        lemma_separator_positions(bytes@, sep);
        encode_utf8_valid_utf8(text@);
        is_char_boundary_start_end_of_seq(bytes@);
    }
    let count: usize = places.len();
    let len: usize = bytes.len();
    let mut fields: Vec<&'a str> = Vec::new();
    let mut from: usize = 0;
    let mut k: usize = 0;
    while k < count
        invariant
            k <= count,
            len == bytes@.len(),
            count == places@.len(),
            count == p.len(),
            p == separator_positions(text.spec_bytes(), sep),
            bytes@ == text.spec_bytes(),
            valid_utf8(bytes@),
            sep < 0x80,
            forall|j: int| 0 <= j < count ==> places@[j] as int == p[j],
            forall|j: int|
                0 <= j < p.len() ==> 0 <= #[trigger] p[j] < bytes@.len() && bytes@[p[j]] == sep,
            forall|i: int, j: int| 0 <= i < j < p.len() ==> #[trigger] p[i] < #[trigger] p[j],
            from as int == (if k == 0 {
                0
            } else {
                p[k - 1] + 1
            }),
            from <= bytes@.len(),
            is_char_boundary(bytes@, from as int),
            fields@.len() == k,
            forall|j: int|
                0 <= j < k ==> (#[trigger] fields@[j]).spec_bytes() == field(bytes@, sep, j),
        decreases count - k,
    {
        let to: usize = places[k];
        proof {
            assert(to as int == p[k as int]);
            if k > 0 {
                assert(p[k - 1] < p[k as int]);
            }
            lemma_ascii_byte_boundaries(bytes@, to as int);
        }
        let part = substring(text, from, to);
        fields.push(part);
        from = to + 1;
        k = k + 1;
    }
    let part = substring(text, from, len);
    fields.push(part);
    fields
}

} // verus!
