use vstd::prelude::*;
use vstd::utf8::valid_utf8;

use crate::bytes::{bytes_equal, push_all, text_bytes};
use crate::digest::utf8_text;
use crate::error::{ApplicationError, ApplicationErrorCategory, ApplicationResult, failure, forbidden};
use crate::hex::{
    decode_hex, hex_bytes, hex_digit, hex_value, is_hex_text, law_hex_round_trip,
    lemma_ascii_bytes_valid_utf8,
};

verus! {

/// The schema tag that opens every catalog cursor.
pub open spec fn cursor_schema() -> Seq<u8> {
    seq![
        112u8, 111, 114, 116, 102, 111, 108, 105, 111, 45, 99, 97, 116, 97, 108, 111, 103, 45, 99,
        117, 114, 115, 111, 114, 47, 118, 49,
    ]
}

/// The byte that separates the fields of a cursor, `:`.
pub open spec fn separator() -> u8 {
    58
}

/// The decimal digits of a natural number, without sign or leading zeros.
pub open spec fn decimal_bytes(value: nat) -> Seq<u8>
    decreases value,
{
    if value < 10 {
        seq![(48 + value) as u8]
    } else {
        decimal_bytes(value / 10).push((48 + value % 10) as u8)
    }
}

/// An ASCII decimal digit.
pub open spec fn is_digit(byte: u8) -> bool {
    48 <= byte <= 57
}

/// The value of a string of decimal digits.
pub open spec fn digits_value(digits: Seq<u8>) -> nat
    decreases digits.len(),
{
    if digits.len() == 0 {
        0
    } else {
        digits_value(digits.drop_last()) * 10 + (digits.last() - 48) as nat
    }
}

/// The digits of a `u64` field: an optional `+`, then one or more decimal digits.
pub open spec fn unsigned_digits(field: Seq<u8>) -> Seq<u8> {
    if field.len() > 0 && field[0] == 43 {
        field.drop_first()
    } else {
        field
    }
}

/// How `str::parse::<u64>` reads a field: an optional `+` and one or more decimal digits whose
/// value fits `u64`; anything else is refused.
pub open spec fn parsed_u64(field: Seq<u8>) -> Option<u64> {
    let digits = unsigned_digits(field);
    if digits.len() > 0 && (forall|i: int| 0 <= i < digits.len() ==> #[trigger] is_digit(digits[i]))
        && digits_value(digits) <= u64::MAX {
        Some(digits_value(digits) as u64)
    } else {
        None
    }
}

/// The fields of a text split at every separator, as `str::split(':')` yields them.
pub open spec fn split_fields(bytes: Seq<u8>) -> Seq<Seq<u8>>
    decreases bytes.len(),
{
    if bytes.len() == 0 {
        seq![Seq::empty()]
    } else {
        let rest = split_fields(bytes.drop_last());
        if bytes.last() == separator() {
            rest.push(Seq::empty())
        } else {
            rest.update(rest.len() - 1, rest.last().push(bytes.last()))
        }
    }
}

/// The opaque value of a catalog cursor: the schema, the filter fingerprint, the book code,
/// group path and portfolio code of the sort key in hexadecimal, and its version in decimal.
pub open spec fn cursor_bytes(
    fingerprint: Seq<u8>,
    book: Seq<u8>,
    group: Seq<u8>,
    portfolio: Seq<u8>,
    version: u64,
) -> Seq<u8> {
    cursor_schema() + seq![separator()] + hex_bytes(fingerprint) + seq![separator()] + hex_bytes(
        book,
    ) + seq![separator()] + hex_bytes(group) + seq![separator()] + hex_bytes(portfolio) + seq![
        separator(),
    ] + decimal_bytes(version as nat)
}

/// The sort key a cursor resumes at, if it is a cursor of this schema for this filter: six
/// fields, the schema, the filter's fingerprint, three hexadecimal UTF-8 texts and a version.
pub open spec fn cursor_key(text: Seq<u8>, fingerprint: Seq<u8>) -> Option<
    (Seq<u8>, Seq<u8>, Seq<u8>, u64),
> {
    let f = split_fields(text);
    if f.len() == 6 && f[0] == cursor_schema() && f[1] == hex_bytes(fingerprint) && is_hex_text(f[2])
        && valid_utf8(hex_value(f[2])) && is_hex_text(f[3]) && valid_utf8(hex_value(f[3]))
        && is_hex_text(f[4]) && valid_utf8(hex_value(f[4])) && parsed_u64(f[5]) is Some {
        Some((hex_value(f[2]), hex_value(f[3]), hex_value(f[4]), parsed_u64(f[5])->0))
    } else {
        None
    }
}

/// The position in the catalog that a page continues from.
#[derive(Clone, Debug, PartialEq, Eq)]
pub struct CatalogCursorKey {
    pub book_code: String,
    pub group_path: String,
    pub portfolio_code: String,
    pub version: u64,
}

// Proofs about the pieces of a cursor.
/// A text split into fields always has at least one field.
pub proof fn lemma_split_nonempty(bytes: Seq<u8>)
    ensures
        split_fields(bytes).len() >= 1,
    decreases bytes.len(),
{
    if bytes.len() > 0 {
        lemma_split_nonempty(bytes.drop_last());
    }
}

/// A text without separators is one field.
pub proof fn lemma_split_single(bytes: Seq<u8>)
    requires
        forall|i: int| 0 <= i < bytes.len() ==> #[trigger] bytes[i] != separator(),
    ensures
        split_fields(bytes) == seq![bytes],
    decreases bytes.len(),
{
    if bytes.len() > 0 {
        let prefix = bytes.drop_last();
        assert forall|i: int| 0 <= i < prefix.len() implies #[trigger] prefix[i] != separator() by {
            assert(prefix[i] == bytes[i]);
        }
        lemma_split_single(prefix);
        assert(prefix.push(bytes.last()) =~= bytes);
        assert(split_fields(bytes) =~= seq![bytes]);
    } else {
        assert(bytes =~= Seq::<u8>::empty());
    }
}

/// Splitting at a separator splits the two sides independently.
pub proof fn lemma_split_concat(a: Seq<u8>, b: Seq<u8>)
    ensures
        split_fields(a + seq![separator()] + b) == split_fields(a) + split_fields(b),
    decreases b.len(),
{
    let whole = a + seq![separator()] + b;
    lemma_split_nonempty(a);
    if b.len() == 0 {
        assert(whole.drop_last() =~= a);
        assert(split_fields(b) =~= seq![Seq::<u8>::empty()]);
        assert(split_fields(whole) =~= split_fields(a) + split_fields(b));
    } else {
        let shorter = b.drop_last();
        assert(whole.drop_last() =~= a + seq![separator()] + shorter);
        lemma_split_concat(a, shorter);
        lemma_split_nonempty(shorter);
        assert(whole.last() == b.last());
        let left = split_fields(a);
        let right = split_fields(shorter);
        if b.last() == separator() {
            assert(split_fields(whole) =~= split_fields(a) + split_fields(b));
        } else {
            assert((left + right).update(
                (left + right).len() - 1,
                (left + right).last().push(b.last()),
            ) =~= left + right.update(right.len() - 1, right.last().push(b.last())));
            assert(split_fields(whole) =~= split_fields(a) + split_fields(b));
        }
    }
}

pub(crate) proof fn lemma_decimal_digits(value: nat)
    ensures
        decimal_bytes(value).len() > 0,
        forall|i: int|
            0 <= i < decimal_bytes(value).len() ==> #[trigger] is_digit(decimal_bytes(value)[i]),
        digits_value(decimal_bytes(value)) == value,
    decreases value,
{
    let d = decimal_bytes(value);
    if value >= 10 {
        lemma_decimal_digits(value / 10);
        assert(d.drop_last() =~= decimal_bytes(value / 10));
        assert(value == (value / 10) * 10 + value % 10);
        assert(d.last() - 48 == value % 10);
        assert(digits_value(d) == digits_value(d.drop_last()) * 10 + (d.last() - 48) as nat);
    } else {
        assert(d.drop_last() =~= Seq::<u8>::empty());
        assert(digits_value(d.drop_last()) == 0);
        assert(digits_value(d) == digits_value(d.drop_last()) * 10 + (d.last() - 48) as nat);
    }
}

/// Parsing the decimal digits of a `u64` gives it back.
pub proof fn lemma_parse_decimal(value: u64)
    ensures
        parsed_u64(decimal_bytes(value as nat)) == Some(value),
        forall|i: int|
            0 <= i < decimal_bytes(value as nat).len() ==> #[trigger] decimal_bytes(value as nat)[i]
                != separator(),
{
    let d = decimal_bytes(value as nat);
    lemma_decimal_digits(value as nat);
    assert(!(d[0] == 43)) by {
        assert(is_digit(d[0]));
    }
    assert(unsigned_digits(d) == d);
    assert forall|i: int| 0 <= i < d.len() implies #[trigger] d[i] != separator() by {
        assert(is_digit(d[i]));
    }
}

proof fn lemma_hex_no_separator(bytes: Seq<u8>)
    ensures
        forall|i: int| 0 <= i < hex_bytes(bytes).len() ==> #[trigger] hex_bytes(bytes)[i] != separator(),
        forall|i: int| 0 <= i < hex_bytes(bytes).len() ==> #[trigger] hex_bytes(bytes)[i] < 128,
{
    assert forall|i: int| 0 <= i < hex_bytes(bytes).len() implies #[trigger] hex_bytes(bytes)[i]
        != separator() && hex_bytes(bytes)[i] < 128 by {
        let b = bytes[i / 2];
        assert(0 <= (b / 16) as int <= 15);
        assert(0 <= (b % 16) as int <= 15);
    }
}

/// A cursor's fields are exactly the parts it was built from.
pub proof fn lemma_cursor_fields(
    fingerprint: Seq<u8>,
    book: Seq<u8>,
    group: Seq<u8>,
    portfolio: Seq<u8>,
    version: u64,
)
    ensures
        split_fields(cursor_bytes(fingerprint, book, group, portfolio, version)) == seq![
            cursor_schema(),
            hex_bytes(fingerprint),
            hex_bytes(book),
            hex_bytes(group),
            hex_bytes(portfolio),
            decimal_bytes(version as nat),
        ],
{
    let s = cursor_schema();
    let f = hex_bytes(fingerprint);
    let b = hex_bytes(book);
    let g = hex_bytes(group);
    let p = hex_bytes(portfolio);
    let v = decimal_bytes(version as nat);
    let sep = seq![separator()];
    assert forall|i: int| 0 <= i < s.len() implies #[trigger] s[i] != separator() by {
        reveal_with_fuel(cursor_schema, 1);
    }
    lemma_hex_no_separator(fingerprint);
    lemma_hex_no_separator(book);
    lemma_hex_no_separator(group);
    lemma_hex_no_separator(portfolio);
    lemma_parse_decimal(version);
    lemma_split_single(s);
    lemma_split_single(f);
    lemma_split_single(b);
    lemma_split_single(g);
    lemma_split_single(p);
    lemma_split_single(v);
    let t1 = s + sep + f;
    let t2 = t1 + sep + b;
    let t3 = t2 + sep + g;
    let t4 = t3 + sep + p;
    let t5 = t4 + sep + v;
    lemma_split_concat(s, f);
    lemma_split_concat(t1, b);
    lemma_split_concat(t2, g);
    lemma_split_concat(t3, p);
    lemma_split_concat(t4, v);
    assert(cursor_bytes(fingerprint, book, group, portfolio, version) == t5);
    assert(split_fields(t5) =~= seq![s, f, b, g, p, v]);
}

/// A cursor issued for a filter and a sort key resumes, under the same filter, at exactly
/// that sort key.
pub proof fn law_cursor_round_trip(
    fingerprint: Seq<u8>,
    book: Seq<char>,
    group: Seq<char>,
    portfolio: Seq<char>,
    version: u64,
)
    ensures
        cursor_key(
            cursor_bytes(
                fingerprint,
                text_bytes(book),
                text_bytes(group),
                text_bytes(portfolio),
                version,
            ),
            fingerprint,
        ) == Some((text_bytes(book), text_bytes(group), text_bytes(portfolio), version)),
{
    lemma_cursor_fields(
        fingerprint,
        text_bytes(book),
        text_bytes(group),
        text_bytes(portfolio),
        version,
    );
    law_hex_round_trip(text_bytes(book));
    law_hex_round_trip(text_bytes(group));
    law_hex_round_trip(text_bytes(portfolio));
    vstd::utf8::encode_utf8_valid_utf8(book);
    vstd::utf8::encode_utf8_valid_utf8(group);
    vstd::utf8::encode_utf8_valid_utf8(portfolio);
    lemma_parse_decimal(version);
}

// Executable encoding and decoding.
fn push_hex(bytes: &mut Vec<u8>, value: &[u8])
    ensures
        final(bytes)@ == old(bytes)@ + hex_bytes(value@),
{
    let ghost start = bytes@;
    let mut i: usize = 0;
    while i < value.len()
        invariant
            i <= value@.len(),
            bytes@ == start + hex_bytes(value@.subrange(0, i as int)),
        decreases value.len() - i,
    {
        let byte = value[i];
        let high = byte / 16;
        let low = byte % 16;
        bytes.push(if high < 10 { 48 + high } else { 87 + high });
        bytes.push(if low < 10 { 48 + low } else { 87 + low });
        proof {
            let next = value@.subrange(0, i + 1);
            let prev = value@.subrange(0, i as int);
            assert forall|k: int| 0 <= k < 2 * next.len() implies #[trigger] (start + hex_bytes(
                next,
            ))[k] == bytes@[k] by {
                if k >= start.len() {
                    let m = k - start.len();
                    if m < 2 * i {
                        assert(next[m / 2] == prev[m / 2]);
                    }
                }
            }
            assert(bytes@ =~= start + hex_bytes(next));
        }
        i = i + 1;
    }
    assert(value@.subrange(0, value@.len() as int) =~= value@);
}

pub(crate) fn push_decimal(bytes: &mut Vec<u8>, value: u64)
    ensures
        final(bytes)@ == old(bytes)@ + decimal_bytes(value as nat),
    decreases value,
{
    if value >= 10 {
        push_decimal(bytes, value / 10);
    }
    bytes.push(48 + (value % 10) as u8);
    proof {
        if value >= 10 {
            assert(decimal_bytes(value as nat) == decimal_bytes((value / 10) as nat).push(
                (48 + value % 10) as u8,
            ));
        }
    }
}

/// The opaque value of the cursor that continues a listing after a sort key.
pub fn issue_cursor_text(fingerprint: &[u8], key: &CatalogCursorKey) -> (text: String)
    ensures
        text_bytes(text@) == cursor_bytes(
            fingerprint@,
            text_bytes(key.book_code@),
            text_bytes(key.group_path@),
            text_bytes(key.portfolio_code@),
            key.version,
        ),
{
    let mut bytes: Vec<u8> = vec![
        112u8, 111, 114, 116, 102, 111, 108, 105, 111, 45, 99, 97, 116, 97, 108, 111, 103, 45, 99,
        117, 114, 115, 111, 114, 47, 118, 49,
    ];
    assert(bytes@ =~= cursor_schema());
    bytes.push(58);
    push_hex(&mut bytes, fingerprint);
    bytes.push(58);
    push_hex(&mut bytes, key.book_code.as_str().as_bytes());
    bytes.push(58);
    push_hex(&mut bytes, key.group_path.as_str().as_bytes());
    bytes.push(58);
    push_hex(&mut bytes, key.portfolio_code.as_str().as_bytes());
    bytes.push(58);
    push_decimal(&mut bytes, key.version);
    let ghost expected = cursor_bytes(
        fingerprint@,
        text_bytes(key.book_code@),
        text_bytes(key.group_path@),
        text_bytes(key.portfolio_code@),
        key.version,
    );
    proof {
        assert(bytes@ =~= expected);
        lemma_hex_no_separator(fingerprint@);
        lemma_hex_no_separator(text_bytes(key.book_code@));
        lemma_hex_no_separator(text_bytes(key.group_path@));
        lemma_hex_no_separator(text_bytes(key.portfolio_code@));
        lemma_decimal_digits(key.version as nat);
        assert forall|i: int| 0 <= i < expected.len() implies #[trigger] expected[i] < 128 by {
            let d = decimal_bytes(key.version as nat);
            if i >= expected.len() - d.len() {
                assert(is_digit(d[i - (expected.len() - d.len())]));
            }
        }
        lemma_ascii_bytes_valid_utf8(bytes@);
    }
    match utf8_text(bytes.as_slice()) {
        Some(text) => text,
        None => {
            assert(false);
            String::new()
        },
    }
}

fn split_at_separators(bytes: &[u8]) -> (fields: Vec<Vec<u8>>)
    ensures
        fields@.map_values(|f: Vec<u8>| f@) == split_fields(bytes@),
{
    let mut done: Vec<Vec<u8>> = Vec::new();
    let mut current: Vec<u8> = Vec::new();
    let mut i: usize = 0;
    while i < bytes.len()
        invariant
            i <= bytes@.len(),
            done@.map_values(|f: Vec<u8>| f@).push(current@) == split_fields(
                bytes@.subrange(0, i as int),
            ),
        decreases bytes.len() - i,
    {
        let ghost prefix = bytes@.subrange(0, i as int);
        let ghost next = bytes@.subrange(0, i + 1);
        assert(next.drop_last() =~= prefix);
        if bytes[i] == 58 {
            let finished = current;
            done.push(finished);
            current = Vec::new();
            proof {
                assert(done@.map_values(|f: Vec<u8>| f@).push(current@) =~= split_fields(next));
            }
        } else {
            current.push(bytes[i]);
            proof {
                assert(done@.map_values(|f: Vec<u8>| f@).push(current@) =~= split_fields(next));
            }
        }
        i = i + 1;
    }
    assert(bytes@.subrange(0, bytes@.len() as int) =~= bytes@);
    done.push(current);
    assert(done@.map_values(|f: Vec<u8>| f@) =~= split_fields(bytes@));
    done
}

proof fn lemma_digits_value_grows(digits: Seq<u8>, n: int)
    requires
        0 <= n <= digits.len(),
        forall|i: int| 0 <= i < digits.len() ==> #[trigger] is_digit(digits[i]),
    ensures
        digits_value(digits.subrange(0, n)) <= digits_value(digits),
    decreases digits.len() - n,
{
    if n < digits.len() {
        lemma_digits_value_grows(digits, n + 1);
        assert(digits.subrange(0, n + 1).drop_last() =~= digits.subrange(0, n));
    } else {
        assert(digits.subrange(0, n) =~= digits);
    }
}

/// Reads a `u64` field as `str::parse::<u64>` does.
pub fn parse_u64_field(field: &[u8]) -> (value: Option<u64>)
    ensures
        value == parsed_u64(field@),
{
    let start: usize = if field.len() > 0 && field[0] == 43 {
        1
    } else {
        0
    };
    let ghost digits = unsigned_digits(field@);
    assert(digits =~= field@.subrange(start as int, field@.len() as int));
    if start == field.len() {
        return None;
    }
    let mut value: u64 = 0;
    let mut i: usize = start;
    while i < field.len()
        invariant
            start <= i <= field@.len(),
            digits == unsigned_digits(field@),
            digits =~= field@.subrange(start as int, field@.len() as int),
            forall|k: int| 0 <= k < i - start ==> #[trigger] is_digit(digits[k]),
            value == digits_value(digits.subrange(0, i - start)),
        decreases field.len() - i,
    {
        let byte = field[i];
        let ghost k = i - start;
        assert(digits[k] == byte);
        if byte < 48 || byte > 57 {
            assert(!is_digit(digits[k]));
            return None;
        }
        assert(digits.subrange(0, k + 1).drop_last() =~= digits.subrange(0, k));
        assert(digits_value(digits.subrange(0, k + 1)) == value * 10 + (byte - 48));
        let scaled = match value.checked_mul(10) {
            Some(v) => v,
            None => {
                proof {
                    if forall|q: int| 0 <= q < digits.len() ==> #[trigger] is_digit(digits[q]) {
                        lemma_digits_value_grows(digits, k + 1);
                    }
                }
                return None;
            },
        };
        let next = match scaled.checked_add((byte - 48) as u64) {
            Some(v) => v,
            None => {
                proof {
                    if forall|q: int| 0 <= q < digits.len() ==> #[trigger] is_digit(digits[q]) {
                        lemma_digits_value_grows(digits, k + 1);
                    }
                }
                return None;
            },
        };
        value = next;
        i = i + 1;
    }
    assert(digits.subrange(0, digits.len() as int) =~= digits);
    Some(value)
}

/// The sort key a cursor resumes at under a filter; `Forbidden` for any cursor that is not
/// one of this schema for this filter.
pub fn parse_cursor_text(opaque: &str, fingerprint: &[u8]) -> (result: ApplicationResult<
    CatalogCursorKey,
>)
    ensures
        result is Ok <==> cursor_key(text_bytes(opaque@), fingerprint@) is Some,
        result matches Ok(key) ==> cursor_key(text_bytes(opaque@), fingerprint@) == Some(
            (
                text_bytes(key.book_code@),
                text_bytes(key.group_path@),
                text_bytes(key.portfolio_code@),
                key.version,
            ),
        ),
        result matches Err(e) ==> e == failure(ApplicationErrorCategory::Forbidden),
{
    let fields = split_at_separators(opaque.as_bytes());
    let ghost views = fields@.map_values(|f: Vec<u8>| f@);
    if fields.len() != 6 {
        return Err(forbidden());
    }
    assert(views[0] == fields@[0]@ && views[1] == fields@[1]@ && views[2] == fields@[2]@);
    assert(views[3] == fields@[3]@ && views[4] == fields@[4]@ && views[5] == fields@[5]@);
    let schema: Vec<u8> = vec![
        112u8, 111, 114, 116, 102, 111, 108, 105, 111, 45, 99, 97, 116, 97, 108, 111, 103, 45, 99,
        117, 114, 115, 111, 114, 47, 118, 49,
    ];
    assert(schema@ =~= cursor_schema());
    if !bytes_equal(fields[0].as_slice(), schema.as_slice()) {
        return Err(forbidden());
    }
    let mut expected_fingerprint: Vec<u8> = Vec::new();
    push_hex(&mut expected_fingerprint, fingerprint);
    assert(expected_fingerprint@ =~= hex_bytes(fingerprint@));
    if !bytes_equal(fields[1].as_slice(), expected_fingerprint.as_slice()) {
        return Err(forbidden());
    }
    let book = match decode_hex(fields[2].as_slice()) {
        Some(bytes) => match utf8_text(bytes.as_slice()) {
            Some(text) => text,
            None => {
                return Err(forbidden());
            },
        },
        None => {
            return Err(forbidden());
        },
    };
    let group = match decode_hex(fields[3].as_slice()) {
        Some(bytes) => match utf8_text(bytes.as_slice()) {
            Some(text) => text,
            None => {
                return Err(forbidden());
            },
        },
        None => {
            return Err(forbidden());
        },
    };
    let portfolio = match decode_hex(fields[4].as_slice()) {
        Some(bytes) => match utf8_text(bytes.as_slice()) {
            Some(text) => text,
            None => {
                return Err(forbidden());
            },
        },
        None => {
            return Err(forbidden());
        },
    };
    let version = match parse_u64_field(fields[5].as_slice()) {
        Some(v) => v,
        None => {
            return Err(forbidden());
        },
    };
    Ok(CatalogCursorKey { book_code: book, group_path: group, portfolio_code: portfolio, version })
}

} // verus!
