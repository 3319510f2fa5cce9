//! The modem's answer to a query of the signal quality.
//!
//! The answer is one line of six numbers and a closing `OK`:
//!
//! ```text
//! +CESQ: 99,99,255,255,31,62\r\nOK\r\n
//! ```
//!
//! Each number is written with one to three decimal digits and is at most
//! 255. The last is the index of the reference signal received power: index
//! `i`, up to 97, stands for `i - 140` dBm, and 255 says that the power is
//! not known.

use vstd::prelude::*;

verus! {

/// The number of fields in a report.
pub const FIELDS: usize = 6;

/// The highest index of received power that stands for a level.
pub const RSRP_MAX_INDEX: u8 = 97;

/// The comma between two fields.
pub const COMMA: u8 = 0x2c;

/// What a report begins with: `+CESQ: `.
pub open spec fn opening() -> Seq<u8> {
    seq![0x2bu8, 0x43u8, 0x45u8, 0x53u8, 0x51u8, 0x3au8, 0x20u8]
}

/// What a report ends with: a line break, `OK`, and a line break.
pub open spec fn closing() -> Seq<u8> {
    seq![0x0du8, 0x0au8, 0x4fu8, 0x4bu8, 0x0du8, 0x0au8]
}

/// The byte is one of `0` to `9`.
pub open spec fn is_digit(byte: u8) -> bool {
    0x30 <= byte <= 0x39
}

/// How many digits stand in `text` from `at` on, up to the first byte that
/// is no digit.
pub open spec fn digits_from(text: Seq<u8>, at: int) -> nat
    decreases text.len() - at,
{
    if 0 <= at < text.len() && is_digit(text[at]) {
        1 + digits_from(text, at + 1)
    } else {
        0
    }
}

/// The number that the decimal digits write, the first digit counting most.
pub open spec fn number(digits: Seq<u8>) -> nat
    decreases digits.len(),
{
    if digits.len() == 0 {
        0
    } else {
        10 * number(digits.drop_last()) + (digits.last() - 0x30) as nat
    }
}

/// The field that stands in `text` at `at`, and where it ends: the digits
/// from `at` on, if there are one to three of them and they write a number
/// up to 255.
pub open spec fn field_at(text: Seq<u8>, at: int) -> Option<(u8, int)> {
    let run = digits_from(text, at);
    let value = number(text.subrange(at, at + run));
    if 1 <= run <= 3 && value <= 255 {
        Some((value as u8, at + run))
    } else {
        None
    }
}

/// Where `word` ends, if it stands in `text` at `at`.
pub open spec fn word_at(text: Seq<u8>, at: int, word: Seq<u8>) -> Option<int> {
    if 0 <= at && at + word.len() <= text.len() && text.subrange(at, at + word.len()) == word {
        Some(at + word.len())
    } else {
        None
    }
}

/// The first `count` fields that stand in `text` from `at` on, with a comma
/// between each two, and where the last of them ends.
pub open spec fn fields_at(text: Seq<u8>, at: int, count: nat) -> Option<(Seq<u8>, int)>
    decreases count,
{
    if count == 0 {
        Some((Seq::empty(), at))
    } else {
        match fields_at(text, at, (count - 1) as nat) {
            None => None,
            Some(earlier) => {
                let start = if count == 1 {
                    Some(earlier.1)
                } else {
                    word_at(text, earlier.1, seq![COMMA])
                };
                match start {
                    None => None,
                    Some(from) => match field_at(text, from) {
                        None => None,
                        Some(field) => Some((earlier.0.push(field.0), field.1)),
                    },
                }
            },
        }
    }
}

/// The six fields of a report: the text is the opening, six fields with
/// commas between them, and the closing, and nothing else.
pub open spec fn report_fields(text: Seq<u8>) -> Option<Seq<u8>> {
    match word_at(text, 0, opening()) {
        None => None,
        Some(start) => match fields_at(text, start, FIELDS as nat) {
            None => None,
            Some(fields) => if word_at(text, fields.1, closing()) == Some(text.len() as int) {
                Some(fields.0)
            } else {
                None
            },
        },
    }
}

/// The received power that a report gives, in dBm: the last field less 140,
/// where the text is a report and the last field is an index up to 97.
pub open spec fn rsrp_dbm_of(text: Seq<u8>) -> Option<i32> {
    match report_fields(text) {
        None => None,
        Some(fields) => if fields[FIELDS - 1] <= RSRP_MAX_INDEX {
            Some((fields[FIELDS - 1] - 140) as i32)
        } else {
            None
        },
    }
}

/// The decimal digits of a number, without leading zeros.
pub open spec fn decimal(value: nat) -> Seq<u8>
    decreases value,
{
    if value < 10 {
        seq![(0x30 + value) as u8]
    } else {
        decimal(value / 10).push((0x30 + value % 10) as u8)
    }
}

/// The fields written out one after the other, with a comma between each
/// two.
pub open spec fn joined(fields: Seq<u8>) -> Seq<u8>
    decreases fields.len(),
{
    if fields.len() == 0 {
        Seq::empty()
    } else if fields.len() == 1 {
        decimal(fields[0] as nat)
    } else {
        joined(fields.drop_last()) + seq![COMMA] + decimal(fields.last() as nat)
    }
}

/// The report that gives these fields.
pub open spec fn report_text(fields: Seq<u8>) -> Seq<u8> {
    opening() + joined(fields) + closing()
}

/// A run of digits counts as long as it is, and then as the text goes on.
proof fn lemma_digits_run(text: Seq<u8>, at: int, end: int)
    requires
        0 <= at <= end <= text.len(),
        forall|k: int| at <= k < end ==> is_digit(#[trigger] text[k]),
    ensures
        digits_from(text, at) == (end - at) + digits_from(text, end),
    decreases end - at,
{
    if at < end {
        lemma_digits_run(text, at + 1, end);
    }
}

fn is_digit_byte(byte: u8) -> (digit: bool)
    ensures
        digit == is_digit(byte),
{
    byte >= 0x30 && byte <= 0x39
}

/// Reads the field that stands in `text` at `at`.
fn read_field(text: &[u8], at: usize) -> (field: Option<(u8, usize)>)
    requires
        at <= text@.len(),
    ensures
        field matches Some(read) ==> field_at(text@, at as int) == Some((read.0, read.1 as int))
            && read.1 <= text@.len(),
        field is None ==> field_at(text@, at as int) is None,
{
    let mut value: u16 = 0;
    let mut next: usize = at;
    while next < text.len() && next - at < 3 && is_digit_byte(text[next])
        invariant
            at <= next <= text@.len(),
            next - at <= 3,
            forall|k: int| at <= k < next ==> is_digit(#[trigger] text@[k]),
            value == number(text@.subrange(at as int, next as int)),
            value <= 999,
            next - at <= 2 ==> value <= 99,
            next - at <= 1 ==> value <= 9,
            next == at ==> value == 0,
        decreases text@.len() - next,
    {
        let digit: u16 = (text[next] - 0x30) as u16;
        proof {
            let longer = text@.subrange(at as int, next + 1);
            assert(longer.drop_last() =~= text@.subrange(at as int, next as int));
            assert(longer.last() == text@[next as int]);
        }
        value = value * 10 + digit;
        next = next + 1;
    }
    proof {
        lemma_digits_run(text@, at as int, next as int);
    }
    if next == at {
        None
    } else if next < text.len() && is_digit_byte(text[next]) {
        proof {
            assert(digits_from(text@, next as int) >= 1);
        }
        None
    } else if value > 255 {
        None
    } else {
        Some((value as u8, next))
    }
}

/// Reads `word` where it stands in `text` at `at`.
fn read_word(text: &[u8], at: usize, word: &[u8]) -> (end: Option<usize>)
    requires
        at <= text@.len(),
    ensures
        end matches Some(after) ==> word_at(text@, at as int, word@) == Some(after as int) && after
            <= text@.len(),
        end is None ==> word_at(text@, at as int, word@) is None,
{
    if word.len() > text.len() - at {
        return None;
    }
    let mut matched: usize = 0;
    while matched < word.len()
        invariant
            matched <= word@.len(),
            at + word@.len() <= text@.len() <= usize::MAX,
            text@.subrange(at as int, at + matched) == word@.take(matched as int),
        decreases word@.len() - matched,
    {
        if text[at + matched] != word[matched] {
            proof {
                let found = text@.subrange(at as int, at + word@.len());
                assert(found[matched as int] != word@[matched as int]);
            }
            return None;
        }
        matched = matched + 1;
        proof {
            assert(text@.subrange(at as int, at + matched) =~= text@.subrange(
                at as int,
                at + matched - 1,
            ).push(text@[at + matched - 1]));
            assert(word@.take(matched as int) =~= word@.take(matched - 1).push(
                word@[matched - 1],
            ));
        }
    }
    proof {
        assert(word@.take(matched as int) =~= word@);
    }
    Some(at + matched)
}

/// Once the fields cannot be read up to some count, they cannot be read up
/// to any greater count.
proof fn lemma_fields_stay_unread(text: Seq<u8>, at: int, count: nat, more: nat)
    requires
        fields_at(text, at, count) is None,
        count <= more,
    ensures
        fields_at(text, at, more) is None,
    decreases more,
{
    if count < more {
        lemma_fields_stay_unread(text, at, count, (more - 1) as nat);
    }
}

/// Reads the six fields of a report.
pub fn parse_report(text: &[u8]) -> (fields: Option<Vec<u8>>)
    ensures
        fields matches Some(read) ==> report_fields(text@) == Some(read@) && read@.len() == FIELDS,
        fields is None ==> report_fields(text@) is None,
{
    let opening_word: [u8; 7] = [0x2b, 0x43, 0x45, 0x53, 0x51, 0x3a, 0x20];
    let closing_word: [u8; 6] = [0x0d, 0x0a, 0x4f, 0x4b, 0x0d, 0x0a];
    let comma_word: [u8; 1] = [COMMA];
    proof {
        assert(opening_word@ =~= opening());
        assert(closing_word@ =~= closing());
        assert(comma_word@ =~= seq![COMMA]);
    }
    let start = match read_word(text, 0, opening_word.as_slice()) {
        None => {
            return None;
        },
        Some(start) => start,
    };
    let mut fields: Vec<u8> = Vec::new();
    let mut cursor: usize = start;
    let mut count: usize = 0;
    while count < FIELDS
        invariant
            count <= FIELDS,
            cursor <= text@.len(),
            comma_word@ == seq![COMMA],
            word_at(text@, 0, opening()) == Some(start as int),
            fields_at(text@, start as int, count as nat) == Some((fields@, cursor as int)),
            fields@.len() == count,
        decreases FIELDS - count,
    {
        let from = if count == 0 {
            cursor
        } else {
            match read_word(text, cursor, comma_word.as_slice()) {
                None => {
                    proof {
                        assert(fields_at(text@, start as int, (count + 1) as nat) is None);
                        lemma_fields_stay_unread(
                            text@,
                            start as int,
                            (count + 1) as nat,
                            FIELDS as nat,
                        );
                    }
                    return None;
                },
                Some(from) => from,
            }
        };
        match read_field(text, from) {
            None => {
                proof {
                    assert(fields_at(text@, start as int, (count + 1) as nat) is None);
                    lemma_fields_stay_unread(
                        text@,
                        start as int,
                        (count + 1) as nat,
                        FIELDS as nat,
                    );
                }
                return None;
            },
            Some(field) => {
                fields.push(field.0);
                cursor = field.1;
                count = count + 1;
            },
        }
    }
    match read_word(text, cursor, closing_word.as_slice()) {
        None => None,
        Some(end) => if end == text.len() {
            Some(fields)
        } else {
            None
        },
    }
}

/// The received power that the modem's answer gives, in dBm. There is none
/// when the answer is no report, and none when the report does not know the
/// power.
pub fn rsrp_dbm(text: &[u8]) -> (dbm: Option<i32>)
    ensures
        dbm == rsrp_dbm_of(text@),
{
    match parse_report(text) {
        None => None,
        Some(fields) => {
            let index: u8 = fields[FIELDS - 1];
            if index <= RSRP_MAX_INDEX {
                Some(index as i32 - 140)
            } else {
                None
            }
        },
    }
}

/// The decimal digits of a number up to 255 are one to three digits that
/// write the number.
proof fn lemma_decimal(value: nat)
    requires
        value <= 255,
    ensures
        1 <= decimal(value).len() <= 3,
        forall|k: int| 0 <= k < decimal(value).len() ==> is_digit(#[trigger] decimal(value)[k]),
        number(decimal(value)) == value,
{
    reveal_with_fuel(decimal, 3);
    reveal_with_fuel(number, 4);
    if value < 10 {
        let digits = decimal(value);
        assert(digits.drop_last() =~= Seq::<u8>::empty());
    } else if value < 100 {
        let digits = decimal(value);
        let tens = decimal(value / 10);
        assert(digits.drop_last() =~= tens);
        assert(tens.drop_last() =~= Seq::<u8>::empty());
    } else {
        let digits = decimal(value);
        let tens = decimal(value / 10);
        let hundreds = decimal(value / 100);
        assert(value / 10 / 10 == value / 100);
        assert(digits.drop_last() =~= tens);
        assert(tens.drop_last() =~= hundreds);
        assert(hundreds.drop_last() =~= Seq::<u8>::empty());
    }
}

/// A number written in decimal is read back as a field, wherever it stands,
/// as long as no digit follows it.
proof fn lemma_decimal_is_read(head: Seq<u8>, value: u8, tail: Seq<u8>)
    requires
        tail.len() == 0 || !is_digit(tail[0]),
    ensures
        field_at(head + decimal(value as nat) + tail, head.len() as int) == Some(
            (value, (head.len() + decimal(value as nat).len()) as int),
        ),
{
    let digits = decimal(value as nat);
    let text = head + digits + tail;
    let at = head.len() as int;
    let end = at + digits.len();
    lemma_decimal(value as nat);
    assert forall|k: int| at <= k < end implies is_digit(#[trigger] text[k]) by {
        assert(text[k] == digits[k - at]);
    }
    lemma_digits_run(text, at, end);
    if tail.len() > 0 {
        assert(text[end] == tail[0]);
    }
    assert(digits_from(text, end) == 0);
    assert(text.subrange(at, end) =~= digits);
}

/// Fields written out with commas between them are read back as they were,
/// wherever they stand, as long as no digit follows them.
proof fn lemma_joined_is_read(head: Seq<u8>, fields: Seq<u8>, tail: Seq<u8>)
    requires
        tail.len() == 0 || !is_digit(tail[0]),
        fields.len() >= 1,
    ensures
        fields_at(head + joined(fields) + tail, head.len() as int, fields.len()) == Some(
            (fields, (head.len() + joined(fields).len()) as int),
        ),
    decreases fields.len(),
{
    let text = head + joined(fields) + tail;
    if fields.len() == 1 {
        lemma_decimal_is_read(head, fields[0], tail);
        assert(fields_at(text, head.len() as int, 0) == Some(
            (Seq::<u8>::empty(), head.len() as int),
        ));
        assert(Seq::<u8>::empty().push(fields[0]) =~= fields);
    } else {
        let earlier = fields.drop_last();
        let last = fields.last();
        let rest = seq![COMMA] + decimal(last as nat) + tail;
        assert(rest[0] == COMMA);
        lemma_joined_is_read(head, earlier, rest);
        assert(head + joined(earlier) + rest =~= text);
        let after = (head.len() + joined(earlier).len()) as int;
        assert(text.subrange(after, after + 1) =~= seq![COMMA]);
        let before = head + joined(earlier) + seq![COMMA];
        lemma_decimal_is_read(before, last, tail);
        assert(before + decimal(last as nat) + tail =~= text);
        assert(earlier.push(last) =~= fields);
        assert(joined(fields).len() == joined(earlier).len() + 1 + decimal(last as nat).len());
    }
}

/// What is written is what is read. The report that gives six fields is
/// read back as those six fields.
pub proof fn law_report_round_trip(fields: Seq<u8>)
    requires
        fields.len() == FIELDS,
    ensures
        report_fields(report_text(fields)) == Some(fields),
        fields[FIELDS - 1] <= RSRP_MAX_INDEX ==> rsrp_dbm_of(report_text(fields)) == Some(
            (fields[FIELDS - 1] - 140) as i32,
        ),
        fields[FIELDS - 1] > RSRP_MAX_INDEX ==> rsrp_dbm_of(report_text(fields)) is None,
{
    let text = report_text(fields);
    assert(text.subrange(0, opening().len() as int) =~= opening());
    lemma_joined_is_read(opening(), fields, closing());
    let after = (opening().len() + joined(fields).len()) as int;
    assert(text.subrange(after, after + closing().len()) =~= closing());
}

} // verus!
