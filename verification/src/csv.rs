//! Records as lines of comma-separated text.

use vstd::prelude::*;
use vstd::string::StringExecFns;
use crate::record::{CarrierRecord, RecordView};
use crate::text::{chars_of, string_of};

verus! {

/// The character that writes the digit `d`.
pub open spec fn digit_char(d: nat) -> char
    recommends
        d < 10,
{
    ('0' as u8 + d as u8) as char
}

/// The digits that write `n` in base ten, with no zero in front.
pub open spec fn number_text(n: nat) -> Seq<char>
    decreases n,
{
    if n < 10 {
        seq![digit_char(n)]
    } else {
        number_text(n / 10).push(digit_char(n % 10))
    }
}

/// `value` as a field of a line: within double quotes where it holds a
/// comma, and as it is where it holds none.
pub open spec fn field(value: Seq<char>) -> Seq<char> {
    if value.contains(',') {
        seq!['"'] + value + seq!['"']
    } else {
        value
    }
}

/// The line of a record: operator, country, region, the number of
/// subscribers as `subscribers` writes it, and the network code, with commas
/// between them.
pub open spec fn line(record: RecordView, subscribers: Seq<char>) -> Seq<char> {
    field(record.operator) + seq![','] + field(record.country) + seq![','] + field(record.region)
        + seq![','] + subscribers + seq![','] + number_text(record.mccmnc as nat)
}

/// `lines` one after the other, with a line feed between one and the next.
pub open spec fn joined(lines: Seq<Seq<char>>) -> Seq<char>
    decreases lines.len(),
{
    if lines.len() == 0 {
        Seq::empty()
    } else if lines.len() == 1 {
        lines[0]
    } else {
        joined(lines.drop_last()) + seq!['\n'] + lines.last()
    }
}

/// Writes `n` in base ten.
pub fn decimal_text(n: u32) -> (text: String)
    ensures
        text@ == number_text(n as nat),
{
    // The digits from the last to the first.
    let mut digits: Vec<char> = Vec::new();
    let mut rest: u32 = n;
    while rest >= 10
        invariant
            number_text(n as nat) == number_text(rest as nat) + digits@.reverse(),
        decreases rest,
    {
        let digit = ('0' as u8 + (rest % 10) as u8) as char;
        proof {
            assert(digits@.push(digit).reverse() =~= seq![digit] + digits@.reverse());
            assert(number_text(rest as nat) == number_text((rest / 10) as nat).push(digit));
            assert(number_text((rest / 10) as nat).push(digit) + digits@.reverse() =~= number_text(
                (rest / 10) as nat,
            ) + (seq![digit] + digits@.reverse()));
        }
        digits.push(digit);
        rest = rest / 10;
    }
    let digit = ('0' as u8 + rest as u8) as char;
    proof {
        assert(digits@.push(digit).reverse() =~= seq![digit] + digits@.reverse());
    }
    digits.push(digit);
    let mut text: Vec<char> = Vec::new();
    let mut left: usize = digits.len();
    while left > 0
        invariant
            left <= digits.len(),
            text@.len() == digits.len() - left,
            forall|i: int| 0 <= i < text@.len() ==> text@[i] == digits@[digits.len() - 1 - i],
        decreases left,
    {
        left -= 1;
        text.push(digits[left]);
    }
    assert(text@ =~= digits@.reverse());
    string_of(&text)
}

/// Whether `value` holds a comma.
fn has_comma(value: &Vec<char>) -> (found: bool)
    ensures
        found == value@.contains(','),
{
    let mut at: usize = 0;
    while at < value.len()
        invariant
            at <= value.len(),
            forall|i: int| 0 <= i < at ==> value@[i] != ',',
        decreases value.len() - at,
    {
        if value[at] == ',' {
            return true;
        }
        at += 1;
    }
    false
}

/// Makes `value` a field of a line: it is put within double quotes where it
/// holds a comma.
pub fn check_string(value: &str) -> (checked: String)
    ensures
        checked@ == field(value@),
{
    if has_comma(&chars_of(value)) {
        proof {
            reveal_strlit("\"");
        }
        let mut checked = "\"".to_owned();
        checked.append(value);
        checked.append("\"");
        assert(checked@ =~= seq!['"'] + value@ + seq!['"']);
        checked
    } else {
        value.to_owned()
    }
}

/// The line that names the columns, with the line feed that ends it.
pub fn csv_header() -> (header: String)
    ensures
        header@ == "Operator,Country,Region,Subscribers,MCCMNC\n"@,
{
    "Operator,Country,Region,Subscribers,MCCMNC\n".to_owned()
}

/// The line of `record`, with `subscribers` as the text of its number of
/// subscribers.
pub fn csv_line(record: &CarrierRecord, subscribers: &str) -> (text: String)
    ensures
        text@ == line(record@, subscribers@),
{
    proof {
        reveal_strlit(",");
    }
    let mut text = check_string(record.operator());
    text.append(",");
    text.append(check_string(record.country()).as_str());
    text.append(",");
    text.append(check_string(record.region()).as_str());
    text.append(",");
    text.append(subscribers);
    text.append(",");
    text.append(decimal_text(record.mccmnc()).as_str());
    assert(text@ =~= line(record@, subscribers@));
    text
}

/// The text of a file: the header line, then `lines` with a line feed
/// between one and the next.
pub fn csv_text(lines: &Vec<String>) -> (text: String)
    ensures
        text@ == "Operator,Country,Region,Subscribers,MCCMNC\n"@ + joined(
            lines@.map_values(|line: String| line@),
        ),
{
    let ghost all = lines@.map_values(|line: String| line@);
    let mut body = String::new();
    let mut at: usize = 0;
    while at < lines.len()
        invariant
            at <= lines.len(),
            all == lines@.map_values(|line: String| line@),
            body@ == joined(all.take(at as int)),
        decreases lines.len() - at,
    {
        proof {
            reveal_strlit("\n");
            assert(all.take(at + 1).drop_last() == all.take(at as int));
            assert(all.take(at + 1).last() == lines@[at as int]@);
        }
        if at > 0 {
            body.append("\n");
        }
        body.append(lines[at].as_str());
        assert(body@ == joined(all.take(at + 1))) by {
            if at == 0 {
                assert(body@ =~= lines@[0]@);
            }
        }
        at += 1;
    }
    assert(all.take(lines.len() as int) == all);
    let mut text = csv_header();
    text.append(body.as_str());
    text
}

} // verus!
