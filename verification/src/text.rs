//! Text: comparison, joining, and decimal numerals.
use vstd::prelude::*;

verus! {

/// Whether two strings hold the same characters.
pub fn same_text(left: &str, right: &str) -> (same: bool)
    ensures
        same == (left@ == right@),
{
    left.to_owned() == right.to_owned()
}

/// The characters of each string in a sequence.
pub open spec fn texts_view(texts: Seq<String>) -> Seq<Seq<char>> {
    Seq::new(texts.len(), |i: int| texts[i]@)
}

/// A copy of a list of strings.
pub fn clone_texts(texts: &Vec<String>) -> (copied: Vec<String>)
    ensures
        texts_view(copied@) == texts_view(texts@),
{
    let mut copied: Vec<String> = Vec::new();
    let mut index: usize = 0;
    while index < texts.len()
        invariant
            index <= texts.len(),
            copied.len() == index,
            forall|i: int| 0 <= i < index ==> copied@[i]@ == texts@[i]@,
        decreases texts.len() - index,
    {
        copied.push(texts[index].clone());
        index += 1;
    }
    copied
}

/// Whether two lists of strings hold the same strings in the same order.
pub fn same_texts(left: &Vec<String>, right: &Vec<String>) -> (same: bool)
    ensures
        same == (texts_view(left@) == texts_view(right@)),
{
    if left.len() != right.len() {
        assert(texts_view(left@).len() != texts_view(right@).len());
        return false;
    }
    let mut index: usize = 0;
    while index < left.len()
        invariant
            index <= left.len(),
            left.len() == right.len(),
            forall|i: int| 0 <= i < index ==> left@[i]@ == right@[i]@,
        decreases left.len() - index,
    {
        if left[index] != right[index] {
            assert(texts_view(left@)[index as int] != texts_view(right@)[index as int]);
            return false;
        }
        index += 1;
    }
    assert(texts_view(left@) =~= texts_view(right@));
    true
}

/// Whether a list of strings holds the given text.
pub fn texts_contain(texts: &Vec<String>, text: &str) -> (found: bool)
    ensures
        found == texts_view(texts@).contains(text@),
{
    let mut index: usize = 0;
    while index < texts.len()
        invariant
            index <= texts.len(),
            forall|i: int| 0 <= i < index ==> texts@[i]@ != text@,
        decreases texts.len() - index,
    {
        if same_text(texts[index].as_str(), text) {
            assert(texts_view(texts@)[index as int] == text@);
            return true;
        }
        index += 1;
    }
    false
}

/// The parts one after another, with the separator between neighbours.
pub open spec fn joined(parts: Seq<Seq<char>>, separator: Seq<char>) -> Seq<char>
    decreases parts.len(),
{
    if parts.len() == 0 {
        Seq::empty()
    } else if parts.len() == 1 {
        parts[0]
    } else {
        joined(parts.drop_last(), separator) + separator + parts.last()
    }
}

/// Join strings with a separator.
pub fn join(parts: &Vec<String>, separator: &str) -> (text: String)
    ensures
        text@ == joined(texts_view(parts@), separator@),
{
    let mut text: String = String::new();
    let mut index: usize = 0;
    let ghost all = texts_view(parts@);
    while index < parts.len()
        invariant
            index <= parts.len(),
            all == texts_view(parts@),
            text@ == joined(all.take(index as int), separator@),
        decreases parts.len() - index,
    {
        proof {
            let next = all.take(index + 1);
            assert(next.drop_last() =~= all.take(index as int));
            assert(next.last() == parts@[index as int]@);
        }
        if index > 0 {
            text.append(separator);
        }
        text.append(parts[index].as_str());
        proof {
            if index == 0 {
                assert(text@ =~= parts@[0]@);
            }
        }
        index += 1;
    }
    assert(all.take(all.len() as int) =~= all);
    text
}

/// Whether a character is an uppercase letter in the sense of Unicode, as
/// `char::is_uppercase` decides it.
pub uninterp spec fn uppercase_char(c: char) -> bool;

/// Calls `char::is_uppercase`, which tells whether a character has the Unicode
/// property `Uppercase`. The answer depends on the character alone.
#[verifier::external_body]
fn char_is_uppercase(c: char) -> (uppercase: bool)
    ensures
        uppercase == uppercase_char(c),
{
    c.is_uppercase()
}

/// Whether a name begins with an uppercase letter.
pub open spec fn starts_uppercase(name: Seq<char>) -> bool {
    name.len() > 0 && uppercase_char(name[0])
}

/// Whether a name begins with an uppercase letter.
pub fn begins_uppercase(name: &str) -> (uppercase: bool)
    ensures
        uppercase == starts_uppercase(name@),
{
    if name.unicode_len() == 0 {
        false
    } else {
        char_is_uppercase(name.get_char(0))
    }
}

/// Whether a character is a lowercase letter in the sense of Unicode, as
/// `char::is_lowercase` decides it.
pub uninterp spec fn lowercase_char(c: char) -> bool;

/// Calls `char::is_lowercase`, which tells whether a character has the Unicode
/// property `Lowercase`. The answer depends on the character alone.
#[verifier::external_body]
fn char_is_lowercase(c: char) -> (lowercase: bool)
    ensures
        lowercase == lowercase_char(c),
{
    c.is_lowercase()
}

/// Whether a name begins with a lowercase letter.
pub open spec fn starts_lowercase(name: Seq<char>) -> bool {
    name.len() > 0 && lowercase_char(name[0])
}

/// Whether a name begins with a lowercase letter.
pub fn begins_lowercase(name: &str) -> (lowercase: bool)
    ensures
        lowercase == starts_lowercase(name@),
{
    if name.unicode_len() == 0 {
        false
    } else {
        char_is_lowercase(name.get_char(0))
    }
}

/// `before` followed by `middle` and `after`.
pub fn concat3(before: &str, middle: &str, after: &str) -> (text: String)
    ensures
        text@ == before@ + middle@ + after@,
{
    let mut text: String = before.to_owned();
    text.append(middle);
    text.append(after);
    text
}

/// Two pieces of text in order.
pub fn concat2(a: &str, b: &str) -> (text: String)
    ensures
        text@ == a@ + b@,
{
    let mut text: String = a.to_owned();
    text.append(b);
    text
}

/// Four pieces of text in order.
pub fn concat4(a: &str, b: &str, c: &str, d: &str) -> (text: String)
    ensures
        text@ == a@ + b@ + c@ + d@,
{
    let mut text: String = concat3(a, b, c);
    text.append(d);
    text
}

/// Five pieces of text in order.
pub fn concat5(a: &str, b: &str, c: &str, d: &str, e: &str) -> (text: String)
    ensures
        text@ == a@ + b@ + c@ + d@ + e@,
{
    let mut text: String = concat3(a, b, c);
    text.append(d);
    text.append(e);
    text
}

/// Six pieces of text in order.
pub fn concat6(a: &str, b: &str, c: &str, d: &str, e: &str, f: &str) -> (text: String)
    ensures
        text@ == a@ + b@ + c@ + d@ + e@ + f@,
{
    let mut text: String = concat5(a, b, c, d, e);
    text.append(f);
    text
}

/// Seven pieces of text in order.
pub fn concat7(a: &str, b: &str, c: &str, d: &str, e: &str, f: &str, g: &str) -> (text: String)
    ensures
        text@ == a@ + b@ + c@ + d@ + e@ + f@ + g@,
{
    let mut text: String = concat6(a, b, c, d, e, f);
    text.append(g);
    text
}

/// Eight pieces of text in order.
pub fn concat8(
    a: &str,
    b: &str,
    c: &str,
    d: &str,
    e: &str,
    f: &str,
    g: &str,
    h: &str,
) -> (text: String)
    ensures
        text@ == a@ + b@ + c@ + d@ + e@ + f@ + g@ + h@,
{
    let mut text: String = concat7(a, b, c, d, e, f, g);
    text.append(h);
    text
}

/// The decimal digit with the given value.
pub open spec fn digit_char(value: int) -> char {
    (48 + value) as char
}

pub open spec fn is_digit(c: char) -> bool {
    '0' <= c <= '9'
}

/// The decimal numeral of a natural number, without leading zeros.
pub open spec fn decimal(value: nat) -> Seq<char>
    decreases value,
{
    if value < 10 {
        seq![digit_char(value as int)]
    } else {
        decimal(value / 10).push(digit_char((value % 10) as int))
    }
}

/// The decimal numeral of an integer.
pub open spec fn signed_decimal(value: int) -> Seq<char> {
    if value < 0 {
        seq!['-'] + decimal((-value) as nat)
    } else {
        decimal(value as nat)
    }
}

fn push_digit(text: &mut String, value: u64)
    requires
        value < 10,
    ensures
        final(text)@ == old(text)@.push(digit_char(value as int)),
{
    let digits: &str = "0123456789";
    proof {
        reveal_strlit("0123456789");
    }
    text.append(digits.substring_char(value as usize, value as usize + 1));
    assert(digits@.subrange(value as int, value + 1) =~= seq![digit_char(value as int)]);
    assert(text@ =~= old(text)@.push(digit_char(value as int)));
}

/// The decimal numeral of an unsigned integer.
pub fn unsigned_text(value: u64) -> (text: String)
    ensures
        text@ == decimal(value as nat),
    decreases value,
{
    if value < 10 {
        let mut text: String = String::new();
        push_digit(&mut text, value);
        assert(text@ =~= decimal(value as nat));
        text
    } else {
        let mut text: String = unsigned_text(value / 10);
        push_digit(&mut text, value % 10);
        text
    }
}

/// The decimal numeral of a signed integer.
pub fn signed_text(value: i64) -> (text: String)
    ensures
        text@ == signed_decimal(value as int),
{
    if value < 0 {
        let magnitude: u64 = if value == i64::MIN {
            9223372036854775808
        } else {
            (-value) as u64
        };
        let mut text: String = "-".to_owned();
        proof {
            reveal_strlit("-");
        }
        let digits: String = unsigned_text(magnitude);
        text.append(digits.as_str());
        assert(text@ =~= signed_decimal(value as int));
        text
    } else {
        unsigned_text(value as u64)
    }
}

/// The value of a string of decimal digits.
pub open spec fn digits_value(digits: Seq<char>) -> nat
    decreases digits.len(),
{
    if digits.len() == 0 {
        0
    } else {
        digits_value(digits.drop_last()) * 10 + (digits.last() as nat - 48) as nat
    }
}

pub open spec fn all_digits(text: Seq<char>) -> bool {
    forall|i: int| 0 <= i < text.len() ==> is_digit(#[trigger] text[i])
}

/// The integer that a numeral denotes: an optional sign and at least one digit.
pub open spec fn numeral_value(text: Seq<char>) -> Option<int> {
    if text.len() > 1 && (text[0] == '-' || text[0] == '+') && all_digits(text.skip(1)) {
        let magnitude = digits_value(text.skip(1)) as int;
        Some(
            if text[0] == '-' {
                -magnitude
            } else {
                magnitude
            },
        )
    } else if text.len() > 0 && all_digits(text) {
        Some(digits_value(text) as int)
    } else {
        None
    }
}

proof fn digits_value_bounds(digits: Seq<char>, prefix: int)
    requires
        0 <= prefix <= digits.len(),
        all_digits(digits),
    ensures
        digits_value(digits.take(prefix)) <= digits_value(digits),
    decreases digits.len() - prefix,
{
    if prefix == digits.len() {
        assert(digits.take(prefix) =~= digits);
    } else {
        digits_value_bounds(digits, prefix + 1);
        let longer = digits.take(prefix + 1);
        assert(longer.drop_last() =~= digits.take(prefix));
        assert(is_digit(digits[prefix]));
    }
}

/// The value of the digits from `start` on, if there are only digits there and
/// the value is at most `limit`.
fn parse_digits(text: &str, start: usize, limit: u64) -> (value: Option<u64>)
    requires
        start <= text@.len(),
        limit <= 18446744073709551605,
    ensures
        match value {
            Some(value) => all_digits(text@.skip(start as int)) && value == digits_value(
                text@.skip(start as int),
            ) && value <= limit,
            None => !all_digits(text@.skip(start as int)) || digits_value(
                text@.skip(start as int),
            ) > limit,
        },
{
    let ghost digits = text@.skip(start as int);
    let length: usize = text.unicode_len();
    let mut index: usize = start;
    let mut value: u64 = 0;
    while index < length
        invariant
            start <= index <= length,
            length == text@.len(),
            digits == text@.skip(start as int),
            limit <= 18446744073709551605,
            value <= limit,
            forall|i: int| 0 <= i < index - start ==> is_digit(#[trigger] digits[i]),
            value == digits_value(digits.take(index - start)),
        decreases length - index,
    {
        let c: char = text.get_char(index);
        assert(c == digits[index - start]);
        if c < '0' || c > '9' {
            assert(!is_digit(digits[index - start]));
            return None;
        }
        let digit: u64 = c as u64 - 48;
        proof {
            let longer = digits.take(index + 1 - start);
            assert(longer.drop_last() =~= digits.take(index - start));
            assert(longer.last() == c);
            assert(digits_value(longer) == value * 10 + digit);
        }
        if digit > limit || value > (limit - digit) / 10 {
            proof {
                if all_digits(digits) {
                    digits_value_bounds(digits, index + 1 - start);
                }
            }
            return None;
        }
        value = value * 10 + digit;
        index += 1;
    }
    assert(digits.take(digits.len() as int) =~= digits);
    Some(value)
}

/// Read a signed 64-bit numeral.
pub fn parse_i64(text: &str) -> (value: Option<i64>)
    ensures
        match value {
            Some(value) => numeral_value(text@) == Some(value as int),
            None => match numeral_value(text@) {
                Some(value) => value < i64::MIN || value > i64::MAX,
                None => true,
            },
        },
{
    let length: usize = text.unicode_len();
    if length == 0 {
        return None;
    }
    let first: char = text.get_char(0);
    if first == '-' || first == '+' {
        assert(!is_digit(text@[0]));
        if length == 1 {
            return None;
        }
        if first == '-' {
            match parse_digits(text, 1, 9223372036854775808) {
                Some(magnitude) => {
                    if magnitude == 9223372036854775808 {
                        Some(i64::MIN)
                    } else {
                        Some(-(magnitude as i64))
                    }
                },
                None => None,
            }
        } else {
            match parse_digits(text, 1, 9223372036854775807) {
                Some(magnitude) => Some(magnitude as i64),
                None => None,
            }
        }
    } else {
        assert(text@.skip(0) =~= text@);
        match parse_digits(text, 0, 9223372036854775807) {
            Some(magnitude) => Some(magnitude as i64),
            None => None,
        }
    }
}

/// The numeral of a number consists of digits and denotes that number.
pub proof fn decimal_is_digits(value: nat)
    ensures
        decimal(value).len() > 0,
        all_digits(decimal(value)),
        digits_value(decimal(value)) == value,
    decreases value,
{
    if value < 10 {
        let digits = decimal(value);
        reveal_with_fuel(digits_value, 2);
        assert(digits.drop_last() =~= Seq::<char>::empty());
        assert(digits.last() == digit_char(value as int));
    } else {
        decimal_is_digits(value / 10);
        let digits = decimal(value);
        assert(digits.drop_last() =~= decimal(value / 10));
        assert(digits.last() == digit_char((value % 10) as int));
    }
}

/// Reading back the numeral of an integer gives that integer.
pub proof fn numeral_of_integer_reads_back(value: int)
    ensures
        numeral_value(signed_decimal(value)) == Some(value),
{
    let text = signed_decimal(value);
    if value < 0 {
        decimal_is_digits((-value) as nat);
        assert(text.skip(1) =~= decimal((-value) as nat));
    } else {
        decimal_is_digits(value as nat);
        assert(is_digit(text[0]));
    }
}

/// The characters of a numeral without the `_` separators.
pub open spec fn without_separators(text: Seq<char>) -> Seq<char>
    decreases text.len(),
{
    if text.len() == 0 {
        Seq::empty()
    } else if text.last() == '_' {
        without_separators(text.drop_last())
    } else {
        without_separators(text.drop_last()).push(text.last())
    }
}

/// Drop the `_` separators of a numeral.
pub fn remove_separators(text: &str) -> (plain: String)
    ensures
        plain@ == without_separators(text@),
{
    let length: usize = text.unicode_len();
    let mut plain: String = String::new();
    let mut index: usize = 0;
    while index < length
        invariant
            index <= length,
            length == text@.len(),
            plain@ == without_separators(text@.take(index as int)),
        decreases length - index,
    {
        proof {
            let longer = text@.take(index + 1);
            assert(longer.drop_last() =~= text@.take(index as int));
            assert(longer.last() == text@[index as int]);
        }
        if text.get_char(index) != '_' {
            let ghost before = plain@;
            plain.append(text.substring_char(index, index + 1));
            assert(text@.subrange(index as int, index + 1) =~= seq![text@[index as int]]);
            assert(plain@ =~= before.push(text@[index as int]));
        }
        index += 1;
    }
    assert(text@.take(length as int) =~= text@);
    plain
}

} // verus!
