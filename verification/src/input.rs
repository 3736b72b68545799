//! Reading the coordinates of a move from a line of text.
//!
//! A line holds two numbers with a comma between them: the row, then the
//! column. White space around the line is ignored. Each number is written in
//! decimal digits, with or without a leading `+`, and is at most 255.

use vstd::prelude::*;

verus! {

/// Why a line of text gives no coordinates.
#[derive(Debug, Clone, Copy, PartialEq, Eq, Structural)]
pub enum ParseError {
    /// The line does not consist of two fields with one comma between them.
    FieldCount,
    /// A field holds no character at all.
    EmptyField,
    /// A field holds something that is not a decimal digit, or a sign alone.
    InvalidDigit,
    /// A field holds a number above 255.
    TooLarge,
}

impl ParseError {
    /// The words in which the error is reported to a player.
    pub open spec fn text(self) -> Seq<char> {
        match self {
            ParseError::FieldCount => "expected a row and a column with a comma between them"@,
            ParseError::EmptyField => "cannot parse integer from empty string"@,
            ParseError::InvalidDigit => "invalid digit found in string"@,
            ParseError::TooLarge => "number too large to fit in target type"@,
        }
    }

    /// Reports the error in words.
    pub fn message(&self) -> (message: String)
        ensures
            message@ == self.text(),
    {
        match self {
            ParseError::FieldCount => {
                "expected a row and a column with a comma between them".to_owned()
            },
            ParseError::EmptyField => "cannot parse integer from empty string".to_owned(),
            ParseError::InvalidDigit => "invalid digit found in string".to_owned(),
            ParseError::TooLarge => "number too large to fit in target type".to_owned(),
        }
    }
}

/// White space: the characters that are ignored around a line.
pub open spec fn is_whitespace(c: char) -> bool {
    let u = c as u32;
    ||| 0x09 <= u <= 0x0d
    ||| u == 0x20
    ||| u == 0x85
    ||| u == 0xa0
    ||| u == 0x1680
    ||| 0x2000 <= u <= 0x200a
    ||| u == 0x2028
    ||| u == 0x2029
    ||| u == 0x202f
    ||| u == 0x205f
    ||| u == 0x3000
}

/// `s` without the white space at its start.
pub open spec fn trim_start(s: Seq<char>) -> Seq<char>
    decreases s.len(),
{
    if s.len() > 0 && is_whitespace(s.first()) {
        trim_start(s.drop_first())
    } else {
        s
    }
}

/// `s` without the white space at its end.
pub open spec fn trim_end(s: Seq<char>) -> Seq<char>
    decreases s.len(),
{
    if s.len() > 0 && is_whitespace(s.last()) {
        trim_end(s.drop_last())
    } else {
        s
    }
}

/// `s` without the white space at its start and at its end.
pub open spec fn trimmed(s: Seq<char>) -> Seq<char> {
    trim_end(trim_start(s))
}

/// The fields of `s`: the pieces between its commas, from left to right. A
/// text without a comma is one field; a text with `n` commas has `n + 1`.
pub open spec fn fields(s: Seq<char>) -> Seq<Seq<char>>
    decreases s.len(),
{
    if s.len() == 0 {
        seq![Seq::<char>::empty()]
    } else {
        let before = fields(s.drop_last());
        if s.last() == ',' {
            before.push(Seq::<char>::empty())
        } else {
            before.drop_last().push(before.last().push(s.last()))
        }
    }
}

/// Whether `c` is one of the decimal digits `0` to `9`.
pub open spec fn is_digit(c: char) -> bool {
    '0' <= c <= '9'
}

/// The number that the digit `c` stands for.
pub open spec fn digit_value(c: char) -> nat {
    (c as u32 - '0' as u32) as nat
}

/// The number that the decimal digits `digits` write.
pub open spec fn decimal(digits: Seq<char>) -> nat
    decreases digits.len(),
{
    if digits.len() == 0 {
        0
    } else {
        10 * decimal(digits.drop_last()) + digit_value(digits.last())
    }
}

/// The digits of the field `field`: all of it but a leading `+`.
pub open spec fn unsigned(field: Seq<char>) -> Seq<char> {
    if field.len() > 0 && field.first() == '+' {
        field.drop_first()
    } else {
        field
    }
}

/// Whether every character of `s` is a decimal digit.
pub open spec fn all_digits(s: Seq<char>) -> bool {
    forall|i: int| 0 <= i < s.len() ==> is_digit(#[trigger] s[i])
}

/// The number that `field` holds, or why it holds none.
pub open spec fn number(field: Seq<char>) -> Result<u8, ParseError> {
    if field.len() == 0 {
        Err(ParseError::EmptyField)
    } else if unsigned(field).len() == 0 || !all_digits(unsigned(field)) {
        Err(ParseError::InvalidDigit)
    } else if decimal(unsigned(field)) > 255 {
        Err(ParseError::TooLarge)
    } else {
        Ok(decimal(unsigned(field)) as u8)
    }
}

/// The row and the column that `line` holds, or why it holds none. Of two
/// faulty fields the first is reported.
pub open spec fn coordinates(line: Seq<char>) -> Result<(u8, u8), ParseError> {
    let parts = fields(trimmed(line));
    if parts.len() != 2 {
        Err(ParseError::FieldCount)
    } else {
        match number(parts[0]) {
            Err(e) => Err(e),
            Ok(row) => match number(parts[1]) {
                Err(e) => Err(e),
                Ok(column) => Ok((row, column)),
            },
        }
    }
}

/// The characters of `line`, one by one.
fn chars_of(line: &str) -> (chars: Vec<char>)
    ensures
        chars@ == line@,
{
    let mut chars: Vec<char> = Vec::new();
    for c in it: line.chars()
        invariant
            it.seq() == line@,
            chars@ == it.seq().take(it.index()),
    {
        chars.push(c);
    }
    chars
}

/// Tells whether `c` is white space.
fn is_space(c: char) -> (res: bool)
    ensures
        res == is_whitespace(c),
{
    let u: u32 = c as u32;
    (0x09 <= u && u <= 0x0d) || u == 0x20 || u == 0x85 || u == 0xa0 || u == 0x1680 || (0x2000 <= u
        && u <= 0x200a) || u == 0x2028 || u == 0x2029 || u == 0x202f || u == 0x205f || u == 0x3000
}

/// Trimming at the start drops exactly the leading run of white space.
proof fn lemma_trim_start(s: Seq<char>, n: int)
    requires
        0 <= n <= s.len(),
        forall|i: int| 0 <= i < n ==> is_whitespace(#[trigger] s[i]),
        n < s.len() ==> !is_whitespace(s[n]),
    ensures
        trim_start(s) == s.skip(n),
    decreases n,
{
    if n == 0 {
        assert(s.skip(0) =~= s);
    } else {
        let rest = s.drop_first();
        assert forall|i: int| 0 <= i < n - 1 implies is_whitespace(#[trigger] rest[i]) by {
            assert(rest[i] == s[i + 1]);
        }
        lemma_trim_start(rest, n - 1);
        assert(rest.skip(n - 1) =~= s.skip(n));
    }
}

/// Trimming at the end drops exactly the trailing run of white space.
proof fn lemma_trim_end(s: Seq<char>, n: int)
    requires
        0 <= n <= s.len(),
        forall|i: int| n <= i < s.len() ==> is_whitespace(#[trigger] s[i]),
        0 < n ==> !is_whitespace(s[n - 1]),
    ensures
        trim_end(s) == s.take(n),
    decreases s.len() - n,
{
    if n == s.len() {
        assert(s.take(n) =~= s);
    } else {
        let rest = s.drop_last();
        lemma_trim_end(rest, n);
        assert(rest.take(n) =~= s.take(n));
    }
}

/// Finds where `chars` starts and ends once the white space around it is
/// left out.
fn trim(chars: &Vec<char>) -> (span: (usize, usize))
    ensures
        span.0 <= span.1 <= chars.len(),
        chars@.subrange(span.0 as int, span.1 as int) == trimmed(chars@),
{
    let n = chars.len();
    let mut from: usize = 0;
    while from < n && is_space(chars[from])
        invariant
            from <= n,
            n == chars.len(),
            forall|i: int| 0 <= i < from ==> is_whitespace(#[trigger] chars@[i]),
        decreases n - from,
    {
        from += 1;
    }
    let mut to: usize = n;
    while to > from && is_space(chars[to - 1])
        invariant
            from <= to <= n,
            n == chars.len(),
            forall|i: int| to <= i < n ==> is_whitespace(#[trigger] chars@[i]),
        decreases to,
    {
        to -= 1;
    }
    proof {
        let rest = chars@.skip(from as int);
        lemma_trim_start(chars@, from as int);
        lemma_trim_end(rest, to - from);
        assert(rest.take(to - from) =~= chars@.subrange(from as int, to as int));
    }
    (from, to)
}

/// The texts that the vectors of `parts` hold.
spec fn texts(parts: Seq<Vec<char>>) -> Seq<Seq<char>> {
    parts.map_values(|part: Vec<char>| part@)
}

/// Splits the characters of `chars` from `from` up to `to` at their commas.
fn split_fields(chars: &Vec<char>, from: usize, to: usize) -> (parts: Vec<Vec<char>>)
    requires
        from <= to <= chars.len(),
    ensures
        texts(parts@) == fields(chars@.subrange(from as int, to as int)),
{
    let mut done: Vec<Vec<char>> = Vec::new();
    let mut current: Vec<char> = Vec::new();
    let mut i: usize = from;
    assert(chars@.subrange(from as int, from as int) =~= Seq::<char>::empty());
    assert(texts(done@).push(current@) =~= seq![Seq::<char>::empty()]);
    while i < to
        invariant
            from <= i <= to <= chars.len(),
            texts(done@).push(current@) == fields(chars@.subrange(from as int, i as int)),
        decreases to - i,
    {
        let c = chars[i];
        proof {
            let next = chars@.subrange(from as int, i + 1);
            assert(next.drop_last() =~= chars@.subrange(from as int, i as int));
            assert(next.last() == c);
        }
        let ghost before = texts(done@).push(current@);
        if c == ',' {
            done.push(current);
            current = Vec::new();
            assert(texts(done@) =~= before);
        } else {
            current.push(c);
            assert(texts(done@).push(current@) =~= before.drop_last().push(
                before.last().push(c),
            ));
        }
        i += 1;
    }
    let ghost before = texts(done@).push(current@);
    done.push(current);
    assert(texts(done@) =~= before);
    done
}

/// Appending a digit to a decimal number multiplies it by ten and adds the digit.
proof fn lemma_decimal_step(digits: Seq<char>, n: int)
    requires
        0 <= n < digits.len(),
    ensures
        decimal(digits.take(n + 1)) == 10 * decimal(digits.take(n)) + digit_value(digits[n]),
{
    assert(digits.take(n + 1).drop_last() =~= digits.take(n));
}

/// Reads the number that `field` holds.
fn parse_number(field: &Vec<char>) -> (res: Result<u8, ParseError>)
    ensures
        res == number(field@),
{
    let n = field.len();
    if n == 0 {
        return Err(ParseError::EmptyField);
    }
    let start: usize = if field[0] == '+' {
        1
    } else {
        0
    };
    if start == n {
        return Err(ParseError::InvalidDigit);
    }
    let ghost digits = unsigned(field@);
    assert(digits =~= field@.skip(start as int));
    let mut value: u16 = 0;
    let mut too_large = false;
    let mut i: usize = start;
    assert(digits.take(0) =~= Seq::<char>::empty());
    while i < n
        invariant
            start <= i <= n,
            n == field.len(),
            digits == field@.skip(start as int),
            digits == unsigned(field@),
            all_digits(digits.take(i - start)),
            !too_large ==> value == decimal(digits.take(i - start)) && value <= 255,
            too_large ==> decimal(digits.take(i - start)) > 255,
        decreases n - i,
    {
        let c = field[i];
        assert(digits[i - start] == c);
        if !('0' <= c && c <= '9') {
            assert(!all_digits(digits));
            return Err(ParseError::InvalidDigit);
        }
        proof {
            lemma_decimal_step(digits, i - start);
            assert forall|j: int| 0 <= j < i - start + 1 implies is_digit(
                #[trigger] digits.take(i - start + 1)[j],
            ) by {
                if j < i - start {
                    assert(digits.take(i - start)[j] == digits[j]);
                }
            }
        }
        if !too_large {
            let next: u16 = value * 10 + (c as u32 - '0' as u32) as u16;
            if next > 255 {
                too_large = true;
            } else {
                value = next;
            }
        }
        i += 1;
    }
    assert(digits.take(n - start) =~= digits);
    if too_large {
        Err(ParseError::TooLarge)
    } else {
        Ok(value as u8)
    }
}

/// Reads the row and the column from a line of text: two numbers with a
/// comma between them.
pub fn parse_coordinates(line: &str) -> (res: Result<(u8, u8), ParseError>)
    ensures
        res == coordinates(line@),
{
    let chars = chars_of(line);
    let (from, to) = trim(&chars);
    let parts = split_fields(&chars, from, to);
    if parts.len() != 2 {
        return Err(ParseError::FieldCount);
    }
    assert(texts(parts@)[0] == parts[0]@);
    assert(texts(parts@)[1] == parts[1]@);
    match parse_number(&parts[0]) {
        Err(e) => Err(e),
        Ok(row) => match parse_number(&parts[1]) {
            Err(e) => Err(e),
            Ok(column) => Ok((row, column)),
        },
    }
}

} // verus!
