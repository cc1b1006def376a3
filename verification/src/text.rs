//! Source text: how it is normalised before a diff, how it is cut into lines,
//! and how numbers are written and read.

use vstd::prelude::*;
use vstd::string::*;

verus! {

/// `String::push` appends one character to the end of the string.
pub assume_specification[ std::string::String::push ](s: &mut std::string::String, ch: char)
    ensures
        final(s)@ == old(s)@.push(ch),
;

/// Text with every carriage return taken out.
pub open spec fn without_returns(text: Seq<char>) -> Seq<char> {
    text.filter(|c: char| c != '\r')
}

/// Text that is empty or ends with a newline: a newline is added where the last
/// line lacks one.
pub open spec fn newline_terminated(text: Seq<char>) -> Seq<char> {
    if text.len() == 0 || text.last() == '\n' {
        text
    } else {
        text.push('\n')
    }
}

/// The text that is compared, given the text of a file.
pub open spec fn normalized(text: Seq<char>, strip_cr: bool) -> Seq<char> {
    newline_terminated(
        if strip_cr {
            without_returns(text)
        } else {
            text
        },
    )
}

fn remove_returns(text: &str) -> (r: String)
    ensures
        r@ == without_returns(text@),
{
    let mut out = String::new();
    let ghost keep = |c: char| c != '\r';
    for c in it: text.chars()
        invariant
            it.seq() == text@,
            keep == (|c: char| c != '\r'),
            out@ == text@.take(it.index() as int).filter(keep),
    {
        proof {
            let i = it.index() as int;
            assert(text@.take(i + 1).drop_last() =~= text@.take(i));
            reveal(Seq::filter);
        }
        if c != '\r' {
            out.push(c);
        }
    }
    proof {
        assert(text@.take(text@.len() as int) =~= text@);
    }
    out
}

/// Prepares the text of one side for the comparison: carriage returns go where
/// `strip_cr` asks for that, and text that is not empty ends with a newline.
pub fn normalize_source(text: String, strip_cr: bool) -> (r: String)
    ensures
        r@ == normalized(text@, strip_cr),
{
    let mut out = if strip_cr {
        remove_returns(text.as_str())
    } else {
        text
    };
    let length: usize = out.as_str().unicode_len();
    if length > 0 && out.as_str().get_char(length - 1) != '\n' {
        out.push('\n');
    }
    out
}

/// The lines of a text: the pieces between its newlines, of which there is one
/// more than there are newlines.
pub open spec fn lines_of(text: Seq<char>) -> Seq<Seq<char>>
    decreases text.len(),
{
    if text.len() == 0 {
        seq![Seq::<char>::empty()]
    } else {
        let before = lines_of(text.drop_last());
        if text.last() == '\n' {
            before.push(Seq::<char>::empty())
        } else {
            before.update(before.len() - 1, before.last().push(text.last()))
        }
    }
}

/// Lines put together again, with a newline between each two.
pub open spec fn joined(lines: Seq<Seq<char>>) -> Seq<char>
    decreases lines.len(),
{
    if lines.len() == 0 {
        Seq::empty()
    } else if lines.len() == 1 {
        lines[0]
    } else {
        joined(lines.drop_last()).push('\n') + lines.last()
    }
}

/// The contents of each string of a list.
pub open spec fn texts(lines: Seq<String>) -> Seq<Seq<char>> {
    lines.map_values(|line: String| line@)
}

/// Cuts a text at its newlines.
pub fn split_lines(text: &str) -> (r: Vec<String>)
    ensures
        texts(r@) == lines_of(text@),
{
    let mut done: Vec<String> = Vec::new();
    let mut current = String::new();
    proof {
        assert(texts(done@).push(current@) =~= lines_of(text@.take(0)));
    }
    for c in it: text.chars()
        invariant
            it.seq() == text@,
            texts(done@).push(current@) == lines_of(text@.take(it.index() as int)),
    {
        proof {
            let i = it.index() as int;
            assert(text@.take(i + 1).drop_last() =~= text@.take(i));
        }
        let ghost before = texts(done@).push(current@);
        if c == '\n' {
            done.push(current);
            current = String::new();
            proof {
                assert(texts(done@) =~= before);
            }
        } else {
            current.push(c);
            proof {
                assert(texts(done@).push(current@) =~= before.update(
                    before.len() - 1,
                    before.last().push(c),
                ));
            }
        }
    }
    proof {
        assert(text@.take(text@.len() as int) =~= text@);
    }
    let ghost before = texts(done@).push(current@);
    done.push(current);
    proof {
        assert(texts(done@) =~= before);
    }
    done
}

/// The character that stands for a digit.
pub open spec fn digit_char(digit: nat) -> char {
    if digit == 0 {
        '0'
    } else if digit == 1 {
        '1'
    } else if digit == 2 {
        '2'
    } else if digit == 3 {
        '3'
    } else if digit == 4 {
        '4'
    } else if digit == 5 {
        '5'
    } else if digit == 6 {
        '6'
    } else if digit == 7 {
        '7'
    } else if digit == 8 {
        '8'
    } else {
        '9'
    }
}

/// A number in decimal notation, without leading zeros.
pub open spec fn decimal(number: nat) -> Seq<char>
    decreases number,
{
    if number < 10 {
        seq![digit_char(number)]
    } else {
        decimal(number / 10).push(digit_char(number % 10))
    }
}

fn digit_to_char(digit: usize) -> (r: char)
    requires
        digit < 10,
    ensures
        r == digit_char(digit as nat),
{
    match digit {
        0 => '0',
        1 => '1',
        2 => '2',
        3 => '3',
        4 => '4',
        5 => '5',
        6 => '6',
        7 => '7',
        8 => '8',
        _ => '9',
    }
}

/// Appends a number in decimal notation.
pub fn push_decimal(out: &mut String, number: usize)
    ensures
        final(out)@ == old(out)@ + decimal(number as nat),
    decreases number,
{
    if number >= 10 {
        push_decimal(out, number / 10);
    }
    out.push(digit_to_char(number % 10));
    proof {
        assert(out@ =~= old(out)@ + decimal(number as nat));
    }
}

/// Whether a character is one of the ten decimal digits.
pub open spec fn is_digit(c: char) -> bool {
    '0' <= c <= '9'
}

/// The number that a run of decimal digits stands for.
pub open spec fn digits_value(digits: Seq<char>) -> nat
    decreases digits.len(),
{
    if digits.len() == 0 {
        0
    } else {
        (digits_value(digits.drop_last()) * 10 + (digits.last() as nat - '0' as nat)) as nat
    }
}

/// The digits of a written number: what follows its plus sign, where it has one.
pub open spec fn unsigned_part(text: Seq<char>) -> Seq<char> {
    if text.len() > 0 && text[0] == '+' {
        text.skip(1)
    } else {
        text
    }
}

/// The number that a text stands for: at least one decimal digit and nothing
/// else but one plus sign in front, and small enough for a `usize`.
pub open spec fn parsed_usize(text: Seq<char>) -> Option<usize> {
    let digits = unsigned_part(text);
    if digits.len() > 0 && (forall|i: int| 0 <= i < digits.len() ==> is_digit(#[trigger] digits[i]))
        && digits_value(digits) <= usize::MAX {
        Some(digits_value(digits) as usize)
    } else {
        None
    }
}

/// A longer run of digits never stands for a smaller number.
proof fn lemma_digits_value_grows(digits: Seq<char>, n: int)
    requires
        0 <= n <= digits.len(),
        forall|i: int| 0 <= i < digits.len() ==> is_digit(#[trigger] digits[i]),
    ensures
        digits_value(digits.take(n)) <= digits_value(digits),
    decreases digits.len() - n,
{
    if n == digits.len() {
        assert(digits.take(n) =~= digits);
    } else {
        lemma_digits_value_grows(digits, n + 1);
        assert(digits.take(n + 1).drop_last() =~= digits.take(n));
        assert(is_digit(digits[n]));
    }
}

/// Reads a number in decimal notation. Anything else gives `None`, also a number
/// that is too large.
pub fn parse_usize(text: &str) -> (r: Option<usize>)
    ensures
        r == parsed_usize(text@),
{
    let length: usize = text.unicode_len();
    let first: usize = if length > 0 && text.get_char(0) == '+' {
        1
    } else {
        0
    };
    let ghost digits = unsigned_part(text@);
    if length == first {
        return None;
    }
    let mut value: usize = 0;
    let mut position: usize = 0;
    for c in it: text.chars()
        invariant
            it.seq() == text@,
            position == it.index(),
            length == text@.len(),
            first == (if text@.len() > 0 && text@[0] == '+' { 1int } else { 0int }),
            first < length,
            digits == unsigned_part(text@),
            digits == text@.skip(first as int),
            position < first ==> value == 0,
            position >= first ==> value == digits_value(digits.take(position - first)),
            forall|i: int| 0 <= i < position - first ==> is_digit(#[trigger] digits[i]),
    {
        if position >= first {
            let ghost n = position - first;
            proof {
                assert(digits[n] == c);
                assert(digits.take(n + 1).drop_last() =~= digits.take(n));
            }
            if !('0' <= c && c <= '9') {
                proof {
                    assert(!is_digit(digits[n]));
                }
                return None;
            }
            let digit: usize = (c as usize) - ('0' as usize);
            match value.checked_mul(10) {
                Some(shifted) => {
                    match shifted.checked_add(digit) {
                        Some(sum) => {
                            value = sum;
                        },
                        None => {
                            proof {
                                if parsed_usize(text@) is Some {
                                    lemma_digits_value_grows(digits, n + 1);
                                }
                            }
                            return None;
                        },
                    }
                },
                None => {
                    proof {
                        if parsed_usize(text@) is Some {
                            lemma_digits_value_grows(digits, n + 1);
                        }
                    }
                    return None;
                },
            }
        } else {
            proof {
                assert(digits.take(0) =~= Seq::<char>::empty());
            }
        }
        position = position + 1;
    }
    proof {
        assert(digits.take(digits.len() as int) =~= digits);
    }
    Some(value)
}

/// A text that is compared is empty or ends with a newline, and preparing it
/// again changes nothing. Where carriage returns go, none is left.
pub proof fn law_normalized_text(text: Seq<char>, strip_cr: bool)
    ensures
        normalized(text, strip_cr).len() > 0 ==> normalized(text, strip_cr).last() == '\n',
        normalized(normalized(text, strip_cr), strip_cr) == normalized(text, strip_cr),
        strip_cr ==> !normalized(text, strip_cr).contains('\r'),
        !text.contains('\r') ==> normalized(text, strip_cr) == newline_terminated(text),
{
    lemma_filter_keeps_only(text);
    if strip_cr {
        let out = normalized(text, strip_cr);
        assert(!out.contains('\r')) by {
            if out.contains('\r') {
                let i = choose|i: int| 0 <= i < out.len() && out[i] == '\r';
                assert(i < without_returns(text).len());
                assert(without_returns(text).contains(without_returns(text)[i]));
            }
        }
        lemma_filter_keeps_all(out);
    }
    if !text.contains('\r') {
        lemma_filter_keeps_all(text);
    }
}

/// Whether a text, once carriage returns are gone where they go, has a last line
/// without a newline.
pub open spec fn lacks_newline(text: Seq<char>, strip_cr: bool) -> bool {
    let kept = if strip_cr {
        without_returns(text)
    } else {
        text
    };
    kept.len() > 0 && kept.last() != '\n'
}

/// A missing final newline never shows: a text whose last line lacks its newline
/// is compared as the text that has it.
pub proof fn law_final_newline_hidden(text: Seq<char>, strip_cr: bool)
    requires
        lacks_newline(text, strip_cr),
    ensures
        normalized(text.push('\n'), strip_cr) == normalized(text, strip_cr),
{
    reveal(Seq::filter);
    assert(text.push('\n').drop_last() =~= text);
}

proof fn lemma_filter_keeps_only(text: Seq<char>)
    ensures
        !without_returns(text).contains('\r'),
    decreases text.len(),
{
    reveal(Seq::filter);
    if text.len() > 0 {
        lemma_filter_keeps_only(text.drop_last());
        let before = without_returns(text.drop_last());
        if without_returns(text).contains('\r') {
            let i = choose|i: int|
                0 <= i < without_returns(text).len() && without_returns(text)[i] == '\r';
            if i < before.len() {
                assert(before[i] == '\r');
                assert(before.contains('\r'));
            }
        }
    }
}

proof fn lemma_filter_keeps_all(text: Seq<char>)
    requires
        !text.contains('\r'),
    ensures
        without_returns(text) == text,
    decreases text.len(),
{
    reveal(Seq::filter);
    if text.len() > 0 {
        assert(!text.drop_last().contains('\r')) by {
            if text.drop_last().contains('\r') {
                let i = choose|i: int|
                    0 <= i < text.drop_last().len() && text.drop_last()[i] == '\r';
                assert(text[i] == '\r');
            }
        }
        lemma_filter_keeps_all(text.drop_last());
        assert(text.contains(text.last()));
        assert(text.drop_last().push(text.last()) =~= text);
    } else {
        assert(without_returns(text) =~= text);
    }
}

/// The lines of a text, put together again, are the text, and no line has a
/// newline in it.
pub proof fn law_lines_rejoin(text: Seq<char>)
    ensures
        joined(lines_of(text)) == text,
        lines_of(text).len() > 0,
        forall|i: int| 0 <= i < lines_of(text).len() ==> !(#[trigger] lines_of(text)[i]).contains('\n'),
    decreases text.len(),
{
    let lines = lines_of(text);
    if text.len() == 0 {
        assert(joined(lines) =~= text);
    } else {
        law_lines_rejoin(text.drop_last());
        let before = lines_of(text.drop_last());
        assert(text =~= text.drop_last().push(text.last()));
        if text.last() == '\n' {
            assert(lines.drop_last() =~= before);
            assert(joined(lines) =~= text);
        } else {
            assert(lines.drop_last() =~= before.drop_last());
            assert(joined(lines) =~= text);
            assert forall|i: int| 0 <= i < lines.len() implies !(#[trigger] lines[i]).contains(
                '\n',
            ) by {
                if i < before.len() - 1 {
                    assert(lines[i] == before[i]);
                } else {
                    let old_line = before[before.len() - 1];
                    assert(!old_line.contains('\n'));
                    if lines[i].contains('\n') {
                        let k = choose|k: int| 0 <= k < lines[i].len() && lines[i][k] == '\n';
                        assert(k < old_line.len());
                        assert(old_line[k] == '\n');
                    }
                }
            }
        }
    }
}

/// What is compared, told by two texts at a time. Without stripping, the text is
/// kept and at most a final newline is added. With stripping, a carriage return
/// makes no difference wherever it stands, and a text that has none is compared as
/// it is without stripping.
pub proof fn law_normalized_by_characters(text: Seq<char>, rest: Seq<char>)
    ensures
        text.len() == 0 || text[text.len() - 1] == '\n' ==> normalized(text, false) == text,
        text.len() > 0 && text[text.len() - 1] != '\n' ==> normalized(text, false) == text + seq![
            '\n',
        ],
        normalized(text + seq!['\r'] + rest, true) == normalized(text + rest, true),
        (forall|i: int| 0 <= i < text.len() ==> #[trigger] text[i] != '\r') ==> normalized(
            text,
            true,
        ) == normalized(text, false),
{
    assert(text.push('\n') =~= text + seq!['\n']);
    lemma_return_dropped(text, rest);
    if forall|i: int| 0 <= i < text.len() ==> #[trigger] text[i] != '\r' {
        assert(!text.contains('\r'));
        lemma_filter_keeps_all(text);
    }
}

proof fn lemma_return_dropped(text: Seq<char>, rest: Seq<char>)
    ensures
        without_returns(text + seq!['\r'] + rest) == without_returns(text + rest),
    decreases rest.len(),
{
    reveal(Seq::filter);
    let long = text + seq!['\r'] + rest;
    let short = text + rest;
    if rest.len() == 0 {
        assert(long.drop_last() =~= short);
    } else {
        lemma_return_dropped(text, rest.drop_last());
        assert(long.drop_last() =~= text + seq!['\r'] + rest.drop_last());
        assert(short.drop_last() =~= text + rest.drop_last());
        assert(long.last() == short.last());
    }
}

/// Where a text is cut: a text without a newline is one line, and a first line
/// with its newline is cut off in front of the lines of what follows.
pub proof fn law_lines_cut_at_newlines(line: Seq<char>, rest: Seq<char>)
    requires
        forall|i: int| 0 <= i < line.len() ==> #[trigger] line[i] != '\n',
    ensures
        lines_of(line) == seq![line],
        lines_of(line + seq!['\n'] + rest) == seq![line] + lines_of(rest),
    decreases line.len() + rest.len(),
{
    if rest.len() > 0 {
        law_lines_cut_at_newlines(line, rest.drop_last());
        let whole = line + seq!['\n'] + rest;
        assert(whole.drop_last() =~= line + seq!['\n'] + rest.drop_last());
        law_lines_rejoin(rest.drop_last());
        assert(lines_of(whole) =~= seq![line] + lines_of(rest));
    } else {
        lemma_one_line(line);
        let whole = line + seq!['\n'] + rest;
        assert(whole.drop_last() =~= line);
        assert(lines_of(whole) =~= seq![line] + lines_of(rest));
    }
    lemma_one_line(line);
}

proof fn lemma_one_line(line: Seq<char>)
    requires
        forall|i: int| 0 <= i < line.len() ==> #[trigger] line[i] != '\n',
    ensures
        lines_of(line) == seq![line],
    decreases line.len(),
{
    if line.len() > 0 {
        lemma_one_line(line.drop_last());
        assert(line.drop_last().push(line.last()) =~= line);
        assert(lines_of(line) =~= seq![line]);
    } else {
        assert(line =~= Seq::<char>::empty());
        assert(lines_of(line) =~= seq![line]);
    }
}

/// The contents of a list of strings are those of its strings, one by one.
pub proof fn law_texts(lines: Seq<String>)
    ensures
        texts(lines).len() == lines.len(),
        forall|i: int| 0 <= i < lines.len() ==> #[trigger] texts(lines)[i] == lines[i]@,
{
}

/// A number is written with its last digit last, and in front of it the rest of
/// the number, where there is any.
pub proof fn law_decimal_digits(number: nat)
    ensures
        decimal(number).len() > 0,
        decimal(number)[decimal(number).len() - 1] as int == '0' as int + number % 10,
        number < 10 ==> decimal(number).len() == 1,
        number >= 10 ==> decimal(number).take(decimal(number).len() - 1) == decimal(number / 10),
{
    assert(number >= 10 ==> decimal(number).take(decimal(number).len() - 1) =~= decimal(
        number / 10,
    ));
}

/// How a number is read, one more character at a time: a digit is its value, a
/// digit behind a number gives ten times the number and the digit, a plus sign in
/// front of the first digit changes nothing, and anything else is no number. A
/// number that is too large is none either.
pub proof fn law_number_read(text: Seq<char>, c: char)
    ensures
        parsed_usize(Seq::empty()) is None,
        parsed_usize(seq!['+']) is None,
        '0' <= c <= '9' ==> parsed_usize(seq![c]) == Some((c as int - '0' as int) as usize),
        !('0' <= c <= '9') ==> parsed_usize(seq![c]) is None,
        parsed_usize(seq!['+', c]) == parsed_usize(seq![c]),
        text.len() > 0 && text != seq!['+'] ==> parsed_usize(text + seq![c]) == (
        match parsed_usize(text) {
            Some(number) => if '0' <= c <= '9' && number * 10 + (c as int - '0' as int)
                <= usize::MAX {
                Some((number * 10 + (c as int - '0' as int)) as usize)
            } else {
                None
            },
            None => None,
        }),
{
    assert(text + seq![c] =~= text.push(c));
    let one = seq![c];
    assert(one.drop_last() =~= Seq::<char>::empty());
    assert(digits_value(one) == (c as nat - '0' as nat) as nat || !is_digit(c)) by {
        reveal_with_fuel(digits_value, 2);
    }
    assert(unsigned_part(seq!['+']) =~= Seq::<char>::empty());
    assert(unsigned_part(seq!['+', c]) =~= one);
    if c == '+' {
        assert(unsigned_part(one) =~= Seq::<char>::empty());
        assert(!is_digit(unsigned_part(seq!['+', c])[0]));
    } else {
        assert(unsigned_part(one) == one);
        assert(one[0] == c);
        if is_digit(c) {
            assert(forall|i: int| 0 <= i < one.len() ==> is_digit(#[trigger] one[i]));
        }
    }
    if text.len() > 0 && text != seq!['+'] {
        let digits = unsigned_part(text);
        let more = unsigned_part(text.push(c));
        if text[0] == '+' {
            assert(text.len() > 1) by {
                if text.len() == 1 {
                    assert(text =~= seq!['+']);
                }
            }
        }
        assert(more =~= digits.push(c));
        assert(more.drop_last() =~= digits);
        assert(more[digits.len() as int] == c);
        assert forall|i: int| 0 <= i < digits.len() implies digits[i] == more[i] by {}
        if forall|i: int| 0 <= i < more.len() ==> is_digit(#[trigger] more[i]) {
            assert forall|i: int| 0 <= i < digits.len() implies is_digit(#[trigger] digits[i]) by {
                assert(is_digit(more[i]));
            }
            assert(is_digit(c));
        }
        if is_digit(c) && (forall|i: int|
            0 <= i < digits.len() ==> is_digit(#[trigger] digits[i])) {
            assert(forall|i: int| 0 <= i < more.len() ==> is_digit(#[trigger] more[i]));
        }
    }
}

} // verus!
