//! The menu handed to the picker, and what the picker's answer selects.
//!
//! The menu lists the history newest first: the line with index 0 stands for
//! the record stored last. The picker hands one line back; the number in
//! front of its first colon says how far back from the newest record the
//! chosen one lies.

use vstd::prelude::*;
use vstd::string::*;
use vstd::utf8::{encode_utf8, encode_utf8_decode_utf8, encode_utf8_valid_utf8};
use crate::history::{aged, ClipboardHistory};
use crate::label::{label_of, line_of, stringify_record};
use crate::record::ClipboardRecord;
use crate::text::{decimal, digit, lossy, lossy_text, texts};

verus! {

/// Why the picker's answer selects no record.
#[derive(Clone, Copy, Debug, PartialEq, Eq, Structural)]
pub enum PickError {
    /// What stands before the first colon is not a number that fits.
    InvalidChoice,
    /// The history does not reach as far back as the number says.
    NoSuchEntry,
}

/// Whether the character is one of the ten decimal digits.
pub open spec fn is_digit(c: char) -> bool {
    '0' as u32 <= c as u32 <= '9' as u32
}

/// The value of a decimal digit.
pub open spec fn digit_value(c: char) -> nat {
    (c as u32 - '0' as u32) as nat
}

/// The number that a string of decimal digits denotes.
pub open spec fn digits_value(s: Seq<char>) -> nat
    decreases s.len(),
{
    if s.len() == 0 {
        0
    } else {
        digits_value(s.drop_last()) * 10 + digit_value(s.last())
    }
}

/// Every character is a decimal digit.
pub open spec fn all_digits(s: Seq<char>) -> bool {
    forall|i: int| 0 <= i < s.len() ==> is_digit(#[trigger] s[i])
}

/// The string without a plus sign in front, if it has one.
pub open spec fn unsigned(s: Seq<char>) -> Seq<char> {
    if s.len() > 0 && s[0] == '+' {
        s.drop_first()
    } else {
        s
    }
}

/// The number that the string denotes: an optional plus sign, then one or
/// more decimal digits and nothing else, with a value that fits in `usize`.
pub open spec fn parsed_index(s: Seq<char>) -> Option<usize> {
    let digits = unsigned(s);
    if digits.len() > 0 && all_digits(digits) && digits_value(digits) <= usize::MAX {
        Some(digits_value(digits) as usize)
    } else {
        None
    }
}

/// Where the first colon stands, or the length where there is none.
pub open spec fn colon_position(s: Seq<char>) -> int
    decreases s.len(),
{
    if s.len() == 0 || s[0] == ':' {
        0
    } else {
        1 + colon_position(s.drop_first())
    }
}

/// What stands before the first colon: the whole string where it has none.
pub open spec fn before_colon(s: Seq<char>) -> Seq<char> {
    s.take(colon_position(s))
}

/// The age that the picker's answer names, if it names one.
pub open spec fn choice_of(output: Seq<char>) -> Option<usize> {
    parsed_index(before_colon(output))
}

/// What the picker's answer selects from a history.
pub open spec fn picked(history: Seq<Map<Seq<char>, Seq<u8>>>, output: Seq<char>) -> Result<
    Map<Seq<char>, Seq<u8>>,
    PickError,
> {
    match choice_of(output) {
        None => Err(PickError::InvalidChoice),
        Some(age) => if age < history.len() {
            Ok(aged(history, age as int))
        } else {
            Err(PickError::NoSuchEntry)
        },
    }
}

/// The menu of a history, line by line: line `k` carries index `k` and the
/// label of the record that lies `k` entries back from the newest.
pub open spec fn menu_lines(history: Seq<Map<Seq<char>, Seq<u8>>>) -> Seq<Seq<char>> {
    Seq::new(history.len(), |k: int| line_of(k as nat, label_of(aged(history, k))))
}

/// The lines with a line feed between each two of them.
pub open spec fn joined(lines: Seq<Seq<char>>) -> Seq<char>
    decreases lines.len(),
{
    if lines.len() == 0 {
        Seq::empty()
    } else if lines.len() == 1 {
        lines[0]
    } else {
        joined(lines.drop_last()) + "\n"@ + lines.last()
    }
}

/// The first colon stands at `i` where no colon stands before `i` and either
/// one stands at `i` or the string ends there.
pub proof fn lemma_colon_position(s: Seq<char>, i: int)
    requires
        0 <= i <= s.len(),
        forall|j: int| 0 <= j < i ==> s[j] != ':',
        i == s.len() || s[i] == ':',
    ensures
        colon_position(s) == i,
    decreases i,
{
    if i > 0 {
        let rest = s.drop_first();
        assert forall|j: int| 0 <= j < i - 1 implies rest[j] != ':' by {
            assert(rest[j] == s[j + 1]);
        }
        lemma_colon_position(rest, i - 1);
    }
}

/// The first colon stands within the string's length, and at no place before
/// which and at which there is no colon.
pub proof fn lemma_colon_position_bounds(s: Seq<char>, i: int)
    requires
        0 <= i <= s.len(),
        forall|j: int| 0 <= j < i ==> s[j] != ':',
    ensures
        i <= colon_position(s) <= s.len(),
    decreases s.len(),
{
    if s.len() > 0 && s[0] != ':' {
        let rest = s.drop_first();
        if i > 0 {
            assert forall|j: int| 0 <= j < i - 1 implies rest[j] != ':' by {
                assert(rest[j] == s[j + 1]);
            }
            lemma_colon_position_bounds(rest, i - 1);
        } else {
            lemma_colon_position_bounds(rest, 0);
        }
    }
}

/// A string of digits denotes at least what any of its prefixes denotes.
pub proof fn lemma_digits_value_prefix(s: Seq<char>, k: int)
    requires
        0 <= k <= s.len(),
    ensures
        digits_value(s.take(k)) <= digits_value(s),
    decreases s.len(),
{
    if k < s.len() {
        let front = s.drop_last();
        lemma_digits_value_prefix(front, k);
        assert(front.take(k) =~= s.take(k));
    } else {
        assert(s.take(k) =~= s);
    }
}

/// A decimal numeral is a non-empty string of digits that denotes the number
/// it was made from.
pub proof fn lemma_decimal_parses(n: nat)
    ensures
        decimal(n).len() > 0,
        all_digits(decimal(n)),
        digits_value(decimal(n)) == n,
    decreases n,
{
    if n < 10 {
        assert(decimal(n).drop_last() =~= Seq::<char>::empty());
        assert(digits_value(decimal(n).drop_last()) == 0);
    } else {
        lemma_decimal_parses(n / 10);
        assert(decimal(n).drop_last() =~= decimal(n / 10));
        assert(is_digit(digit((n % 10) as int)));
    }
}

/// A menu line names its own index: whatever follows the numeral, colon and
/// space, the line is read as a choice of that index.
pub proof fn lemma_line_names_index(index: nat, rest: Seq<char>)
    requires
        index <= usize::MAX,
    ensures
        choice_of(line_of(index, rest)) == Some(index as usize),
{
    reveal_strlit(": ");
    lemma_decimal_parses(index);
    let numeral = decimal(index);
    let line = line_of(index, rest);
    assert(line.len() == numeral.len() + 2 + rest.len());
    assert forall|j: int| 0 <= j < numeral.len() implies line[j] != ':' by {
        assert(line[j] == numeral[j]);
        assert(is_digit(numeral[j]));
    }
    assert(line[numeral.len() as int] == ": "@[0]);
    lemma_colon_position(line, numeral.len() as int);
    assert(before_colon(line) =~= numeral);
    assert(is_digit(numeral[0]));
}

/// The index mapping between menu and history: the menu has one line for
/// each record, line `k` stands for the record that lies `k` entries back
/// from the newest, which is the record at position `len - 1 - k` in storage
/// order. Handing that line back to `select` picks that very record, and so
/// does handing its bytes to `pick`. The same holds when the picker adds a
/// line feed or anything else after the line.
pub proof fn lemma_index_mapping(
    history: Seq<Map<Seq<char>, Seq<u8>>>,
    k: int,
    trailer: Seq<char>,
)
    requires
        history.len() <= usize::MAX,
        0 <= k < history.len(),
    ensures
        menu_lines(history).len() == history.len(),
        menu_lines(history)[k] == line_of(k as nat, label_of(history[history.len() - 1 - k])),
        picked(history, menu_lines(history)[k] + trailer) == Ok::<_, PickError>(
            history[history.len() - 1 - k],
        ),
        picked(history, lossy(encode_utf8(menu_lines(history)[k] + trailer))) == Ok::<
            _,
            PickError,
        >(history[history.len() - 1 - k]),
{
    let label = label_of(aged(history, k));
    let line = menu_lines(history)[k];
    assert(line + trailer =~= line_of(k as nat, label + trailer));
    lemma_line_names_index(k as nat, label + trailer);
    encode_utf8_valid_utf8(line + trailer);
    encode_utf8_decode_utf8(line + trailer);
}

/// The age that the picker's answer names: the number before its first
/// colon, written as an optional plus sign and decimal digits.
pub fn parse_choice(output: &str) -> (choice: Option<usize>)
    ensures
        choice == choice_of(output@),
{
    let n = output.unicode_len();
    let start: usize = if n > 0 && output.get_char(0) == '+' {
        1
    } else {
        0
    };
    let ghost s = output@;
    let mut i: usize = start;
    let mut value: usize = 0;
    assert(s.subrange(start as int, start as int) =~= Seq::<char>::empty());
    while i < n && output.get_char(i) != ':'
        invariant
            s == output@,
            n == s.len(),
            start <= i <= n,
            start == 1 <==> (n > 0 && s[0] == '+'),
            start == 0 || start == 1,
            forall|j: int| 0 <= j < i ==> s[j] != ':',
            all_digits(s.subrange(start as int, i as int)),
            value == digits_value(s.subrange(start as int, i as int)),
        decreases n - i,
    {
        let c = output.get_char(i);
        let ghost upto = s.subrange(start as int, i as int + 1);
        proof {
            assert(upto.drop_last() =~= s.subrange(start as int, i as int));
            assert(upto.last() == c);
        }
        let code = c as u32;
        if code < '0' as u32 || code > '9' as u32 {
            proof {
                lemma_choice_rejects_character(s, start as int, i as int);
            }
            return None;
        }
        let d = (code - '0' as u32) as usize;
        let next = match value.checked_mul(10) {
            Some(tens) => tens.checked_add(d),
            None => None,
        };
        match next {
            Some(v) => {
                value = v;
            },
            None => {
                proof {
                    lemma_choice_rejects_overflow(s, start as int, i as int);
                }
                return None;
            },
        }
        i += 1;
    }
    proof {
        lemma_colon_position(s, i as int);
        let prefix = before_colon(s);
        assert(prefix =~= s.take(i as int));
        if start == 1 {
            assert(unsigned(prefix) =~= s.subrange(1, i as int));
        } else {
            assert(unsigned(prefix) =~= s.subrange(0, i as int));
        }
    }
    if i == start {
        None
    } else {
        Some(value)
    }
}

/// The digits of the answer's number begin at `start` and run up to the
/// first colon.
proof fn lemma_digits_of_choice(s: Seq<char>, start: int, i: int)
    requires
        0 <= start <= i < s.len(),
        start == 1 <==> s[0] == '+',
        start == 0 || start == 1,
        forall|j: int| 0 <= j <= i ==> s[j] != ':',
    ensures
        i < colon_position(s) <= s.len(),
        unsigned(before_colon(s)) == s.subrange(start, colon_position(s)),
{
    lemma_colon_position_bounds(s, i + 1);
    let p = colon_position(s);
    let prefix = before_colon(s);
    if start == 1 {
        assert(unsigned(prefix) =~= s.subrange(1, p));
    } else {
        assert(unsigned(prefix) =~= s.subrange(0, p));
    }
}

/// An answer with a character other than a digit among the digits of its
/// number names no age.
proof fn lemma_choice_rejects_character(s: Seq<char>, start: int, i: int)
    requires
        0 <= start <= i < s.len(),
        start == 1 <==> s[0] == '+',
        start == 0 || start == 1,
        forall|j: int| 0 <= j <= i ==> s[j] != ':',
        !is_digit(s[i]),
    ensures
        choice_of(s) is None,
{
    lemma_digits_of_choice(s, start, i);
    let digits = s.subrange(start, colon_position(s));
    assert(digits[i - start] == s[i]);
}

/// An answer whose number outgrows `usize` among its first digits names no
/// age.
proof fn lemma_choice_rejects_overflow(s: Seq<char>, start: int, i: int)
    requires
        0 <= start <= i < s.len(),
        start == 1 <==> s[0] == '+',
        start == 0 || start == 1,
        forall|j: int| 0 <= j <= i ==> s[j] != ':',
        digits_value(s.subrange(start, i + 1)) > usize::MAX,
    ensures
        choice_of(s) is None,
{
    lemma_digits_of_choice(s, start, i);
    let digits = s.subrange(start, colon_position(s));
    lemma_digits_value_prefix(digits, i + 1 - start);
    assert(digits.take(i + 1 - start) =~= s.subrange(start, i + 1));
}

/// Selects from `history` the record that the picker's answer names, and
/// gives up the rest. Fails with `InvalidChoice` exactly when the answer
/// names no age, and with `NoSuchEntry` exactly when it names one that the
/// history does not reach.
pub fn select(history: ClipboardHistory, output: &str) -> (selection: Result<
    ClipboardRecord,
    PickError,
>)
    ensures
        match selection {
            Ok(record) => picked(history@, output@) == Ok::<_, PickError>(record@),
            Err(e) => picked(history@, output@) == Err::<Map<Seq<char>, Seq<u8>>, _>(e),
        },
{
    match parse_choice(output) {
        None => Err(PickError::InvalidChoice),
        Some(age) => match history.into_newest(age) {
            Some(record) => Ok(record),
            None => Err(PickError::NoSuchEntry),
        },
    }
}

/// Selects from `history` the record that the picker named in its output.
/// The output is bytes; it is read as text the lossy way before the answer
/// is looked for in it.
pub fn pick(history: ClipboardHistory, picker_output: &[u8]) -> (selection: Result<
    ClipboardRecord,
    PickError,
>)
    ensures
        match selection {
            Ok(record) => picked(history@, lossy(picker_output@)) == Ok::<_, PickError>(
                record@,
            ),
            Err(e) => picked(history@, lossy(picker_output@)) == Err::<
                Map<Seq<char>, Seq<u8>>,
                _,
            >(e),
        },
{
    let answer = lossy_text(picker_output);
    select(history, answer.as_str())
}

/// The menu of the history, one line for each record, newest first.
pub fn menu(history: &ClipboardHistory) -> (lines: Vec<String>)
    ensures
        texts(lines@) == menu_lines(history@),
{
    let n = history.len();
    let mut lines: Vec<String> = Vec::new();
    let mut k: usize = 0;
    while k < n
        invariant
            n == history@.len(),
            k <= n,
            lines@.len() == k,
            forall|j: int|
                0 <= j < k ==> (#[trigger] lines@[j])@ == line_of(
                    j as nat,
                    label_of(aged(history@, j)),
                ),
        decreases n - k,
    {
        match history.newest(k) {
            Some(record) => {
                lines.push(stringify_record(k, record));
            },
            None => {
                assert(false);
            },
        }
        k += 1;
    }
    assert(texts(lines@) =~= menu_lines(history@));
    lines
}

/// The lines as one text, with a line feed between each two of them.
pub fn join_lines(lines: &Vec<String>) -> (text: String)
    ensures
        text@ == joined(texts(lines@)),
{
    let mut text = String::new();
    let mut i: usize = 0;
    while i < lines.len()
        invariant
            i <= lines@.len(),
            text@ == joined(texts(lines@).take(i as int)),
        decreases lines@.len() - i,
    {
        let ghost before = texts(lines@).take(i as int);
        let ghost after = texts(lines@).take(i as int + 1);
        proof {
            assert(after.drop_last() =~= before);
            assert(after.last() == lines@[i as int]@);
        }
        if i > 0 {
            text.append("\n");
        }
        text.append(lines[i].as_str());
        proof {
            if i == 0 {
                assert(before =~= Seq::<Seq<char>>::empty());
                assert(text@ =~= after[0]);
            }
        }
        i += 1;
    }
    assert(texts(lines@).take(lines@.len() as int) =~= texts(lines@));
    text
}

/// The picker's input for a history: the menu as one text, in UTF-8.
pub fn rofi_input(history: &ClipboardHistory) -> (input: Vec<u8>)
    ensures
        input@ == encode_utf8(joined(menu_lines(history@))),
{
    let lines = menu(history);
    let text = join_lines(&lines);
    text.as_str().as_bytes_vec()
}

} // verus!
