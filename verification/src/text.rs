//! Text as sequences of characters: trimming, numbers and paths.

use vstd::prelude::*;

verus! {

/// The characters of `text`, in order.
pub fn chars_of(text: &str) -> (chars: Vec<char>)
    ensures
        chars@ == text@,
{
    let mut chars: Vec<char> = Vec::new();
    for c in it: text.chars()
        invariant
            chars@ == it.seq().take(it.index() as int),
            it.seq() == text@,
    {
        chars.push(c);
        proof {
            assert(it.seq().take(it.index() + 1) =~= it.seq().take(it.index() as int).push(c));
        }
    }
    proof {
        assert(text@.take(text@.len() as int) =~= text@);
    }
    chars
}

/// Whether `c` is white space: a character with the Unicode property
/// `White_Space`.
pub open spec fn is_space(c: char) -> bool {
    let code = c as u32;
    ||| 0x09 <= code <= 0x0d
    ||| code == 0x20
    ||| code == 0x85
    ||| code == 0xa0
    ||| code == 0x1680
    ||| 0x2000 <= code <= 0x200a
    ||| code == 0x2028
    ||| code == 0x2029
    ||| code == 0x202f
    ||| code == 0x205f
    ||| code == 0x3000
}

/// Tells whether `c` is white space.
pub fn is_whitespace(c: char) -> (space: bool)
    ensures
        space == is_space(c),
{
    let code: u32 = c as u32;
    (0x09 <= code && code <= 0x0d) || code == 0x20 || code == 0x85 || code == 0xa0 || code
        == 0x1680 || (0x2000 <= code && code <= 0x200a) || code == 0x2028 || code == 0x2029
        || code == 0x202f || code == 0x205f || code == 0x3000
}

/// `text` without the white space at its start.
pub open spec fn skip_space(text: Seq<char>) -> Seq<char>
    decreases text.len(),
{
    if text.len() > 0 && is_space(text.first()) {
        skip_space(text.drop_first())
    } else {
        text
    }
}

/// `text` without the white space at its end.
pub open spec fn drop_space(text: Seq<char>) -> Seq<char>
    decreases text.len(),
{
    if text.len() > 0 && is_space(text.last()) {
        drop_space(text.drop_last())
    } else {
        text
    }
}

/// `text` without the white space at its start and at its end.
pub open spec fn trimmed(text: Seq<char>) -> Seq<char> {
    drop_space(skip_space(text))
}

proof fn lemma_skip_space(text: Seq<char>, start: int)
    requires
        0 <= start <= text.len(),
        forall|i: int| 0 <= i < start ==> is_space(text[i]),
        start == text.len() || !is_space(text[start]),
    ensures
        skip_space(text) == text.subrange(start, text.len() as int),
    decreases start,
{
    if start == 0 {
        assert(text.subrange(0, text.len() as int) =~= text);
    } else {
        lemma_skip_space(text.drop_first(), start - 1);
        assert(text.drop_first().subrange(start - 1, text.len() - 1) =~= text.subrange(
            start,
            text.len() as int,
        ));
    }
}

proof fn lemma_drop_space(text: Seq<char>, end: int)
    requires
        0 <= end <= text.len(),
        forall|i: int| end <= i < text.len() ==> is_space(text[i]),
        end == 0 || !is_space(text[end - 1]),
    ensures
        drop_space(text) == text.subrange(0, end),
    decreases text.len() - end,
{
    if end == text.len() {
        assert(text.subrange(0, end) =~= text);
    } else {
        lemma_drop_space(text.drop_last(), end);
        assert(text.drop_last().subrange(0, end) =~= text.subrange(0, end));
    }
}

/// The bounds of `chars[from..to]` without the white space at both ends.
pub fn trim_range(chars: &Vec<char>, from: usize, to: usize) -> (bounds: (usize, usize))
    requires
        from <= to <= chars.len(),
    ensures
        from <= bounds.0 <= bounds.1 <= to,
        chars@.subrange(bounds.0 as int, bounds.1 as int) == trimmed(
            chars@.subrange(from as int, to as int),
        ),
{
    let ghost whole = chars@.subrange(from as int, to as int);
    let mut start: usize = from;
    while start < to && is_whitespace(chars[start])
        invariant
            from <= start <= to <= chars.len(),
            forall|i: int| from <= i < start ==> is_space(chars@[i]),
        decreases to - start,
    {
        start = start + 1;
    }
    let mut end: usize = to;
    while end > start && is_whitespace(chars[end - 1])
        invariant
            start <= end <= to <= chars.len(),
            forall|i: int| end <= i < to ==> is_space(chars@[i]),
        decreases end,
    {
        end = end - 1;
    }
    proof {
        lemma_skip_space(whole, start - from);
        let rest = whole.subrange(start - from, whole.len() as int);
        assert(rest =~= chars@.subrange(start as int, to as int));
        lemma_drop_space(rest, end - start);
        assert(rest.subrange(0, end - start) =~= chars@.subrange(start as int, end as int));
    }
    (start, end)
}

/// `text` without the white space at its start and at its end.
pub fn trim(text: &str) -> (out: String)
    ensures
        out@ == trimmed(text@),
{
    let chars = chars_of(text);
    let (start, end) = trim_range(&chars, 0, chars.len());
    proof {
        assert(chars@.subrange(0, chars.len() as int) =~= chars@);
    }
    String::from_str(text.substring_char(start, end))
}

/// Why a text is not a number of the wanted type.
#[derive(Clone, Copy, Debug, PartialEq, Eq)]
pub enum IntErrorKind {
    /// The text is empty.
    Empty,
    /// A character is not a digit of the radix, or a sign stands alone.
    InvalidDigit,
    /// The number is above the type's range.
    PosOverflow,
    /// The number is below the type's range.
    NegOverflow,
}

/// The value of the digit `c` in `radix`, if it is one: `0` to `9`, then the
/// letters in either case from 10 on.
pub open spec fn digit_value(c: char, radix: int) -> Option<int> {
    let value: int = if '0' <= c <= '9' {
        c as int - '0' as int
    } else if 'a' <= c <= 'z' {
        c as int - 'a' as int + 10
    } else if 'A' <= c <= 'Z' {
        c as int - 'A' as int + 10
    } else {
        -1
    };
    if 0 <= value < radix {
        Some(value)
    } else {
        None
    }
}

/// The digit value of `c` in `radix`.
pub fn to_digit(c: char, radix: u32) -> (digit: Option<u32>)
    requires
        2 <= radix <= 36,
    ensures
        match digit_value(c, radix as int) {
            Some(value) => digit == Some(value as u32),
            None => digit is None,
        },
{
    let code: u32 = c as u32;
    let value: u32 = if '0' <= c && c <= '9' {
        code - 0x30
    } else if 'a' <= c && c <= 'z' {
        code - 0x61 + 10
    } else if 'A' <= c && c <= 'Z' {
        code - 0x41 + 10
    } else {
        return None;
    };
    if value < radix {
        Some(value)
    } else {
        None
    }
}

/// Reads `text` as digits from the left, on top of the value `acc` read so
/// far: the first character that is no digit, or the first digit that takes
/// the value above `max`, ends the reading with its error.
pub open spec fn parse_digits(text: Seq<char>, radix: int, acc: int, max: int) -> Result<
    int,
    IntErrorKind,
>
    decreases text.len(),
{
    if text.len() == 0 {
        Ok(acc)
    } else {
        match digit_value(text.first(), radix) {
            None => Err(IntErrorKind::InvalidDigit),
            Some(digit) => if acc * radix + digit > max {
                Err(IntErrorKind::PosOverflow)
            } else {
                parse_digits(text.drop_first(), radix, acc * radix + digit, max)
            },
        }
    }
}

/// Reads `text` as the digits of a negative number, on top of the value
/// `acc` read so far: as [`parse_digits`], towards `min`.
pub open spec fn parse_digits_down(text: Seq<char>, radix: int, acc: int, min: int) -> Result<
    int,
    IntErrorKind,
>
    decreases text.len(),
{
    if text.len() == 0 {
        Ok(acc)
    } else {
        match digit_value(text.first(), radix) {
            None => Err(IntErrorKind::InvalidDigit),
            Some(digit) => if acc * radix - digit < min {
                Err(IntErrorKind::NegOverflow)
            } else {
                parse_digits_down(text.drop_first(), radix, acc * radix - digit, min)
            },
        }
    }
}

/// Whether `text` is a sign and nothing else.
pub open spec fn lone_sign(text: Seq<char>) -> bool {
    text.len() == 1 && (text[0] == '+' || text[0] == '-')
}

/// `text` read as a number from 0 to `max`: digits of `radix`, with `+`
/// allowed in front.
pub open spec fn parse_unsigned(text: Seq<char>, radix: int, max: int) -> Result<
    int,
    IntErrorKind,
> {
    if text.len() == 0 {
        Err(IntErrorKind::Empty)
    } else if lone_sign(text) {
        Err(IntErrorKind::InvalidDigit)
    } else if text[0] == '+' {
        parse_digits(text.drop_first(), radix, 0, max)
    } else {
        parse_digits(text, radix, 0, max)
    }
}

/// `text` read as a number from `min` to `max`: digits of `radix`, with `+`
/// or `-` allowed in front.
pub open spec fn parse_signed(text: Seq<char>, radix: int, min: int, max: int) -> Result<
    int,
    IntErrorKind,
> {
    if text.len() == 0 {
        Err(IntErrorKind::Empty)
    } else if lone_sign(text) {
        Err(IntErrorKind::InvalidDigit)
    } else if text[0] == '+' {
        parse_digits(text.drop_first(), radix, 0, max)
    } else if text[0] == '-' {
        parse_digits_down(text.drop_first(), radix, 0, min)
    } else {
        parse_digits(text, radix, 0, max)
    }
}

fn read_digits(chars: &Vec<char>, from: usize, to: usize, radix: u32, max: i64) -> (number: Result<
    i64,
    IntErrorKind,
>)
    requires
        from <= to <= chars.len(),
        2 <= radix <= 36,
        0 <= max <= 0xffff_ffff,
    ensures
        match parse_digits(chars@.subrange(from as int, to as int), radix as int, 0, max as int) {
            Ok(value) => number == Ok::<i64, IntErrorKind>(value as i64) && 0 <= value <= max,
            Err(kind) => number == Err::<i64, IntErrorKind>(kind),
        },
{
    let mut acc: i64 = 0;
    let mut i: usize = from;
    while i < to
        invariant
            from <= i <= to <= chars.len(),
            2 <= radix <= 36,
            0 <= acc <= max <= 0xffff_ffff,
            parse_digits(chars@.subrange(from as int, to as int), radix as int, 0, max as int)
                == parse_digits(chars@.subrange(i as int, to as int), radix as int, acc as int, max as int),
        decreases to - i,
    {
        proof {
            assert(chars@.subrange(i as int, to as int).drop_first() =~= chars@.subrange(
                i + 1,
                to as int,
            ));
        }
        match to_digit(chars[i], radix) {
            None => {
                return Err(IntErrorKind::InvalidDigit);
            },
            Some(digit) => {
                assert(acc * radix <= 0xffff_ffff * 36) by (nonlinear_arith)
                    requires
                        0 <= acc <= 0xffff_ffff,
                        0 <= radix <= 36,
                ;
                assert(acc * radix >= 0) by (nonlinear_arith)
                    requires
                        0 <= acc,
                        0 <= radix,
                ;
                let next: i64 = acc * (radix as i64) + digit as i64;
                if next > max {
                    return Err(IntErrorKind::PosOverflow);
                }
                acc = next;
            },
        }
        i = i + 1;
    }
    Ok(acc)
}

fn read_digits_down(chars: &Vec<char>, from: usize, to: usize, radix: u32, min: i64) -> (number:
    Result<i64, IntErrorKind>)
    requires
        from <= to <= chars.len(),
        2 <= radix <= 36,
        -0xffff_ffff <= min <= 0,
    ensures
        match parse_digits_down(
            chars@.subrange(from as int, to as int),
            radix as int,
            0,
            min as int,
        ) {
            Ok(value) => number == Ok::<i64, IntErrorKind>(value as i64) && min <= value <= 0,
            Err(kind) => number == Err::<i64, IntErrorKind>(kind),
        },
{
    let mut acc: i64 = 0;
    let mut i: usize = from;
    while i < to
        invariant
            from <= i <= to <= chars.len(),
            2 <= radix <= 36,
            -0xffff_ffff <= min <= acc <= 0,
            parse_digits_down(
                chars@.subrange(from as int, to as int),
                radix as int,
                0,
                min as int,
            ) == parse_digits_down(
                chars@.subrange(i as int, to as int),
                radix as int,
                acc as int,
                min as int,
            ),
        decreases to - i,
    {
        proof {
            assert(chars@.subrange(i as int, to as int).drop_first() =~= chars@.subrange(
                i + 1,
                to as int,
            ));
        }
        match to_digit(chars[i], radix) {
            None => {
                return Err(IntErrorKind::InvalidDigit);
            },
            Some(digit) => {
                assert(acc * radix >= -0xffff_ffff * 36) by (nonlinear_arith)
                    requires
                        -0xffff_ffff <= acc <= 0,
                        0 <= radix <= 36,
                ;
                assert(acc * radix <= 0) by (nonlinear_arith)
                    requires
                        acc <= 0,
                        0 <= radix,
                ;
                let next: i64 = acc * (radix as i64) - digit as i64;
                if next < min {
                    return Err(IntErrorKind::NegOverflow);
                }
                acc = next;
            },
        }
        i = i + 1;
    }
    Ok(acc)
}

/// Reads `chars[from..to]` as a `u8` written in `radix`.
pub fn parse_u8_in(chars: &Vec<char>, from: usize, to: usize, radix: u32) -> (number: Result<
    u8,
    IntErrorKind,
>)
    requires
        from <= to <= chars.len(),
        2 <= radix <= 36,
    ensures
        match parse_unsigned(chars@.subrange(from as int, to as int), radix as int, 255) {
            Ok(value) => number == Ok::<u8, IntErrorKind>(value as u8) && 0 <= value <= 255,
            Err(kind) => number == Err::<u8, IntErrorKind>(kind),
        },
{
    let ghost text = chars@.subrange(from as int, to as int);
    if from == to {
        return Err(IntErrorKind::Empty);
    }
    let first: char = chars[from];
    assert(text[0] == first);
    if to - from == 1 && (first == '+' || first == '-') {
        return Err(IntErrorKind::InvalidDigit);
    }
    let start: usize = if first == '+' {
        from + 1
    } else {
        from
    };
    proof {
        assert(text.drop_first() =~= chars@.subrange(from + 1, to as int));
    }
    match read_digits(chars, start, to, radix, 255) {
        Ok(value) => Ok(value as u8),
        Err(kind) => Err(kind),
    }
}

/// Reads `chars[from..to]` as a decimal `i32`.
pub fn parse_i32_in(chars: &Vec<char>, from: usize, to: usize) -> (number: Result<
    i32,
    IntErrorKind,
>)
    requires
        from <= to <= chars.len(),
    ensures
        match parse_signed(
            chars@.subrange(from as int, to as int),
            10,
            i32::MIN as int,
            i32::MAX as int,
        ) {
            Ok(value) => number == Ok::<i32, IntErrorKind>(value as i32) && i32::MIN <= value
                <= i32::MAX,
            Err(kind) => number == Err::<i32, IntErrorKind>(kind),
        },
{
    let ghost text = chars@.subrange(from as int, to as int);
    if from == to {
        return Err(IntErrorKind::Empty);
    }
    let first: char = chars[from];
    assert(text[0] == first);
    if to - from == 1 && (first == '+' || first == '-') {
        return Err(IntErrorKind::InvalidDigit);
    }
    proof {
        assert(text.drop_first() =~= chars@.subrange(from + 1, to as int));
    }
    if first == '-' {
        match read_digits_down(chars, from + 1, to, 10, -0x8000_0000) {
            Ok(value) => Ok(value as i32),
            Err(kind) => Err(kind),
        }
    } else {
        let start: usize = if first == '+' {
            from + 1
        } else {
            from
        };
        match read_digits(chars, start, to, 10, 0x7fff_ffff) {
            Ok(value) => Ok(value as i32),
            Err(kind) => Err(kind),
        }
    }
}

/// The index of the first `sep` in `text`, or the length of `text` if it has none.
pub open spec fn index_of(text: Seq<char>, sep: char) -> int
    decreases text.len(),
{
    if text.len() == 0 || text.first() == sep {
        0
    } else {
        1 + index_of(text.drop_first(), sep)
    }
}

/// The parts of `text` between the occurrences of `sep`: one part more than
/// there are separators.
pub open spec fn split(text: Seq<char>, sep: char) -> Seq<Seq<char>>
    decreases text.len(),
{
    let at = index_of(text, sep);
    if 0 <= at < text.len() {
        seq![text.take(at)] + split(text.skip(at + 1), sep)
    } else {
        seq![text]
    }
}

proof fn lemma_index_of(text: Seq<char>, sep: char, at: int)
    requires
        0 <= at <= text.len(),
        forall|i: int| 0 <= i < at ==> text[i] != sep,
        at == text.len() || text[at] == sep,
    ensures
        index_of(text, sep) == at,
    decreases at,
{
    if at > 0 {
        lemma_index_of(text.drop_first(), sep, at - 1);
    }
}

/// The parts of a list of bounds, each taken out of `chars`.
pub open spec fn parts_of(chars: Seq<char>, bounds: Seq<(usize, usize)>) -> Seq<Seq<char>> {
    bounds.map_values(|b: (usize, usize)| chars.subrange(b.0 as int, b.1 as int))
}

/// The bounds of the parts of `chars[from..to]` between the occurrences of `sep`.
pub fn split_ranges(chars: &Vec<char>, from: usize, to: usize, sep: char) -> (bounds: Vec<
    (usize, usize),
>)
    requires
        from <= to <= chars.len(),
    ensures
        parts_of(chars@, bounds@) == split(chars@.subrange(from as int, to as int), sep),
        forall|k: int| 0 <= k < bounds.len() ==> from <= (#[trigger] bounds[k]).0 <= bounds[k].1 <= to,
{
    let mut bounds: Vec<(usize, usize)> = Vec::new();
    let mut start: usize = from;
    let mut i: usize = from;
    proof {
        assert(parts_of(chars@, bounds@) =~= Seq::<Seq<char>>::empty());
    }
    while i < to
        invariant
            from <= start <= i <= to <= chars.len(),
            forall|j: int| start <= j < i ==> chars@[j] != sep,
            split(chars@.subrange(from as int, to as int), sep) == parts_of(chars@, bounds@) + split(
                chars@.subrange(start as int, to as int),
                sep,
            ),
            forall|k: int| 0 <= k < bounds.len() ==> from <= (#[trigger] bounds[k]).0 <= bounds[k].1 <= to,
        decreases to - i,
    {
        if chars[i] == sep {
            let ghost rest = chars@.subrange(start as int, to as int);
            let ghost before = bounds@;
            proof {
                lemma_index_of(rest, sep, i - start);
                assert(rest.take(i - start) =~= chars@.subrange(start as int, i as int));
                assert(rest.skip(i - start + 1) =~= chars@.subrange(i + 1, to as int));
            }
            bounds.push((start, i));
            proof {
                assert(parts_of(chars@, bounds@) =~= parts_of(chars@, before) + seq![
                    chars@.subrange(start as int, i as int),
                ]);
            }
            start = i + 1;
        }
        i = i + 1;
    }
    let ghost rest = chars@.subrange(start as int, to as int);
    let ghost before = bounds@;
    proof {
        lemma_index_of(rest, sep, to - start);
    }
    bounds.push((start, to));
    proof {
        assert(parts_of(chars@, bounds@) =~= parts_of(chars@, before) + seq![rest]);
    }
    bounds
}

/// Tells whether `chars` starts with `prefix`.
pub fn has_prefix(chars: &Vec<char>, prefix: &str) -> (found: bool)
    ensures
        found == prefix@.is_prefix_of(chars@),
{
    let wanted = chars_of(prefix);
    if wanted.len() > chars.len() {
        return false;
    }
    let mut i: usize = 0;
    while i < wanted.len()
        invariant
            i <= wanted.len() <= chars.len(),
            wanted@ == prefix@,
            forall|j: int| 0 <= j < i ==> chars@[j] == wanted@[j],
        decreases wanted.len() - i,
    {
        if chars[i] != wanted[i] {
            proof {
                assert(chars@.subrange(0, wanted.len() as int)[i as int] != wanted@[i as int]);
            }
            return false;
        }
        i = i + 1;
    }
    proof {
        assert(chars@.subrange(0, wanted.len() as int) =~= wanted@);
    }
    true
}

/// The character that stands for the digit `digit`, from 0 to 9.
pub open spec fn digit_char(digit: int) -> char {
    if digit == 0 {
        '0'
    } else if digit == 1 {
        '1'
    } else if digit == 2 {
        '2'
    } else if digit == 3 {
        '3'
    } else if digit == 4 {
        '4'
    } else if digit == 5 {
        '5'
    } else if digit == 6 {
        '6'
    } else if digit == 7 {
        '7'
    } else if digit == 8 {
        '8'
    } else {
        '9'
    }
}

/// The decimal digits of `number`, without leading zeros.
pub open spec fn decimal(number: nat) -> Seq<char>
    decreases number,
{
    if number < 10 {
        seq![digit_char(number as int)]
    } else {
        decimal(number / 10).push(digit_char((number % 10) as int))
    }
}

fn digit_text(digit: u64) -> (text: &'static str)
    requires
        digit < 10,
    ensures
        text@ == seq![digit_char(digit as int)],
{
    proof {
        reveal_strlit("0");
        reveal_strlit("1");
        reveal_strlit("2");
        reveal_strlit("3");
        reveal_strlit("4");
        reveal_strlit("5");
        reveal_strlit("6");
        reveal_strlit("7");
        reveal_strlit("8");
        reveal_strlit("9");
    }
    let text: &'static str = if digit == 0 {
        "0"
    } else if digit == 1 {
        "1"
    } else if digit == 2 {
        "2"
    } else if digit == 3 {
        "3"
    } else if digit == 4 {
        "4"
    } else if digit == 5 {
        "5"
    } else if digit == 6 {
        "6"
    } else if digit == 7 {
        "7"
    } else if digit == 8 {
        "8"
    } else {
        "9"
    };
    proof {
        assert(text@ =~= seq![digit_char(digit as int)]);
    }
    text
}

/// Writes `number` in decimal.
pub fn format_decimal(number: u64) -> (text: String)
    ensures
        text@ == decimal(number as nat),
    decreases number,
{
    if number < 10 {
        String::from_str(digit_text(number))
    } else {
        let mut text = format_decimal(number / 10);
        text.append(digit_text(number % 10));
        proof {
            assert(text@ =~= decimal((number / 10) as nat).push(digit_char((number % 10) as int)));
        }
        text
    }
}

/// The path `name` under the directory `base`: `name` itself where it is
/// absolute or `base` is empty, and otherwise `base`, one separator unless
/// `base` ends in one, and `name`.
pub open spec fn joined_path(base: Seq<char>, name: Seq<char>) -> Seq<char> {
    if name.len() > 0 && name.first() == '/' {
        name
    } else if base.len() == 0 || base.last() == '/' {
        base + name
    } else {
        base + seq!['/'] + name
    }
}

/// Joins the path `name` to the directory `base`.
pub fn join_path(base: &str, name: &str) -> (path: String)
    ensures
        path@ == joined_path(base@, name@),
{
    let name_chars = chars_of(name);
    if name_chars.len() > 0 && name_chars[0] == '/' {
        return String::from_str(name);
    }
    let base_chars = chars_of(base);
    let mut path = String::from_str(base);
    if base_chars.len() > 0 && base_chars[base_chars.len() - 1] != '/' {
        proof {
            reveal_strlit("/");
            assert("/"@ =~= seq!['/']);
        }
        path.append("/");
    }
    path.append(name);
    path
}

proof fn lemma_parse_digits_push(text: Seq<char>, c: char, radix: int, acc: int, max: int)
    ensures
        parse_digits(text.push(c), radix, acc, max) == match parse_digits(text, radix, acc, max) {
            Ok(value) => parse_digits(seq![c], radix, value, max),
            Err(kind) => Err(kind),
        },
    decreases text.len(),
{
    if text.len() == 0 {
        assert(text.push(c) =~= seq![c]);
    } else {
        assert(text.push(c).first() == text.first());
        assert(text.push(c).drop_first() =~= text.drop_first().push(c));
        match digit_value(text.first(), radix) {
            None => {},
            Some(digit) => {
                if acc * radix + digit <= max {
                    lemma_parse_digits_push(text.drop_first(), c, radix, acc * radix + digit, max);
                }
            },
        }
    }
}

/// The decimal digits of a number are digits, not white space and not
/// signs or commas, and read back as the number.
pub proof fn lemma_decimal_reads_back(number: nat, max: int)
    requires
        number <= max,
    ensures
        decimal(number).len() > 0,
        forall|i: int|
            0 <= i < decimal(number).len() ==> '0' <= #[trigger] decimal(number)[i] <= '9',
        parse_digits(decimal(number), 10, 0, max) == Ok::<int, IntErrorKind>(number as int),
        parse_unsigned(decimal(number), 10, max) == Ok::<int, IntErrorKind>(number as int),
    decreases number,
{
    reveal_with_fuel(parse_digits, 3);
    if number < 10 {
        let only = digit_char(number as int);
        assert(decimal(number) =~= seq![only]);
        assert(digit_value(only, 10) == Some(number as int));
        assert(seq![only].drop_first() =~= Seq::<char>::empty());
        assert(parse_digits(seq![only], 10, 0, max) == Ok::<int, IntErrorKind>(number as int));
    } else {
        let front = (number / 10) as nat;
        let last = digit_char((number % 10) as int);
        lemma_decimal_reads_back(front, max);
        lemma_parse_digits_push(decimal(front), last, 10, 0, max);
        assert(digit_value(last, 10) == Some((number % 10) as int));
        assert(seq![last].drop_first() =~= Seq::<char>::empty());
        assert(front * 10 + number % 10 == number);
        assert(parse_digits(seq![last], 10, front as int, max) == Ok::<int, IntErrorKind>(
            number as int,
        ));
        assert(decimal(number) == decimal(front).push(last));
        assert(decimal(number)[0] == decimal(front)[0]);
    }
    assert('0' <= decimal(number)[0] <= '9');
}

/// A text without white space at its ends is its own trimmed form.
pub proof fn lemma_trimmed_keeps(text: Seq<char>)
    requires
        text.len() > 0,
        !is_space(text.first()),
        !is_space(text.last()),
    ensures
        trimmed(text) == text,
{
}

/// A text without the separator is one part; a text that has the separator
/// behind a part without it splits into that part and the parts of the rest.
pub proof fn lemma_split_at_first(part: Seq<char>, rest: Seq<char>, sep: char)
    requires
        forall|i: int| 0 <= i < part.len() ==> part[i] != sep,
    ensures
        split(part, sep) == seq![part],
        split(part + seq![sep] + rest, sep) == seq![part] + split(rest, sep),
{
    lemma_index_of(part, sep, part.len() as int);
    let whole = part + seq![sep] + rest;
    lemma_index_of(whole, sep, part.len() as int);
    assert(whole.take(part.len() as int) =~= part);
    assert(whole.skip(part.len() as int + 1) =~= rest);
}

/// Tells whether `chars` is the text `text`.
pub fn same_text(chars: &Vec<char>, text: &str) -> (same: bool)
    ensures
        same == (chars@ == text@),
{
    let wanted = chars_of(text);
    if wanted.len() != chars.len() {
        return false;
    }
    let found = has_prefix(chars, text);
    proof {
        assert(chars@.subrange(0, chars@.len() as int) =~= chars@);
    }
    found
}

/// What is said of a text that is not a number.
pub open spec fn int_error_text(kind: IntErrorKind) -> Seq<char> {
    match kind {
        IntErrorKind::Empty => "cannot parse integer from empty string"@,
        IntErrorKind::InvalidDigit => "invalid digit found in string"@,
        IntErrorKind::PosOverflow => "number too large to fit in target type"@,
        IntErrorKind::NegOverflow => "number too small to fit in target type"@,
    }
}

impl IntErrorKind {
    /// What is said of this error.
    pub fn message(&self) -> (text: &'static str)
        ensures
            text@ == int_error_text(*self),
    {
        match self {
            IntErrorKind::Empty => "cannot parse integer from empty string",
            IntErrorKind::InvalidDigit => "invalid digit found in string",
            IntErrorKind::PosOverflow => "number too large to fit in target type",
            IntErrorKind::NegOverflow => "number too small to fit in target type",
        }
    }
}

/// Whether `pattern` stands in `text` at the index `at`.
pub open spec fn occurs_at(text: Seq<char>, pattern: Seq<char>, at: int) -> bool {
    0 <= at && at + pattern.len() <= text.len() && text.subrange(at, at + pattern.len())
        == pattern
}

/// Whether `pattern` stands somewhere in `text`.
pub open spec fn occurs_in(text: Seq<char>, pattern: Seq<char>) -> bool {
    exists|at: int| occurs_at(text, pattern, at)
}

/// `text` with every occurrence of `from` replaced by `to`, found from the
/// left, none overlapping another. An empty `from` stands before every
/// character and at the end.
pub open spec fn replaced(text: Seq<char>, from: Seq<char>, to: Seq<char>) -> Seq<char>
    decreases text.len(),
{
    if text.len() == 0 {
        if from.len() == 0 {
            to
        } else {
            text
        }
    } else if from.len() == 0 {
        to + seq![text.first()] + replaced(text.drop_first(), from, to)
    } else if occurs_at(text, from, 0) {
        to + replaced(text.skip(from.len() as int), from, to)
    } else {
        seq![text.first()] + replaced(text.drop_first(), from, to)
    }
}

/// Tells whether `pattern` stands in `chars` at the index `at`.
pub fn matches_at(chars: &Vec<char>, pattern: &Vec<char>, at: usize) -> (found: bool)
    requires
        at <= chars.len(),
    ensures
        found == occurs_at(chars@, pattern@, at as int),
{
    if pattern.len() > chars.len() - at {
        return false;
    }
    let mut k: usize = 0;
    while k < pattern.len()
        invariant
            k <= pattern.len(),
            at + pattern.len() <= chars.len(),
            forall|j: int| 0 <= j < k ==> chars@[at + j] == pattern@[j],
        decreases pattern.len() - k,
    {
        if chars[at + k] != pattern[k] {
            proof {
                assert(chars@.subrange(at as int, at + pattern.len())[k as int] != pattern@[k as int]);
            }
            return false;
        }
        k = k + 1;
    }
    proof {
        assert(chars@.subrange(at as int, at + pattern.len()) =~= pattern@);
    }
    true
}

/// Tells whether `pattern` stands somewhere in `text`.
pub fn contains(text: &str, pattern: &str) -> (found: bool)
    ensures
        found == occurs_in(text@, pattern@),
{
    let chars = chars_of(text);
    let wanted = chars_of(pattern);
    let mut at: usize = 0;
    while at < chars.len()
        invariant
            at <= chars.len(),
            chars@ == text@,
            wanted@ == pattern@,
            forall|j: int| 0 <= j < at ==> !occurs_at(text@, pattern@, j),
        decreases chars.len() - at,
    {
        if matches_at(&chars, &wanted, at) {
            return true;
        }
        at = at + 1;
    }
    matches_at(&chars, &wanted, at)
}

proof fn lemma_replaced_skips(text: Seq<char>, from: Seq<char>, to: Seq<char>, count: int)
    requires
        from.len() > 0,
        0 <= count <= text.len(),
        forall|j: int| 0 <= j < count ==> !occurs_at(text, from, j),
    ensures
        replaced(text, from, to) == text.take(count) + replaced(text.skip(count), from, to),
    decreases count,
{
    if count == 0 {
        assert(text.skip(0) =~= text);
        assert(text.take(0) + replaced(text, from, to) =~= replaced(text, from, to));
    } else {
        let rest = text.drop_first();
        assert forall|j: int| 0 <= j < count - 1 implies !occurs_at(rest, from, j) by {
            assert(!occurs_at(text, from, j + 1));
            if j + from.len() <= rest.len() {
                assert(rest.subrange(j, j + from.len()) =~= text.subrange(
                    j + 1,
                    j + 1 + from.len(),
                ));
            }
        }
        lemma_replaced_skips(rest, from, to, count - 1);
        assert(rest.skip(count - 1) =~= text.skip(count));
        assert(seq![text.first()] + rest.take(count - 1) =~= text.take(count));
    }
}

/// Replaces every occurrence of `from` in `text` by `to`.
pub fn replace(text: &str, from: &str, to: &str) -> (out: String)
    ensures
        out@ == replaced(text@, from@, to@),
{
    let chars = chars_of(text);
    let pattern = chars_of(from);
    let mut out = String::new();
    proof {
        assert(text@.skip(0) =~= text@);
        assert(out@ + replaced(text@, from@, to@) =~= replaced(text@, from@, to@));
    }
    if pattern.len() == 0 {
        let mut i: usize = 0;
        while i < chars.len()
            invariant
                i <= chars.len(),
                chars@ == text@,
                from@.len() == 0,
                replaced(text@, from@, to@) == out@ + replaced(text@.skip(i as int), from@, to@),
            decreases chars.len() - i,
        {
            let ghost rest = text@.skip(i as int);
            out.append(to);
            out.append(text.substring_char(i, i + 1));
            proof {
                assert(text@.subrange(i as int, i + 1) =~= seq![rest.first()]);
                assert(rest.drop_first() =~= text@.skip(i + 1));
            }
            i = i + 1;
        }
        out.append(to);
        return out;
    }
    let mut start: usize = 0;
    let mut i: usize = 0;
    while i < chars.len()
        invariant
            start <= i <= chars.len(),
            chars@ == text@,
            pattern@ == from@,
            from@.len() > 0,
            forall|j: int| start <= j < i ==> !occurs_at(text@, from@, j),
            replaced(text@, from@, to@) == out@ + replaced(text@.skip(start as int), from@, to@),
        decreases chars.len() - i,
    {
        if matches_at(&chars, &pattern, i) {
            let ghost rest = text@.skip(start as int);
            proof {
                assert forall|j: int| 0 <= j < i - start implies !occurs_at(rest, from@, j) by {
                    assert(!occurs_at(text@, from@, start + j));
                    if j + from@.len() <= rest.len() {
                        assert(rest.subrange(j, j + from@.len()) =~= text@.subrange(
                            start + j,
                            start + j + from@.len(),
                        ));
                    }
                }
                lemma_replaced_skips(rest, from@, to@, i - start);
                let tail = rest.skip(i - start);
                assert(tail =~= text@.skip(i as int));
                assert(tail.subrange(0, from@.len() as int) =~= text@.subrange(
                    i as int,
                    i + from@.len(),
                ));
                assert(occurs_at(tail, from@, 0));
                assert(tail.skip(from@.len() as int) =~= text@.skip(i + from@.len()));
                assert(rest.take(i - start) =~= text@.subrange(start as int, i as int));
            }
            out.append(text.substring_char(start, i));
            out.append(to);
            i = i + pattern.len();
            start = i;
        } else {
            i = i + 1;
        }
    }
    proof {
        let rest = text@.skip(start as int);
        assert forall|j: int| 0 <= j < rest.len() implies !occurs_at(rest, from@, j) by {
            assert(!occurs_at(text@, from@, start + j));
            if j + from@.len() <= rest.len() {
                assert(rest.subrange(j, j + from@.len()) =~= text@.subrange(
                    start + j,
                    start + j + from@.len(),
                ));
            }
        }
        lemma_replaced_skips(rest, from@, to@, rest.len() as int);
        assert(rest.take(rest.len() as int) =~= rest);
        assert(rest.skip(rest.len() as int) =~= Seq::<char>::empty());
        assert(rest =~= text@.subrange(start as int, chars.len() as int));
    }
    out.append(text.substring_char(start, chars.len()));
    out
}

} // verus!
