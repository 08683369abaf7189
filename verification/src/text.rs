//! Text as sequences of characters: whitespace, trimming, lines, and
//! conversions between strings and character vectors.

use vstd::prelude::*;
use vstd::string::StringExecFns;

verus! {

/// Whether `c` has the Unicode property `White_Space`.
pub open spec fn is_whitespace(c: char) -> bool {
    let n = c as u32;
    ||| 0x09 <= n <= 0x0D
    ||| n == 0x20
    ||| n == 0x85
    ||| n == 0xA0
    ||| n == 0x1680
    ||| 0x2000 <= n <= 0x200A
    ||| n == 0x2028
    ||| n == 0x2029
    ||| n == 0x202F
    ||| n == 0x205F
    ||| n == 0x3000
}

/// `s` without its leading whitespace.
pub open spec fn trim_start(s: Seq<char>) -> Seq<char>
    decreases s.len(),
{
    if s.len() > 0 && is_whitespace(s[0]) {
        trim_start(s.skip(1))
    } else {
        s
    }
}

/// `s` without its trailing whitespace.
pub open spec fn trim_end(s: Seq<char>) -> Seq<char>
    decreases s.len(),
{
    if s.len() > 0 && is_whitespace(s.last()) {
        trim_end(s.drop_last())
    } else {
        s
    }
}

/// `s` without leading and trailing whitespace.
pub open spec fn trim(s: Seq<char>) -> Seq<char> {
    trim_end(trim_start(s))
}

/// Position of the first `c` in `s`, or the length of `s` if it has none.
pub open spec fn first_of(s: Seq<char>, c: char) -> int
    decreases s.len(),
{
    if s.len() == 0 || s[0] == c {
        0
    } else {
        1 + first_of(s.skip(1), c)
    }
}

/// Position of the first line feed in `s`, or the length of `s` if it has none.
pub open spec fn first_newline(s: Seq<char>) -> int {
    first_of(s, '\n')
}

/// `line` without one trailing carriage return, if it has one.
pub open spec fn strip_carriage_return(line: Seq<char>) -> Seq<char> {
    if line.len() > 0 && line.last() == '\r' {
        line.drop_last()
    } else {
        line
    }
}

/// The lines of `s`. A line ends at a line feed, or at a carriage return
/// directly before a line feed; the terminator is not part of the line. The
/// last line needs no terminator, and a terminator at the very end opens no
/// further line.
pub open spec fn lines(s: Seq<char>) -> Seq<Seq<char>>
    decreases s.len(),
{
    if s.len() == 0 {
        Seq::empty()
    } else {
        let n = first_newline(s);
        if n >= s.len() {
            seq![s]
        } else {
            proof {
                lemma_first_of_bounds(s, '\n');
            }
            seq![strip_carriage_return(s.take(n))] + lines(s.skip(n + 1))
        }
    }
}

/// The first `c` lies within the sequence, and no `c` stands before it.
pub proof fn lemma_first_of_bounds(s: Seq<char>, c: char)
    ensures
        0 <= first_of(s, c) <= s.len(),
        first_of(s, c) < s.len() ==> s[first_of(s, c)] == c,
        forall|i: int| 0 <= i < first_of(s, c) ==> s[i] != c,
    decreases s.len(),
{
    if s.len() == 0 || s[0] == c {
    } else {
        let rest = s.skip(1);
        lemma_first_of_bounds(rest, c);
        assert forall|i: int| 0 <= i < first_of(s, c) implies s[i] != c by {
            if i > 0 {
                assert(s[i] == rest[i - 1]);
            }
        }
        if first_of(s, c) < s.len() {
            assert(s[first_of(s, c)] == rest[first_of(rest, c)]);
        }
    }
}

/// The line of `s` that starts at `pos`, without its terminator.
pub open spec fn next_line(s: Seq<char>, pos: int) -> Seq<char>
    recommends
        0 <= pos < s.len(),
{
    let end = pos + first_newline(s.skip(pos));
    if end < s.len() {
        strip_carriage_return(s.subrange(pos, end))
    } else {
        s.subrange(pos, end)
    }
}

/// Where the line after the one that starts at `pos` starts, or the length
/// of `s` if that line is the last.
pub open spec fn after_line(s: Seq<char>, pos: int) -> int
    recommends
        0 <= pos < s.len(),
{
    let end = pos + first_newline(s.skip(pos));
    if end < s.len() {
        end + 1
    } else {
        end
    }
}

/// The lines of the text from `pos` on are the line that starts at `pos`,
/// then the lines of the text behind that line.
pub proof fn lemma_lines_unfold(s: Seq<char>, pos: int)
    requires
        0 <= pos < s.len(),
    ensures
        pos < after_line(s, pos) <= s.len(),
        lines(s.skip(pos)) == seq![next_line(s, pos)] + lines(s.skip(after_line(s, pos))),
{
    let rest = s.skip(pos);
    let n = first_newline(rest);
    lemma_first_of_bounds(rest, '\n');
    if n >= rest.len() {
        assert(s.subrange(pos, pos + n) =~= rest);
        assert(lines(s.skip(pos + n)) =~= Seq::<Seq<char>>::empty());
        assert(seq![rest] + Seq::<Seq<char>>::empty() =~= seq![rest]);
    } else {
        assert(rest.take(n) =~= s.subrange(pos, pos + n));
        assert(rest.skip(n + 1) =~= s.skip(pos + n + 1));
    }
}

/// The characters of `s`, in order.
pub fn to_chars(s: &str) -> (chars: Vec<char>)
    ensures
        chars@ == s@,
{
    let mut chars: Vec<char> = Vec::new();
    for c in it: s.chars()
        invariant
            chars@ == it.seq().take(it.index()),
            it.seq() == s@,
    {
        chars.push(c);
    }
    chars
}

/// `String::push`: appends one character to the end of the string.
pub assume_specification[ String::push ](s: &mut String, c: char)
    ensures
        final(s)@ == old(s)@.push(c),
;

/// The string made of `chars[from..to]`.
pub fn string_from(chars: &Vec<char>, from: usize, to: usize) -> (s: String)
    requires
        from <= to <= chars@.len(),
    ensures
        s@ == chars@.subrange(from as int, to as int),
{
    let mut s = String::new();
    let mut i = from;
    while i < to
        invariant
            from <= i <= to <= chars@.len(),
            s@ == chars@.subrange(from as int, i as int),
        decreases to - i,
    {
        s.push(chars[i]);
        i += 1;
        assert(s@ =~= chars@.subrange(from as int, i as int));
    }
    s
}

/// Whether `c` is whitespace.
pub fn char_is_whitespace(c: char) -> (b: bool)
    ensures
        b == is_whitespace(c),
{
    let n: u32 = c as u32;
    (0x09 <= n && n <= 0x0D) || n == 0x20 || n == 0x85 || n == 0xA0 || n == 0x1680 || (0x2000 <= n
        && n <= 0x200A) || n == 0x2028 || n == 0x2029 || n == 0x202F || n == 0x205F || n == 0x3000
}

/// Trims the window `chars[from..to]`: returns the bounds of the window
/// without its leading and trailing whitespace.
pub fn trim_window(chars: &Vec<char>, from: usize, to: usize) -> (bounds: (usize, usize))
    requires
        from <= to <= chars@.len(),
    ensures
        from <= bounds.0 <= bounds.1 <= to,
        chars@.subrange(bounds.0 as int, bounds.1 as int) == trim(
            chars@.subrange(from as int, to as int),
        ),
{
    let mut a = from;
    while a < to && char_is_whitespace(chars[a])
        invariant
            from <= a <= to <= chars@.len(),
            trim_start(chars@.subrange(from as int, to as int)) == trim_start(
                chars@.subrange(a as int, to as int),
            ),
        decreases to - a,
    {
        assert(chars@.subrange(a as int, to as int).skip(1) =~= chars@.subrange(
            a as int + 1,
            to as int,
        ));
        a += 1;
    }
    assert(trim_start(chars@.subrange(a as int, to as int)) == chars@.subrange(
        a as int,
        to as int,
    ));
    let mut b = to;
    while b > a && char_is_whitespace(chars[b - 1])
        invariant
            a <= b <= to <= chars@.len(),
            trim_end(chars@.subrange(a as int, to as int)) == trim_end(
                chars@.subrange(a as int, b as int),
            ),
        decreases b - a,
    {
        assert(chars@.subrange(a as int, b as int).drop_last() =~= chars@.subrange(
            a as int,
            b as int - 1,
        ));
        b -= 1;
    }
    assert(trim_end(chars@.subrange(a as int, b as int)) == chars@.subrange(a as int, b as int));
    (a, b)
}

/// Finds the first `c` in the window `chars[from..to]`: its position, or
/// `to` if the window holds none.
pub fn find_char(chars: &Vec<char>, from: usize, to: usize, c: char) -> (at: usize)
    requires
        from <= to <= chars@.len(),
    ensures
        from <= at <= to,
        at - from == first_of(chars@.subrange(from as int, to as int), c),
{
    let mut at = from;
    while at < to && chars[at] != c
        invariant
            from <= at <= to <= chars@.len(),
            first_of(chars@.subrange(from as int, to as int), c) == (at - from) + first_of(
                chars@.subrange(at as int, to as int),
                c,
            ),
        decreases to - at,
    {
        assert(chars@.subrange(at as int, to as int).skip(1) =~= chars@.subrange(
            at as int + 1,
            to as int,
        ));
        at += 1;
    }
    at
}

/// Finds the line that starts at `pos`: returns where the line ends, its
/// terminator left out, and where the next line starts.
pub fn line_window(chars: &Vec<char>, pos: usize) -> (bounds: (usize, usize))
    requires
        pos < chars@.len(),
    ensures
        pos <= bounds.0 <= bounds.1 <= chars@.len(),
        pos < bounds.1,
        chars@.subrange(pos as int, bounds.0 as int) == next_line(chars@, pos as int),
        bounds.1 == after_line(chars@, pos as int),
{
    assert(chars@.subrange(pos as int, chars@.len() as int) =~= chars@.skip(pos as int));
    let at = find_char(chars, pos, chars.len(), '\n');
    if at < chars.len() {
        if at > pos && chars[at - 1] == '\r' {
            assert(chars@.subrange(pos as int, at as int).drop_last() =~= chars@.subrange(
                pos as int,
                at as int - 1,
            ));
            (at - 1, at + 1)
        } else {
            (at, at + 1)
        }
    } else {
        (at, at)
    }
}

/// Whether `prefix` stands at the start of `s`.
pub open spec fn starts_with(s: Seq<char>, prefix: Seq<char>) -> bool {
    prefix.len() <= s.len() && s.take(prefix.len() as int) == prefix
}

/// Whether the window `chars[from..to]` starts with `prefix`.
pub fn window_starts_with(chars: &Vec<char>, from: usize, to: usize, prefix: &str) -> (b: bool)
    requires
        from <= to <= chars@.len(),
    ensures
        b == starts_with(chars@.subrange(from as int, to as int), prefix@),
{
    let wanted = to_chars(prefix);
    let ghost window = chars@.subrange(from as int, to as int);
    if wanted.len() > to - from {
        return false;
    }
    let mut i: usize = 0;
    while i < wanted.len()
        invariant
            from <= to <= chars@.len(),
            wanted@ == prefix@,
            wanted@.len() <= to - from,
            window == chars@.subrange(from as int, to as int),
            0 <= i <= wanted@.len(),
            forall|j: int| 0 <= j < i ==> window[j] == wanted@[j],
        decreases wanted@.len() - i,
    {
        if chars[from + i] != wanted[i] {
            assert(window.take(wanted@.len() as int)[i as int] != wanted@[i as int]);
            return false;
        }
        i += 1;
    }
    assert(window.take(wanted@.len() as int) =~= wanted@);
    true
}

/// Whether `c` is one of the ten decimal digits.
pub open spec fn is_digit(c: char) -> bool {
    '0' <= c <= '9'
}

/// The number that the decimal digit `c` stands for.
pub open spec fn digit_value(c: char) -> nat
    recommends
        is_digit(c),
{
    (c as u32 - '0' as u32) as nat
}

/// Whether `s` holds decimal digits only.
pub open spec fn all_digits(s: Seq<char>) -> bool {
    forall|i: int| 0 <= i < s.len() ==> is_digit(#[trigger] s[i])
}

/// The number written by the decimal digits `s`, most significant first.
pub open spec fn digits_value(s: Seq<char>) -> nat
    decreases s.len(),
{
    if s.len() == 0 {
        0
    } else {
        digits_value(s.drop_last()) * 10 + digit_value(s.last())
    }
}

/// The number that `s` writes in decimal, if it writes one that fits in 64
/// bits: an optional `+`, then one or more digits and nothing else.
pub open spec fn parse_u64(s: Seq<char>) -> Option<u64> {
    let digits = if s.len() > 0 && s[0] == '+' {
        s.skip(1)
    } else {
        s
    };
    if digits.len() > 0 && all_digits(digits) && digits_value(digits) <= u64::MAX {
        Some(digits_value(digits) as u64)
    } else {
        None
    }
}

/// A number is at least the number written by any prefix of its digits.
pub proof fn lemma_digits_value_grows(s: Seq<char>, k: int)
    requires
        0 <= k <= s.len(),
    ensures
        digits_value(s.take(k)) <= digits_value(s),
    decreases s.len(),
{
    if k == s.len() {
        assert(s.take(k) =~= s);
    } else {
        lemma_digits_value_grows(s.drop_last(), k);
        assert(s.drop_last().take(k) =~= s.take(k));
    }
}

/// Reads the window `chars[from..to]` as a decimal number of 64 bits.
pub fn parse_u64_window(chars: &Vec<char>, from: usize, to: usize) -> (n: Option<u64>)
    requires
        from <= to <= chars@.len(),
    ensures
        n == parse_u64(chars@.subrange(from as int, to as int)),
{
    let ghost window = chars@.subrange(from as int, to as int);
    let start: usize = if from < to && chars[from] == '+' {
        from + 1
    } else {
        from
    };
    let ghost digits = chars@.subrange(start as int, to as int);
    assert(digits =~= if window.len() > 0 && window[0] == '+' {
        window.skip(1)
    } else {
        window
    });
    if start == to {
        return None;
    }
    let mut value: u64 = 0;
    let mut i: usize = start;
    while i < to
        invariant
            from <= start <= i <= to <= chars@.len(),
            window == chars@.subrange(from as int, to as int),
            digits == chars@.subrange(start as int, to as int),
            digits == if window.len() > 0 && window[0] == '+' {
                window.skip(1)
            } else {
                window
            },
            all_digits(digits.take(i - start)),
            value == digits_value(digits.take(i - start)),
        decreases to - i,
    {
        let c = chars[i];
        assert(c == digits[i - start]);
        if !('0' <= c && c <= '9') {
            assert(!is_digit(digits[i - start]));
            return None;
        }
        let d: u64 = (c as u32 - '0' as u32) as u64;
        let ghost longer = digits.take(i - start + 1);
        assert(longer.drop_last() =~= digits.take(i - start));
        assert(longer.last() == c);
        assert(digits_value(longer) == value * 10 + d);
        let next = match value.checked_mul(10) {
            Some(tens) => tens.checked_add(d),
            None => None,
        };
        match next {
            Some(v) => {
                value = v;
            },
            None => {
                assert(digits_value(longer) > u64::MAX);
                proof {
                    lemma_digits_value_grows(digits, i - start + 1);
                }
                return None;
            },
        }
        assert forall|j: int| 0 <= j < longer.len() implies is_digit(#[trigger] longer[j]) by {
            if j < i - start {
                assert(longer[j] == digits.take(i - start)[j]);
            }
        }
        i += 1;
    }
    assert(digits.take(to - start) =~= digits);
    Some(value)
}

/// The decimal digit that stands for `d`.
pub open spec fn digit_char(d: nat) -> char
    recommends
        d < 10,
{
    if d == 0 {
        '0'
    } else if d == 1 {
        '1'
    } else if d == 2 {
        '2'
    } else if d == 3 {
        '3'
    } else if d == 4 {
        '4'
    } else if d == 5 {
        '5'
    } else if d == 6 {
        '6'
    } else if d == 7 {
        '7'
    } else if d == 8 {
        '8'
    } else {
        '9'
    }
}

/// `n` written in decimal, without leading zeros.
pub open spec fn decimal(n: nat) -> Seq<char>
    decreases n,
{
    if n < 10 {
        seq![digit_char(n)]
    } else {
        decimal(n / 10).push(digit_char(n % 10))
    }
}

/// `v` written in decimal, with a minus sign in front if it is negative.
pub open spec fn int_text(v: int) -> Seq<char> {
    if v < 0 {
        seq!['-'] + decimal((-v) as nat)
    } else {
        decimal(v as nat)
    }
}

/// `b` written as a word.
pub open spec fn bool_text(b: bool) -> Seq<char> {
    if b {
        "true"@
    } else {
        "false"@
    }
}

/// `parts` in order, with `sep` between each two neighbours.
pub open spec fn join(parts: Seq<Seq<char>>, sep: Seq<char>) -> Seq<char>
    decreases parts.len(),
{
    if parts.len() == 0 {
        Seq::empty()
    } else if parts.len() == 1 {
        parts[0]
    } else {
        join(parts.drop_last(), sep) + sep + parts.last()
    }
}

/// The decimal digit that stands for `d`.
pub fn digit_to_char(d: u64) -> (c: char)
    requires
        d < 10,
    ensures
        c == digit_char(d as nat),
{
    if d == 0 {
        '0'
    } else if d == 1 {
        '1'
    } else if d == 2 {
        '2'
    } else if d == 3 {
        '3'
    } else if d == 4 {
        '4'
    } else if d == 5 {
        '5'
    } else if d == 6 {
        '6'
    } else if d == 7 {
        '7'
    } else if d == 8 {
        '8'
    } else {
        '9'
    }
}

/// Appends `n`, written in decimal, to `buf`.
pub fn push_decimal(buf: &mut String, n: u64)
    ensures
        final(buf)@ == old(buf)@ + decimal(n as nat),
    decreases n,
{
    if n >= 10 {
        push_decimal(buf, n / 10);
    }
    buf.push(digit_to_char(n % 10));
    assert(buf@ =~= old(buf)@ + decimal(n as nat));
}

/// Appends `v`, written in decimal, to `buf`.
pub fn push_int(buf: &mut String, v: i32)
    ensures
        final(buf)@ == old(buf)@ + int_text(v as int),
{
    if v < 0 {
        buf.push('-');
        let magnitude: u64 = (-(v as i64)) as u64;
        push_decimal(buf, magnitude);
        assert(buf@ =~= old(buf)@ + int_text(v as int));
    } else {
        push_decimal(buf, v as u64);
    }
}

/// Appends `b`, written as a word, to `buf`.
pub fn push_bool(buf: &mut String, b: bool)
    ensures
        final(buf)@ == old(buf)@ + bool_text(b),
{
    if b {
        buf.append("true");
    } else {
        buf.append("false");
    }
}

/// The values of a slice of strings.
pub open spec fn string_views(parts: Seq<String>) -> Seq<Seq<char>> {
    parts.map_values(|part: String| part@)
}

/// Joins `parts` in order, with `sep` between each two neighbours.
pub fn join_strings(parts: &[String], sep: &str) -> (joined: String)
    ensures
        joined@ == join(string_views(parts@), sep@),
{
    let mut joined = String::new();
    let mut i: usize = 0;
    while i < parts.len()
        invariant
            0 <= i <= parts@.len(),
            joined@ == join(string_views(parts@).take(i as int), sep@),
        decreases parts@.len() - i,
    {
        let ghost views = string_views(parts@);
        if i > 0 {
            joined.append(sep);
        }
        joined.append(parts[i].as_str());
        assert(views.take(i + 1).drop_last() =~= views.take(i as int));
        assert(views.take(i + 1).last() == parts@[i as int]@);
        assert(joined@ =~= join(views.take(i + 1), sep@));
        i += 1;
    }
    assert(string_views(parts@).take(i as int) =~= string_views(parts@));
    joined
}

} // verus!
