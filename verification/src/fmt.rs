use vstd::prelude::*;
use vstd::string::*;

verus! {

/// The decimal digit character for `d` (`d < 10`).
pub open spec fn digit_char(d: nat) -> char {
    (48 + d) as char
}

/// The decimal representation of `n`, without leading zeros.
pub open spec fn decimal(n: nat) -> Seq<char>
    decreases n,
{
    if n < 10 {
        seq![digit_char(n)]
    } else {
        decimal(n / 10).push(digit_char(n % 10))
    }
}

/// The lowercase hexadecimal digit character for `d` (`d < 16`).
pub open spec fn hex_char(d: nat) -> char {
    if d < 10 {
        (48 + d) as char
    } else {
        (87 + d) as char
    }
}

/// A byte as two lowercase hexadecimal digits.
pub open spec fn hex_byte(b: u8) -> Seq<char> {
    seq![hex_char((b / 16) as nat), hex_char((b % 16) as nat)]
}

/// `n` in decimal, padded with a leading zero to at least two digits.
pub open spec fn decimal2(n: nat) -> Seq<char> {
    if n < 10 {
        seq!['0'] + decimal(n)
    } else {
        decimal(n)
    }
}

/// `s` followed by spaces up to a width of `w` characters.
pub open spec fn pad_right(s: Seq<char>, w: nat) -> Seq<char> {
    if s.len() >= w {
        s
    } else {
        s + Seq::new((w - s.len()) as nat, |i: int| ' ')
    }
}

/// The one-character string of a decimal digit.
fn digit_str(d: u64) -> (s: &'static str)
    requires
        d < 10,
    ensures
        s@ == seq![digit_char(d as nat)],
{
    proof {
        reveal_strlit("0");
        reveal_strlit("1");
        reveal_strlit("2");
        reveal_strlit("3");
        reveal_strlit("4");
        reveal_strlit("5");
        reveal_strlit("6");
        reveal_strlit("7");
        reveal_strlit("8");
        reveal_strlit("9");
    }
    match d {
        0 => "0",
        1 => "1",
        2 => "2",
        3 => "3",
        4 => "4",
        5 => "5",
        6 => "6",
        7 => "7",
        8 => "8",
        _ => "9",
    }
}

/// The one-character string of a lowercase hexadecimal digit.
fn hex_str(d: u8) -> (s: &'static str)
    requires
        d < 16,
    ensures
        s@ == seq![hex_char(d as nat)],
{
    if d < 10 {
        digit_str(d as u64)
    } else {
        proof {
            reveal_strlit("a");
            reveal_strlit("b");
            reveal_strlit("c");
            reveal_strlit("d");
            reveal_strlit("e");
            reveal_strlit("f");
        }
        match d {
            10 => "a",
            11 => "b",
            12 => "c",
            13 => "d",
            14 => "e",
            _ => "f",
        }
    }
}

/// Appends the decimal representation of `n` to `s`.
pub fn push_decimal(s: &mut String, n: u64)
    ensures
        final(s)@ == old(s)@ + decimal(n as nat),
    decreases n,
{
    if n >= 10 {
        push_decimal(s, n / 10);
    }
    s.append(digit_str(n % 10));
    proof {
        if n < 10 {
            assert(old(s)@ + decimal(n as nat) =~= old(s)@ + seq![digit_char(n as nat)]);
        } else {
            assert(decimal(n as nat) == decimal((n / 10) as nat).push(digit_char((n % 10) as nat)));
        }
    }
}

/// The decimal representation of `n`.
pub fn decimal_string(n: u64) -> (s: String)
    ensures
        s@ == decimal(n as nat),
{
    let mut s = String::new();
    push_decimal(&mut s, n);
    s
}

/// Appends `n` in decimal with at least two digits.
pub fn push_decimal2(s: &mut String, n: u64)
    ensures
        final(s)@ == old(s)@ + decimal2(n as nat),
{
    if n < 10 {
        proof {
            reveal_strlit("0");
        }
        s.append("0");
    }
    push_decimal(s, n);
}

/// Appends the byte `b` as two lowercase hexadecimal digits.
pub fn push_hex_byte(s: &mut String, b: u8)
    ensures
        final(s)@ == old(s)@ + hex_byte(b),
{
    s.append(hex_str(b / 16));
    s.append(hex_str(b % 16));
}

/// Appends spaces to `s` until it is `w` characters long.
pub fn pad_to(s: &mut String, w: usize)
    ensures
        final(s)@ == pad_right(old(s)@, w as nat),
{
    let len = s.as_str().unicode_len();
    if len >= w {
        return;
    }
    let ghost start = s@;
    let mut k = len;
    proof {
        reveal_strlit(" ");
    }
    while k < w
        invariant
            len <= k <= w,
            len == start.len(),
            s@ =~= start + Seq::new((k - len) as nat, |i: int| ' '),
        decreases w - k,
    {
        let ghost before = s@;
        s.append(" ");
        proof {
            reveal_strlit(" ");
        }
        assert(" "@ =~= seq![' ']);
        assert(s@ =~= start + Seq::new((k + 1 - len) as nat, |i: int| ' '));
        k = k + 1;
    }
}

/// Whether `c` has the Unicode `White_Space` property (what
/// `char::is_whitespace` tests).
pub open spec fn is_whitespace(c: char) -> bool {
    ||| ('\t' <= c && c <= '\r')
    ||| c == ' '
    ||| c == '\u{85}'
    ||| c == '\u{a0}'
    ||| c == '\u{1680}'
    ||| ('\u{2000}' <= c && c <= '\u{200a}')
    ||| c == '\u{2028}'
    ||| c == '\u{2029}'
    ||| c == '\u{202f}'
    ||| c == '\u{205f}'
    ||| c == '\u{3000}'
}

fn char_is_whitespace(c: char) -> (b: bool)
    ensures
        b == is_whitespace(c),
{
    ('\t' <= c && c <= '\r') || c == ' ' || c == '\u{85}' || c == '\u{a0}' || c == '\u{1680}' || (
    '\u{2000}' <= c && c <= '\u{200a}') || c == '\u{2028}' || c == '\u{2029}' || c == '\u{202f}'
        || c == '\u{205f}' || c == '\u{3000}'
}

/// Index of the first character of `s` at or after `i` that is not
/// whitespace, or `s.len()`.
pub open spec fn skip_ws_from(s: Seq<char>, i: int) -> int
    decreases s.len() - i,
{
    if i < 0 || i >= s.len() {
        s.len() as int
    } else if is_whitespace(s[i]) {
        skip_ws_from(s, i + 1)
    } else {
        i
    }
}

/// One past the last character of `s` before `j` that is not whitespace,
/// or `lo` when all characters in `lo..j` are.
pub open spec fn skip_ws_back(s: Seq<char>, lo: int, j: int) -> int
    decreases j - lo,
{
    if j <= lo {
        lo
    } else if is_whitespace(s[j - 1]) {
        skip_ws_back(s, lo, j - 1)
    } else {
        j
    }
}

/// `s` without leading and trailing whitespace.
pub open spec fn trimmed(s: Seq<char>) -> Seq<char> {
    let lo = skip_ws_from(s, 0);
    s.subrange(lo, skip_ws_back(s, lo, s.len() as int))
}

proof fn lemma_skip_ws_from(s: Seq<char>, i: int)
    requires
        0 <= i <= s.len(),
    ensures
        i <= skip_ws_from(s, i) <= s.len(),
    decreases s.len() - i,
{
    if i < s.len() && is_whitespace(s[i]) {
        lemma_skip_ws_from(s, i + 1);
    }
}

proof fn lemma_skip_ws_back(s: Seq<char>, lo: int, j: int)
    requires
        lo <= j,
    ensures
        lo <= skip_ws_back(s, lo, j) <= j,
    decreases j - lo,
{
    if j > lo && is_whitespace(s[j - 1]) {
        lemma_skip_ws_back(s, lo, j - 1);
    }
}

/// `s` with leading and trailing whitespace removed (as `str::trim`).
pub fn trim(s: &str) -> (r: &str)
    ensures
        r@ == trimmed(s@),
{
    let n = s.unicode_len();
    let mut lo: usize = 0;
    while lo < n && char_is_whitespace(s.get_char(lo))
        invariant
            n == s@.len(),
            lo <= n,
            skip_ws_from(s@, 0) == skip_ws_from(s@, lo as int),
        decreases n - lo,
    {
        lo = lo + 1;
    }
    let mut hi: usize = n;
    while hi > lo && char_is_whitespace(s.get_char(hi - 1))
        invariant
            n == s@.len(),
            lo <= hi <= n,
            skip_ws_from(s@, 0) == lo,
            skip_ws_back(s@, lo as int, n as int) == skip_ws_back(s@, lo as int, hi as int),
        decreases hi - lo,
    {
        hi = hi - 1;
    }
    s.substring_char(lo, hi)
}

/// Index of the first space in `s`, or -1.
pub open spec fn first_space_from(s: Seq<char>, i: int) -> int
    decreases s.len() - i,
{
    if i < 0 || i >= s.len() {
        -1
    } else if s[i] == ' ' {
        i
    } else {
        first_space_from(s, i + 1)
    }
}

/// `s` split at spaces into at most `n` parts (as `str::splitn(n, ' ')`):
/// the last part keeps the rest of the string, spaces included.
pub open spec fn split_spaces(s: Seq<char>, n: nat) -> Seq<Seq<char>>
    decreases n,
{
    let i = first_space_from(s, 0);
    if n == 0 {
        Seq::empty()
    } else if n == 1 || i < 0 {
        seq![s]
    } else {
        seq![s.take(i)] + split_spaces(s.skip(i + 1), (n - 1) as nat)
    }
}

proof fn lemma_first_space_from(s: Seq<char>, i: int)
    requires
        0 <= i,
    ensures
        first_space_from(s, i) == -1 || (i <= first_space_from(s, i) < s.len() && s[first_space_from(
            s,
            i,
        )] == ' '),
    decreases s.len() - i,
{
    if i < s.len() && s[i] != ' ' {
        lemma_first_space_from(s, i + 1);
    }
}

/// Index of the first space of `s` at or after `from`.
fn find_space(s: &str, from: usize) -> (r: Option<usize>)
    requires
        from <= s@.len(),
    ensures
        r matches Some(i) ==> i as int == first_space_from(s@, from as int),
        r is None ==> first_space_from(s@, from as int) == -1,
{
    let n = s.unicode_len();
    let mut i = from;
    while i < n
        invariant
            n == s@.len(),
            from <= i <= n,
            first_space_from(s@, from as int) == first_space_from(s@, i as int),
        decreases n - i,
    {
        if s.get_char(i) == ' ' {
            return Some(i);
        }
        i = i + 1;
    }
    None
}

/// `s` split at spaces into at most `n` parts (as `str::splitn(n, ' ')`).
pub fn split_n(s: &str, n: usize) -> (parts: Vec<&str>)
    ensures
        parts@.map_values(|p: &str| p@) == split_spaces(s@, n as nat),
{
    let len = s.unicode_len();
    let mut parts: Vec<&str> = Vec::new();
    let mut start: usize = 0;
    let mut k: usize = n;
    assert(s@.skip(0) =~= s@);
    assert(parts@.map_values(|p: &str| p@) =~= Seq::<Seq<char>>::empty());
    while k > 0
        invariant
            len == s@.len(),
            start <= len,
            k <= n,
            parts@.map_values(|p: &str| p@) + split_spaces(s@.skip(start as int), k as nat)
                == split_spaces(s@, n as nat),
        decreases k,
    {
        let ghost rest = s@.skip(start as int);
        proof {
            lemma_first_space_from(rest, 0);
        }
        let found = if k == 1 {
            None
        } else {
            find_space(s, start)
        };
        proof {
            if k > 1 {
                lemma_space_shift(s@, start as int, 0);
            }
        }
        let ghost before = parts@.map_values(|p: &str| p@);
        match found {
            Some(i) => {
                let part = s.substring_char(start, i);
                parts.push(part);
                proof {
                    assert(rest.take(i - start) =~= s@.subrange(start as int, i as int));
                    assert(rest.skip(i - start + 1) =~= s@.skip(i + 1));
                    assert(parts@.map_values(|p: &str| p@) =~= before.push(part@));
                    assert(before + split_spaces(rest, k as nat) =~= before.push(part@)
                        + split_spaces(s@.skip(i + 1), (k - 1) as nat));
                }
                start = i + 1;
                k = k - 1;
            },
            None => {
                let part = s.substring_char(start, len);
                parts.push(part);
                proof {
                    assert(rest =~= s@.subrange(start as int, len as int));
                    assert(parts@.map_values(|p: &str| p@) =~= before.push(part@));
                    assert(split_spaces(rest, k as nat) =~= seq![rest]);
                    assert(before + split_spaces(rest, k as nat) =~= parts@.map_values(
                        |p: &str| p@,
                    ));
                }
                assert(parts@.map_values(|p: &str| p@) == split_spaces(s@, n as nat));
                return parts;
            },
        }
    }
    assert(split_spaces(s@.skip(start as int), 0) =~= Seq::<Seq<char>>::empty());
    assert(parts@.map_values(|p: &str| p@) =~= split_spaces(s@, n as nat));
    parts
}

proof fn lemma_space_shift(s: Seq<char>, start: int, j: int)
    requires
        0 <= start <= s.len(),
        0 <= j,
    ensures
        first_space_from(s.skip(start), j) == -1 ==> first_space_from(s, start + j) == -1,
        first_space_from(s.skip(start), j) >= 0 ==> first_space_from(s, start + j)
            == first_space_from(s.skip(start), j) + start,
    decreases s.len() - start - j,
{
    if j < s.len() - start && s.skip(start)[j] != ' ' {
        lemma_space_shift(s, start, j + 1);
    }
}

/// The value of a string of ASCII digits (most significant first).
pub open spec fn digits_value(s: Seq<char>) -> nat
    decreases s.len(),
{
    if s.len() == 0 {
        0
    } else {
        digits_value(s.drop_last()) * 10 + (s.last() as nat - 48) as nat
    }
}

/// Whether every character of `s` is an ASCII digit.
pub open spec fn all_digits(s: Seq<char>) -> bool {
    forall|i: int| 0 <= i < s.len() ==> '0' <= #[trigger] s[i] && s[i] <= '9'
}

/// What `s.parse::<u32>()` accepts: an optional `+` then at least one ASCII
/// digit, with a value that fits in a `u32`.
pub open spec fn parse_u32_spec(s: Seq<char>) -> Option<u32> {
    let d = if s.len() > 0 && s[0] == '+' {
        s.drop_first()
    } else {
        s
    };
    if d.len() > 0 && all_digits(d) && digits_value(d) <= u32::MAX {
        Some(digits_value(d) as u32)
    } else {
        None
    }
}

proof fn lemma_digits_value_mono(s: Seq<char>, i: int)
    requires
        all_digits(s),
        0 <= i <= s.len(),
    ensures
        digits_value(s.take(i)) <= digits_value(s),
    decreases s.len() - i,
{
    if i < s.len() {
        lemma_digits_value_mono(s, i + 1);
        assert(s.take(i + 1).drop_last() =~= s.take(i));
        assert(s.take(i + 1).last() == s[i]);
    } else {
        assert(s.take(i) =~= s);
    }
}

/// Parses a decimal `u32` (as `str::parse::<u32>`), or `None`.
pub fn parse_u32(s: &str) -> (r: Option<u32>)
    ensures
        r == parse_u32_spec(s@),
{
    let n = s.unicode_len();
    let mut i: usize = 0;
    if n > 0 && s.get_char(0) == '+' {
        i = 1;
    }
    let ghost d = if s@.len() > 0 && s@[0] == '+' {
        s@.drop_first()
    } else {
        s@
    };
    assert(d =~= s@.skip(i as int));
    if i >= n {
        return None;
    }
    let start = i;
    let mut value: u64 = 0;
    while i < n
        invariant
            n == s@.len(),
            start <= i <= n,
            d =~= s@.skip(start as int),
            d == (if s@.len() > 0 && s@[0] == '+' {
                s@.drop_first()
            } else {
                s@
            }),
            all_digits(d.take(i - start)),
            value == digits_value(d.take(i - start)),
            value <= u32::MAX,
        decreases n - i,
    {
        let c = s.get_char(i);
        if !('0' <= c && c <= '9') {
            assert(d[i - start] == c);
            return None;
        }
        let digit = (c as u32 - 48) as u64;
        let next = value * 10 + digit;
        assert(d.take(i - start + 1).drop_last() =~= d.take(i - start));
        assert(d.take(i - start + 1).last() == c);
        if next > 4294967295 {
            proof {
                assert(digits_value(d.take(i - start + 1)) == next);
                if all_digits(d) {
                    lemma_digits_value_mono(d, i - start + 1);
                }
            }
            return None;
        }
        value = next;
        i = i + 1;
    }
    assert(d.take(i - start) =~= d);
    Some(value as u32)
}


/// Index of the first line feed of `s` at or after `i`, or -1.
pub open spec fn newline_from(s: Seq<char>, i: int) -> int
    decreases s.len() - i,
{
    if i < 0 || i >= s.len() {
        -1
    } else if s[i] == '\n' {
        i
    } else {
        newline_from(s, i + 1)
    }
}

/// A line without the carriage return that ended it, if any.
pub open spec fn strip_cr(l: Seq<char>) -> Seq<char> {
    if l.len() > 0 && l.last() == '\r' {
        l.drop_last()
    } else {
        l
    }
}

/// The lines of `s` (as `str::lines`): split after each line feed, the
/// line feed and a carriage return just before it dropped; a final line
/// feed ends the last line without starting an empty one.
pub open spec fn text_lines_spec(s: Seq<char>) -> Seq<Seq<char>>
    decreases s.len(),
{
    if s.len() == 0 {
        Seq::empty()
    } else {
        let i = newline_from(s, 0);
        if i < 0 || i >= s.len() {
            seq![s]
        } else {
            seq![strip_cr(s.take(i))] + text_lines_spec(s.skip(i + 1))
        }
    }
}

proof fn lemma_newline_shift(s: Seq<char>, start: int, j: int)
    requires
        0 <= start <= s.len(),
        0 <= j,
    ensures
        newline_from(s.skip(start), j) == -1 ==> newline_from(s, start + j) == -1,
        newline_from(s.skip(start), j) >= 0 ==> newline_from(s, start + j) == newline_from(
            s.skip(start),
            j,
        ) + start,
        newline_from(s.skip(start), j) == -1 || (j <= newline_from(s.skip(start), j) < s.len()
            - start),
    decreases s.len() - start - j,
{
    if j < s.len() - start && s.skip(start)[j] != '\n' {
        lemma_newline_shift(s, start, j + 1);
    }
}

/// The lines of `s` (as `str::lines`).
pub fn text_lines(s: &str) -> (r: Vec<&str>)
    ensures
        r@.map_values(|p: &str| p@) == text_lines_spec(s@),
{
    let n = s.unicode_len();
    let mut out: Vec<&str> = Vec::new();
    let mut start: usize = 0;
    assert(s@.skip(0) =~= s@);
    while start < n
        invariant
            n == s@.len(),
            start <= n,
            out@.map_values(|p: &str| p@) + text_lines_spec(s@.skip(start as int))
                == text_lines_spec(s@),
        decreases n - start,
    {
        let ghost rest = s@.skip(start as int);
        let ghost before = out@.map_values(|p: &str| p@);
        let mut i = start;
        while i < n && s.get_char(i) != '\n'
            invariant
                n == s@.len(),
                start <= i <= n,
                forall|j: int| start <= j < i ==> s@[j] != '\n',
            decreases n - i,
        {
            i = i + 1;
        }
        proof {
            lemma_newline_from_scan(rest, 0, i - start);
        }
        if i < n {
            let mut end = i;
            if end > start && s.get_char(end - 1) == '\r' {
                end = end - 1;
            }
            let line = s.substring_char(start, end);
            out.push(line);
            proof {
                assert(rest.take(i - start) =~= s@.subrange(start as int, i as int));
                if i > start && s@[i - 1] == '\r' {
                    assert(strip_cr(rest.take(i - start)) =~= s@.subrange(start as int, end as int));
                } else {
                    assert(strip_cr(rest.take(i - start)) =~= s@.subrange(start as int, end as int));
                }
                assert(rest.skip(i - start + 1) =~= s@.skip(i + 1));
                assert(out@.map_values(|p: &str| p@) =~= before.push(line@));
                assert(text_lines_spec(rest) == seq![strip_cr(rest.take(i - start))]
                    + text_lines_spec(s@.skip(i + 1)));
                assert(before + text_lines_spec(rest) =~= out@.map_values(|p: &str| p@)
                    + text_lines_spec(s@.skip(i + 1)));
            }
            start = i + 1;
        } else {
            let line = s.substring_char(start, n);
            out.push(line);
            proof {
                assert(rest =~= s@.subrange(start as int, n as int));
                assert(out@.map_values(|p: &str| p@) =~= before.push(line@));
                assert(text_lines_spec(rest) == seq![rest]);
                assert(before + text_lines_spec(rest) =~= out@.map_values(|p: &str| p@));
            }
            return out;
        }
    }
    assert(text_lines_spec(s@.skip(start as int)) =~= Seq::<Seq<char>>::empty());
    assert(out@.map_values(|p: &str| p@) =~= text_lines_spec(s@));
    out
}

proof fn lemma_newline_from_scan(s: Seq<char>, j: int, k: int)
    requires
        0 <= j <= k <= s.len(),
        forall|x: int| j <= x < k ==> s[x] != '\n',
        k < s.len() ==> s[k] == '\n',
    ensures
        k < s.len() ==> newline_from(s, j) == k,
        k == s.len() ==> newline_from(s, j) == -1,
    decreases k - j,
{
    if j < k {
        lemma_newline_from_scan(s, j + 1, k);
    }
}

} // verus!
