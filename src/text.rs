use vstd::prelude::*;
use vstd::utf8::{decode_utf8, valid_utf8};

verus! {

/// Whether `c` has Unicode's White_Space property.
pub open spec fn is_ws(c: char) -> bool {
    let u = c as u32;
    (9 <= u && u <= 13) || u == 32 || u == 0x85 || u == 0xa0 || u == 0x1680 || (0x2000 <= u
        && u <= 0x200a) || u == 0x2028 || u == 0x2029 || u == 0x202f || u == 0x205f || u == 0x3000
}

/// Whether `c` is white space, as `char::is_whitespace` decides it.
pub fn is_whitespace(c: char) -> (r: bool)
    ensures
        r == is_ws(c),
{
    let u = c as u32;
    (9 <= u && u <= 13) || u == 32 || u == 0x85 || u == 0xa0 || u == 0x1680 || (0x2000 <= u
        && u <= 0x200a) || u == 0x2028 || u == 0x2029 || u == 0x202f || u == 0x205f || u == 0x3000
}

/// The index of the first line feed at or after `i`, or the length of `t`.
pub open spec fn line_end(t: Seq<char>, i: int) -> int
    decreases t.len() - i,
{
    if i >= t.len() {
        t.len() as int
    } else if t[i] == '\n' {
        i
    } else {
        line_end(t, i + 1)
    }
}

/// Where the text of the line that starts at `i` ends: before its line feed, and
/// before a carriage return that stands right ahead of that line feed.
pub open spec fn content_end(t: Seq<char>, i: int) -> int {
    let e = line_end(t, i);
    if e < t.len() && e > i && t[e - 1] == '\r' {
        e - 1
    } else {
        e
    }
}

/// The first index in `[i, end)` that holds no white space, or `end`.
pub open spec fn skip_ws(s: Seq<char>, i: int, end: int) -> int
    decreases end - i,
{
    if i >= end {
        end
    } else if !is_ws(s[i]) {
        i
    } else {
        skip_ws(s, i + 1, end)
    }
}

/// The first index in `[i, end)` that holds white space, or `end`.
pub open spec fn skip_token(s: Seq<char>, i: int, end: int) -> int
    decreases end - i,
{
    if i >= end {
        end
    } else if is_ws(s[i]) {
        i
    } else {
        skip_token(s, i + 1, end)
    }
}

/// The first index in `[i, end)` that holds `c`, or `end`.
pub open spec fn find_char(s: Seq<char>, c: char, i: int, end: int) -> int
    decreases end - i,
{
    if i >= end {
        end
    } else if s[i] == c {
        i
    } else {
        find_char(s, c, i + 1, end)
    }
}

/// The first index in `[i, end)` where `": "` starts, or `end`.
pub open spec fn find_colon_space(s: Seq<char>, i: int, end: int) -> int
    decreases end - i,
{
    if i + 1 >= end {
        end
    } else if s[i] == ':' && s[i + 1] == ' ' {
        i
    } else {
        find_colon_space(s, i + 1, end)
    }
}

/// The first index at or after `i` where `"\r\n\r\n"` starts, or the length of `t`.
pub open spec fn find_blank_line(t: Seq<char>, i: int) -> int
    decreases t.len() - i,
{
    if i + 3 >= t.len() {
        t.len() as int
    } else if t[i] == '\r' && t[i + 1] == '\n' && t[i + 2] == '\r' && t[i + 3] == '\n' {
        i
    } else {
        find_blank_line(t, i + 1)
    }
}

/// Where the line that starts at `i` ends: its line feed, or the end of `t`.
pub fn line_end_at(t: &[char], i: usize) -> (r: usize)
    requires
        i <= t@.len(),
    ensures
        r == line_end(t@, i as int),
        i <= r <= t@.len(),
{
    let mut j = i;
    while j < t.len()
        invariant
            i <= j <= t@.len(),
            line_end(t@, j as int) == line_end(t@, i as int),
        decreases t@.len() - j,
    {
        if t[j] == '\n' {
            return j;
        }
        j = j + 1;
    }
    j
}

/// Where the text of the line that starts at `i` ends.
pub fn content_end_at(t: &[char], i: usize) -> (r: usize)
    requires
        i <= t@.len(),
    ensures
        r == content_end(t@, i as int),
        i <= r <= t@.len(),
{
    let e = line_end_at(t, i);
    if e < t.len() && e > i && t[e - 1] == '\r' {
        e - 1
    } else {
        e
    }
}

/// Skips white space from `i` on, up to `end`.
pub fn skip_ws_at(s: &[char], i: usize, end: usize) -> (r: usize)
    requires
        i <= end <= s@.len(),
    ensures
        r == skip_ws(s@, i as int, end as int),
        i <= r <= end,
{
    let mut j = i;
    while j < end
        invariant
            i <= j <= end <= s@.len(),
            skip_ws(s@, j as int, end as int) == skip_ws(s@, i as int, end as int),
        decreases end - j,
    {
        if !is_whitespace(s[j]) {
            return j;
        }
        j = j + 1;
    }
    j
}

/// Skips a run of characters that are not white space, from `i` up to `end`.
pub fn skip_token_at(s: &[char], i: usize, end: usize) -> (r: usize)
    requires
        i <= end <= s@.len(),
    ensures
        r == skip_token(s@, i as int, end as int),
        i <= r <= end,
{
    let mut j = i;
    while j < end
        invariant
            i <= j <= end <= s@.len(),
            skip_token(s@, j as int, end as int) == skip_token(s@, i as int, end as int),
        decreases end - j,
    {
        if is_whitespace(s[j]) {
            return j;
        }
        j = j + 1;
    }
    j
}

/// The first occurrence of `c` in `s[i, end)`, or `end`.
pub fn find_char_at(s: &[char], c: char, i: usize, end: usize) -> (r: usize)
    requires
        i <= end <= s@.len(),
    ensures
        r == find_char(s@, c, i as int, end as int),
        i <= r <= end,
{
    let mut j = i;
    while j < end
        invariant
            i <= j <= end <= s@.len(),
            find_char(s@, c, j as int, end as int) == find_char(s@, c, i as int, end as int),
        decreases end - j,
    {
        if s[j] == c {
            return j;
        }
        j = j + 1;
    }
    j
}

/// The first occurrence of `": "` in `s[i, end)`, or `end`.
pub fn find_colon_space_at(s: &[char], i: usize, end: usize) -> (r: usize)
    requires
        i <= end <= s@.len(),
    ensures
        r == find_colon_space(s@, i as int, end as int),
        i <= r <= end,
        r < end ==> r + 1 < end,
{
    let mut j = i;
    while end - j > 1
        invariant
            i <= j <= end <= s@.len(),
            find_colon_space(s@, j as int, end as int) == find_colon_space(
                s@,
                i as int,
                end as int,
            ),
        decreases end - j,
    {
        if s[j] == ':' && s[j + 1] == ' ' {
            return j;
        }
        j = j + 1;
    }
    end
}

/// The first occurrence of `"\r\n\r\n"` in `t`, or its length.
pub fn find_blank_line_at(t: &[char]) -> (r: usize)
    ensures
        r == find_blank_line(t@, 0),
        r <= t@.len(),
        r < t@.len() ==> r + 4 <= t@.len(),
{
    let mut j: usize = 0;
    while t.len() - j > 3
        invariant
            j <= t@.len(),
            find_blank_line(t@, j as int) == find_blank_line(t@, 0),
        decreases t@.len() - j,
    {
        if t[j] == '\r' && t[j + 1] == '\n' && t[j + 2] == '\r' && t[j + 3] == '\n' {
            return j;
        }
        j = j + 1;
    }
    t.len()
}

/// The characters that lossy UTF-8 decoding makes of `b`.
pub uninterp spec fn lossy_text(b: Seq<u8>) -> Seq<char>;

/// Relies on `String::from_utf8_lossy`: its result depends on the bytes alone, and
/// bytes that are valid UTF-8 decode to exactly the characters they encode.
#[verifier::external_body]
pub(crate) fn decode_lossy(b: &[u8]) -> (r: Vec<char>)
    ensures
        r@ == lossy_text(b@),
        valid_utf8(b@) ==> r@ == decode_utf8(b@),
{
    String::from_utf8_lossy(b).chars().collect()
}

/// Relies on collecting characters into a `String`: the string holds exactly them.
#[verifier::external_body]
pub(crate) fn string_of(cs: &[char]) -> (r: String)
    ensures
        r@ == cs@,
{
    cs.iter().collect()
}

/// The decimal digits of `n`, most significant first, with no leading zero.
pub open spec fn decimal(n: nat) -> Seq<char>
    decreases n,
{
    if n < 10 {
        seq![digit(n)]
    } else {
        decimal(n / 10).push(digit(n % 10))
    }
}

/// The decimal digit character for `d`, below ten.
pub open spec fn digit(d: nat) -> char {
    ((d + 48) as u8) as char
}

/// Appends the decimal digits of `n` to `out`.
pub fn push_decimal(n: u64, out: &mut Vec<char>)
    ensures
        final(out)@ == old(out)@ + decimal(n as nat),
    decreases n,
{
    if n >= 10 {
        push_decimal(n / 10, out);
    }
    let d = (n % 10) as u8;
    out.push((d + 48) as char);
    proof {
        assert(d as nat == (n as nat) % 10);
        assert((d + 48) as char == digit((n as nat) % 10));
        if n >= 10 {
            assert((n / 10) as nat == (n as nat) / 10);
        }
    }
}

/// `n` written in decimal.
pub fn decimal_string(n: u64) -> (r: String)
    ensures
        r@ == decimal(n as nat),
{
    let mut v: Vec<char> = Vec::new();
    push_decimal(n, &mut v);
    assert(v@ =~= decimal(n as nat));
    string_of(v.as_slice())
}

} // verus!
