//! Character and string helpers shared by the command parser and the
//! operator log: ASCII case folding, Unicode whitespace, decimal digits,
//! and column padding.
use vstd::prelude::*;
use vstd::string::*;

verus! {

/// ASCII lowercase of a character; every other character is unchanged.
pub open spec fn ascii_lower(c: char) -> char {
    if 'A' <= c && c <= 'Z' {
        ((c as u32) + 32) as char
    } else {
        c
    }
}

/// Two strings are equal once ASCII letters are folded to one case.
pub open spec fn eq_ignoring_ascii_case(a: Seq<char>, b: Seq<char>) -> bool {
    &&& a.len() == b.len()
    &&& forall|i: int| 0 <= i < a.len() ==> #[trigger] ascii_lower(a[i]) == ascii_lower(b[i])
}

pub fn lower_char(c: char) -> (r: char)
    ensures
        r == ascii_lower(c),
{
    if 'A' <= c && c <= 'Z' {
        let code: u32 = (c as u32) + 32;
        proof {
            assert(code == (c as u32) + 32);
        }
        char_from_ascii(code)
    } else {
        c
    }
}

fn char_from_ascii(code: u32) -> (r: char)
    requires
        97 <= code <= 122,
    ensures
        r == code as char,
{
    let b: u8 = code as u8;
    b as char
}

/// ASCII case-insensitive string equality.
pub fn eq_ignore_ascii_case(a: &str, b: &str) -> (r: bool)
    ensures
        r == eq_ignoring_ascii_case(a@, b@),
{
    let n = a.unicode_len();
    let m = b.unicode_len();
    if n != m {
        return false;
    }
    let mut i: usize = 0;
    while i < n
        invariant
            n == a@.len(),
            m == b@.len(),
            n == m,
            i <= n,
            forall|j: int| 0 <= j < i ==> #[trigger] ascii_lower(a@[j]) == ascii_lower(b@[j]),
        decreases n - i,
    {
        if lower_char(a.get_char(i)) != lower_char(b.get_char(i)) {
            return false;
        }
        i += 1;
    }
    true
}

/// Exact string equality.
pub fn str_equal(a: &str, b: &str) -> (r: bool)
    ensures
        r == (a@ == b@),
{
    let n = a.unicode_len();
    if n != b.unicode_len() {
        return false;
    }
    let mut i: usize = 0;
    while i < n
        invariant
            n == a@.len() == b@.len(),
            i <= n,
            forall|j: int| 0 <= j < i ==> a@[j] == b@[j],
        decreases n - i,
    {
        if a.get_char(i) != b.get_char(i) {
            return false;
        }
        i = i + 1;
    }
    assert(a@ =~= b@);
    true
}

/// The characters of a string, one per element.
pub fn chars_of(s: &str) -> (r: Vec<char>)
    ensures
        r@ == s@,
{
    let n = s.unicode_len();
    let mut out: Vec<char> = Vec::new();
    let mut i: usize = 0;
    while i < n
        invariant
            n == s@.len(),
            i <= n,
            out@ == s@.subrange(0, i as int),
        decreases n - i,
    {
        out.push(s.get_char(i));
        i = i + 1;
        assert(out@ =~= s@.subrange(0, i as int));
    }
    assert(out@ =~= s@);
    out
}

/// ASCII case-insensitive comparison of `v[from..]` with `word`.
pub fn tail_eq_ignore_ascii_case(v: &Vec<char>, from: usize, word: &Vec<char>) -> (r: bool)
    requires
        from <= v@.len(),
    ensures
        r == eq_ignoring_ascii_case(v@.skip(from as int), word@),
{
    let n = v.len();
    let m = word.len();
    if n - from != m {
        return false;
    }
    let mut i: usize = 0;
    while i < m
        invariant
            n == v@.len(),
            m == word@.len(),
            from <= n,
            n - from == m,
            i <= m,
            forall|j: int| 0 <= j < i ==> #[trigger] ascii_lower(v@.skip(from as int)[j]) == ascii_lower(word@[j]),
        decreases m - i,
    {
        if lower_char(v[from + i]) != lower_char(word[i]) {
            assert(v@.skip(from as int)[i as int] == v@[from + i]);
            return false;
        }
        assert(v@.skip(from as int)[i as int] == v@[from + i]);
        i = i + 1;
    }
    true
}

/// Unicode `White_Space`, the characters that separate words.
pub open spec fn is_space(c: char) -> bool {
    ||| ('\u{9}' <= c && c <= '\u{D}')
    ||| c == ' '
    ||| c == '\u{85}'
    ||| c == '\u{A0}'
    ||| c == '\u{1680}'
    ||| ('\u{2000}' <= c && c <= '\u{200A}')
    ||| c == '\u{2028}'
    ||| c == '\u{2029}'
    ||| c == '\u{202F}'
    ||| c == '\u{205F}'
    ||| c == '\u{3000}'
}

pub fn is_space_char(c: char) -> (r: bool)
    ensures
        r == is_space(c),
{
    ('\u{9}' <= c && c <= '\u{D}') || c == ' ' || c == '\u{85}' || c == '\u{A0}' || c
        == '\u{1680}' || ('\u{2000}' <= c && c <= '\u{200A}') || c == '\u{2028}' || c
        == '\u{2029}' || c == '\u{202F}' || c == '\u{205F}' || c == '\u{3000}'
}

pub open spec fn digit_char(d: nat) -> char {
    ((d + 48) as u32) as char
}

/// Decimal representation of a natural number, no leading zeros.
pub open spec fn decimal_text(n: nat) -> Seq<char>
    decreases n,
{
    if n < 10 {
        seq![digit_char(n)]
    } else {
        decimal_text(n / 10).push(digit_char(n % 10))
    }
}

/// Decimal representation of an integer, with a leading `-` when negative.
pub open spec fn int_text(n: int) -> Seq<char> {
    if n < 0 {
        seq!['-'] + decimal_text((-n) as nat)
    } else {
        decimal_text(n as nat)
    }
}

/// Appends `c` to `s` with `String::push`, which std documents as
/// appending the given char to the end of the string.
#[verifier::external_body]
pub(crate) fn push_char(s: &mut String, c: char)
    ensures
        final(s)@ == old(s)@.push(c),
{
    s.push(c);
}

/// A one-character string holding the digit `d`.
fn digit_str(d: u64) -> (r: &'static str)
    requires
        d < 10,
    ensures
        r@ == seq![digit_char(d as nat)],
{
    let all = "0123456789";
    proof {
        reveal_strlit("0123456789");
    }
    let i = d as usize;
    all.substring_char(i, i + 1)
}

/// Decimal text of `n`.
pub fn format_u64(n: u64) -> (r: String)
    ensures
        r@ == decimal_text(n as nat),
    decreases n,
{
    if n < 10 {
        String::from_str(digit_str(n))
    } else {
        let head = format_u64(n / 10);
        head.concat(digit_str(n % 10))
    }
}

/// Decimal text of `n`, with a leading `-` when negative.
pub fn format_i64(n: i64) -> (r: String)
    ensures
        r@ == int_text(n as int),
{
    if n < 0 {
        let magnitude: u64 = (0i128 - (n as i128)) as u64;
        let digits = format_u64(magnitude);
        let sign = String::from_str("-");
        proof {
            reveal_strlit("-");
        }
        sign.concat(digits.as_str())
    } else {
        format_u64(n as u64)
    }
}

/// `s` without its leading whitespace.
pub open spec fn trim_start(s: Seq<char>) -> Seq<char>
    decreases s.len(),
{
    if s.len() > 0 && is_space(s[0]) {
        trim_start(s.drop_first())
    } else {
        s
    }
}

/// `s` without its trailing whitespace.
pub open spec fn trim_end(s: Seq<char>) -> Seq<char>
    decreases s.len(),
{
    if s.len() > 0 && is_space(s.last()) {
        trim_end(s.drop_last())
    } else {
        s
    }
}

/// `s` without leading or trailing whitespace, as `str::trim` gives it.
pub open spec fn trim(s: Seq<char>) -> Seq<char> {
    trim_end(trim_start(s))
}

/// The bounds of `v[lo..hi]` once trimmed: `v[a..b]` is that trimmed
/// text.
pub fn trim_range(v: &Vec<char>, lo: usize, hi: usize) -> (r: (usize, usize))
    requires
        lo <= hi <= v@.len(),
    ensures
        lo <= r.0 <= r.1 <= hi,
        v@.subrange(r.0 as int, r.1 as int) == trim(v@.subrange(lo as int, hi as int)),
{
    let ghost s = v@.subrange(lo as int, hi as int);
    let mut a: usize = lo;
    while a < hi && is_space_char(v[a])
        invariant
            lo <= a <= hi <= v@.len(),
            s == v@.subrange(lo as int, hi as int),
            trim_start(s) == trim_start(v@.subrange(a as int, hi as int)),
        decreases hi - a,
    {
        let ghost u = v@.subrange(a as int, hi as int);
        assert(u.drop_first() =~= v@.subrange(a + 1, hi as int));
        a = a + 1;
    }
    let ghost u = v@.subrange(a as int, hi as int);
    assert(trim_start(u) == u);
    let mut b: usize = hi;
    while b > a && is_space_char(v[b - 1])
        invariant
            lo <= a <= b <= hi <= v@.len(),
            u == v@.subrange(a as int, hi as int),
            trim_end(u) == trim_end(v@.subrange(a as int, b as int)),
        decreases b - a,
    {
        let ghost w = v@.subrange(a as int, b as int);
        assert(w.drop_last() =~= v@.subrange(a as int, b - 1));
        assert(w.last() == v@[b - 1]);
        b = b - 1;
    }
    let ghost w = v@.subrange(a as int, b as int);
    if b > a {
        assert(w.last() == v@[b - 1]);
    }
    assert(trim_end(w) == w);
    (a, b)
}

/// ASCII case-insensitive comparison of `v[from..from + word.len()]`
/// with `word`.
pub fn slice_eq_ignore_ascii_case(v: &Vec<char>, from: usize, word: &Vec<char>) -> (r: bool)
    requires
        from + word@.len() <= v@.len(),
    ensures
        r == eq_ignoring_ascii_case(v@.subrange(from as int, from + word@.len()), word@),
{
    let m = word.len();
    let n = v.len();
    let ghost part = v@.subrange(from as int, from + m);
    let mut i: usize = 0;
    while i < m
        invariant
            m == word@.len(),
            n == v@.len(),
            from + m <= n,
            part == v@.subrange(from as int, from + m),
            i <= m,
            forall|j: int| 0 <= j < i ==> #[trigger] ascii_lower(part[j]) == ascii_lower(word@[j]),
        decreases m - i,
    {
        assert(part[i as int] == v@[from + i]);
        if lower_char(v[from + i]) != lower_char(word[i]) {
            return false;
        }
        i = i + 1;
    }
    true
}

/// `text` padded with spaces on the right to at least `width` characters.
pub open spec fn pad_right(text: Seq<char>, width: nat) -> Seq<char> {
    if text.len() >= width {
        text
    } else {
        text + Seq::new((width - text.len()) as nat, |i: int| ' ')
    }
}

/// `text` padded with spaces on the left to at least `width` characters.
pub open spec fn pad_left(text: Seq<char>, width: nat) -> Seq<char> {
    if text.len() >= width {
        text
    } else {
        Seq::new((width - text.len()) as nat, |i: int| ' ') + text
    }
}

/// `count` spaces.
pub fn spaces(count: usize) -> (r: String)
    ensures
        r@ == Seq::new(count as nat, |i: int| ' '),
{
    let mut out = String::from_str("");
    proof {
        reveal_strlit("");
    }
    let mut i: usize = 0;
    while i < count
        invariant
            i <= count,
            out@ == Seq::new(i as nat, |j: int| ' '),
        decreases count - i,
    {
        proof {
            reveal_strlit(" ");
        }
        out.append(" ");
        i = i + 1;
        assert(out@ =~= Seq::new(i as nat, |j: int| ' '));
    }
    out
}

/// Left-aligned in a column of `width` characters, like `{:<width}`.
pub fn left_aligned(text: &str, width: usize) -> (r: String)
    ensures
        r@ == pad_right(text@, width as nat),
{
    let len = text.unicode_len();
    let out = String::from_str(text);
    if len >= width {
        out
    } else {
        let pad = spaces(width - len);
        out.concat(pad.as_str())
    }
}

/// Right-aligned in a column of `width` characters, like `{:>width}`.
pub fn right_aligned(text: &str, width: usize) -> (r: String)
    ensures
        r@ == pad_left(text@, width as nat),
{
    let len = text.unicode_len();
    if len >= width {
        String::from_str(text)
    } else {
        let pad = spaces(width - len);
        pad.concat(text)
    }
}

} // verus!
