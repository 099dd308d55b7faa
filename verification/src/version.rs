//! Version strings of the build tool: parsing and rendering.

use vstd::prelude::*;
use crate::strutil::{dec_digits, str_to_chars, chars_to_string, chars_concat, chars_prefix,
    u32_to_dec};

verus! {

/// A parsed version: major, minor, patch, and any extra information
/// that followed a `+`.
#[derive(Debug, Clone, PartialEq, Eq)]
pub struct XmakeVersion {
    pub major: u32,
    pub minor: u32,
    pub patch: u32,
    pub extra: Option<String>,
}

/// Whether a character counts as trimmable whitespace.
pub open spec fn is_space(c: char) -> bool {
    c == ' ' || c == '\t' || c == '\n' || c == '\r'
}

/// The sequence without its leading whitespace.
pub open spec fn trim_front(s: Seq<char>) -> Seq<char>
    decreases s.len(),
{
    if s.len() == 0 {
        s
    } else if is_space(s[0]) {
        trim_front(s.skip(1))
    } else {
        s
    }
}

/// The sequence without its trailing whitespace.
pub open spec fn trim_back(s: Seq<char>) -> Seq<char>
    decreases s.len(),
{
    if s.len() == 0 {
        s
    } else if is_space(s.last()) {
        trim_back(s.drop_last())
    } else {
        s
    }
}

/// The sequence without surrounding whitespace.
pub open spec fn spec_trim(s: Seq<char>) -> Seq<char> {
    trim_back(trim_front(s))
}

/// The index of the first occurrence of a character, if any.
pub open spec fn first_idx(s: Seq<char>, c: char) -> Option<int>
    decreases s.len(),
{
    if s.len() == 0 {
        None
    } else if s[0] == c {
        Some(0)
    } else {
        match first_idx(s.skip(1), c) {
            Some(i) => Some(i + 1),
            None => None,
        }
    }
}

/// Whether a sequence starts with a prefix.
pub open spec fn starts_with(s: Seq<char>, p: Seq<char>) -> bool {
    s.len() >= p.len() && s.take(p.len() as int) == p
}

/// The version fragment of the tool's output: after a leading
/// `xmake v`, up to the first comma; otherwise the whole string; the
/// result trimmed.
pub open spec fn spec_version_part(s: Seq<char>) -> Seq<char> {
    let body = if starts_with(s, "xmake v"@) {
        let after = s.skip(7);
        match first_idx(after, ',') {
            Some(k) => after.take(k),
            None => after,
        }
    } else {
        s
    };
    spec_trim(body)
}

/// The numeric value of a digit sequence.
pub open spec fn digits_val(s: Seq<char>) -> nat
    decreases s.len(),
{
    if s.len() == 0 {
        0
    } else {
        digits_val(s.drop_last()) * 10 + digit_of(s.last())
    }
}

/// The value of one digit character; ten marks a non-digit.
pub open spec fn digit_of(c: char) -> nat {
    if c == '0' {
        0
    } else if c == '1' {
        1
    } else if c == '2' {
        2
    } else if c == '3' {
        3
    } else if c == '4' {
        4
    } else if c == '5' {
        5
    } else if c == '6' {
        6
    } else if c == '7' {
        7
    } else if c == '8' {
        8
    } else if c == '9' {
        9
    } else {
        10
    }
}

/// Whether every character is a decimal digit.
pub open spec fn all_digits(s: Seq<char>) -> bool {
    forall|i: int| 0 <= i < s.len() ==> digit_of(#[trigger] s[i]) < 10
}

/// What parsing a number segment answers: the value, for a non-empty
/// all-digit segment whose value fits.
pub open spec fn spec_parse_u32(s: Seq<char>) -> Option<u32> {
    if s.len() > 0 && all_digits(s) && digits_val(s) <= u32::MAX {
        Some(digits_val(s) as u32)
    } else {
        None
    }
}

/// What parsing a version string answers: the fragment is split at the
/// first `+` into the dotted numbers and the extra information, and the
/// first three dot-separated segments must parse as numbers.
pub open spec fn spec_parse_version(s: Seq<char>) -> Option<(u32, u32, u32, Option<Seq<char>>)> {
    let part = spec_version_part(s);
    let main = match first_idx(part, '+') {
        Some(k) => part.take(k),
        None => part,
    };
    let extra = match first_idx(part, '+') {
        Some(k) => Some(part.skip(k + 1)),
        None => None,
    };
    match first_idx(main, '.') {
        Some(d1) => {
            let s1 = main.take(d1);
            let m2 = main.skip(d1 + 1);
            match first_idx(m2, '.') {
                Some(d2) => {
                    let s2 = m2.take(d2);
                    let m3 = m2.skip(d2 + 1);
                    let s3 = match first_idx(m3, '.') {
                        Some(d3) => m3.take(d3),
                        None => m3,
                    };
                    match (spec_parse_u32(s1), spec_parse_u32(s2), spec_parse_u32(s3)) {
                        (Some(a), Some(b), Some(c)) => Some((a, b, c, extra)),
                        _ => None,
                    }
                },
                None => None,
            }
        },
        None => None,
    }
}

/// A digit prefix never outgrows the whole segment's value.
proof fn lemma_digits_val_prefix(s: Seq<char>, i: int)
    requires
        0 <= i <= s.len(),
    ensures
        digits_val(s.take(i)) <= digits_val(s),
    decreases s.len() - i,
{
    if i < s.len() {
        lemma_digits_val_prefix(s, i + 1);
        assert(s.take(i + 1).drop_last() =~= s.take(i));
        assert(s.take(i + 1).last() == s[i]);
        assert(digits_val(s.take(i + 1)) == digits_val(s.take(i)) * 10 + digit_of(s[i]));
    } else {
        assert(s.take(i) =~= s);
    }
}

/// Parse a non-empty all-digit segment.
fn parse_u32_chars(v: &Vec<char>) -> (r: Option<u32>)
    ensures
        r == spec_parse_u32(v@),
{
    if v.len() == 0 {
        return None;
    }
    let mut acc: u32 = 0;
    let mut i: usize = 0;
    while i < v.len()
        invariant
            v@.len() > 0,
            i <= v@.len(),
            forall|j: int| 0 <= j < i ==> digit_of(#[trigger] v@[j]) < 10,
            acc as nat == digits_val(v@.take(i as int)),
        decreases v@.len() - i,
    {
        let c = v[i];
        let d: u32 = match c {
            '0' => 0,
            '1' => 1,
            '2' => 2,
            '3' => 3,
            '4' => 4,
            '5' => 5,
            '6' => 6,
            '7' => 7,
            '8' => 8,
            '9' => 9,
            _ => 10,
        };
        assert(d as nat == digit_of(v@[i as int]));
        if d >= 10 {
            assert(!all_digits(v@));
            return None;
        }
        proof {
            assert(v@.take(i + 1 as int).drop_last() =~= v@.take(i as int));
            assert(v@.take(i + 1 as int).last() == v@[i as int]);
        }
        if acc > (u32::MAX - d) / 10 {
            proof {
                lemma_digits_val_prefix(v@, i + 1 as int);
                assert(digits_val(v@.take(i + 1 as int)) == acc * 10 + d);
            }
            if all_digits_check(v) {
                assert(digits_val(v@) > u32::MAX);
                return None;
            } else {
                return None;
            }
        }
        acc = acc * 10 + d;
        i += 1;
    }
    proof {
        assert(v@.take(v@.len() as int) =~= v@);
        assert(all_digits(v@));
    }
    Some(acc)
}

/// Whether every character of the vector is a digit.
fn all_digits_check(v: &Vec<char>) -> (r: bool)
    ensures
        r == all_digits(v@),
{
    let mut i: usize = 0;
    while i < v.len()
        invariant
            i <= v@.len(),
            forall|j: int| 0 <= j < i ==> digit_of(#[trigger] v@[j]) < 10,
        decreases v@.len() - i,
    {
        let c = v[i];
        let is_digit = c >= '0' && c <= '9';
        proof {
            if is_digit {
                assert(digit_of(v@[i as int]) < 10) by {
                    assert(c == '0' || c == '1' || c == '2' || c == '3' || c == '4' || c == '5'
                        || c == '6' || c == '7' || c == '8' || c == '9');
                }
            } else {
                assert(digit_of(v@[i as int]) >= 10) by {
                    assert(c != '0' && c != '1' && c != '2' && c != '3' && c != '4' && c != '5'
                        && c != '6' && c != '7' && c != '8' && c != '9');
                }
            }
        }
        if !is_digit {
            return false;
        }
        i += 1;
    }
    true
}

/// The index of the first occurrence of a character.
fn first_idx_chars(v: &Vec<char>, c: char) -> (r: Option<usize>)
    ensures
        match r {
            Some(k) => k < v@.len() && v@[k as int] == c && first_idx(v@, c) == Some(k as int),
            None => first_idx(v@, c) is None,
        },
{
    let mut i: usize = 0;
    proof {
        assert(v@.skip(0) =~= v@);
    }
    while i < v.len()
        invariant
            i <= v@.len(),
            forall|j: int| 0 <= j < i ==> v@[j] != c,
            first_idx(v@, c) == match first_idx(v@.skip(i as int), c) {
                Some(k) => Some(k + i),
                None => None::<int>,
            },
        decreases v@.len() - i,
    {
        proof {
            assert(v@.skip(i as int)[0] == v@[i as int]);
            assert(v@.skip(i as int).skip(1) =~= v@.skip(i + 1 as int));
        }
        if v[i] == c {
            return Some(i);
        }
        i += 1;
    }
    proof {
        assert(v@.skip(v@.len() as int) =~= Seq::<char>::empty());
    }
    None
}

/// The vector without surrounding whitespace.
fn trim_chars(v: &Vec<char>) -> (r: Vec<char>)
    ensures
        r@ == spec_trim(v@),
{
    let mut start: usize = 0;
    proof {
        assert(v@.skip(0) =~= v@);
    }
    while start < v.len() && is_space_char(v[start])
        invariant
            start <= v@.len(),
            forall|j: int| 0 <= j < start ==> is_space(#[trigger] v@[j]),
            trim_front(v@) == trim_front(v@.skip(start as int)),
        decreases v@.len() - start,
    {
        proof {
            assert(v@.skip(start as int)[0] == v@[start as int]);
            assert(v@.skip(start as int).skip(1) =~= v@.skip(start + 1 as int));
        }
        start += 1;
    }
    proof {
        if start < v@.len() {
            assert(v@.skip(start as int)[0] == v@[start as int]);
        } else {
            assert(v@.skip(start as int) =~= Seq::<char>::empty());
        }
        assert(trim_front(v@) == v@.skip(start as int));
    }
    let mut end: usize = v.len();
    proof {
        assert(v@.skip(start as int).take(v@.len() - start) =~= v@.skip(start as int));
    }
    while end > start && is_space_char(v[end - 1])
        invariant
            start <= end <= v@.len(),
            trim_front(v@) == v@.skip(start as int),
            trim_back(v@.skip(start as int)) == trim_back(
                v@.skip(start as int).take(end - start),
            ),
        decreases end,
    {
        proof {
            let cur = v@.skip(start as int).take(end - start);
            assert(cur.last() == v@[end - 1]);
            assert(cur.drop_last() =~= v@.skip(start as int).take(end - 1 - start));
        }
        end -= 1;
    }
    proof {
        let cur = v@.skip(start as int).take(end - start);
        if end > start {
            assert(cur.last() == v@[end - 1]);
            assert(!is_space(cur.last()));
        }
        assert(trim_back(cur) == cur);
    }
    let mut out: Vec<char> = Vec::new();
    let mut i: usize = start;
    while i < end
        invariant
            start <= i <= end <= v@.len(),
            out@ == v@.skip(start as int).take(i - start),
        decreases end - i,
    {
        out.push(v[i]);
        proof {
            assert(out@ =~= v@.skip(start as int).take(i + 1 - start));
        }
        i += 1;
    }
    proof {
        assert(v@.skip(start as int).take(v@.skip(start as int).len() as int) =~= v@.skip(
            start as int,
        ));
        assert(spec_trim(v@) == trim_back(v@.skip(start as int)));
    }
    out
}

fn is_space_char(c: char) -> (r: bool)
    ensures
        r == is_space(c),
{
    c == ' ' || c == '\t' || c == '\n' || c == '\r'
}

/// The slice from `from` (inclusive) to the end.
fn chars_from(v: &Vec<char>, from: usize) -> (r: Vec<char>)
    requires
        from <= v@.len(),
    ensures
        r@ == v@.skip(from as int),
{
    let mut out: Vec<char> = Vec::new();
    let mut i: usize = from;
    while i < v.len()
        invariant
            from <= i <= v@.len(),
            out@ == v@.skip(from as int).take(i - from),
        decreases v@.len() - i,
    {
        out.push(v[i]);
        proof {
            assert(out@ =~= v@.skip(from as int).take(i + 1 - from));
        }
        i += 1;
    }
    proof {
        assert(v@.skip(from as int).take(v@.len() - from) =~= v@.skip(from as int));
    }
    out
}

impl XmakeVersion {
    /// Parse a version string: a leading `xmake v` banner is stripped
    /// up to its first comma, the remainder is split at the first `+`
    /// into numbers and extra information, and the first three
    /// dot-separated segments must be numbers.
    pub fn parse(version_str: &str) -> (r: Option<XmakeVersion>)
        ensures
            match r {
                Some(ver) => spec_parse_version(version_str@) matches Some(q) && q.0 == ver.major
                    && q.1 == ver.minor && q.2 == ver.patch && (match (ver.extra, q.3) {
                    (Some(e), Some(qe)) => e@ == qe,
                    (None, None) => true,
                    _ => false,
                }),
                None => spec_parse_version(version_str@) is None,
            },
    {
        let raw = str_to_chars(version_str);
        // strip the banner
        let body: Vec<char> = if raw.len() >= 7 && raw[0] == 'x' && raw[1] == 'm' && raw[2]
            == 'a' && raw[3] == 'k' && raw[4] == 'e' && raw[5] == ' ' && raw[6] == 'v' {
            proof {
                reveal_strlit("xmake v");
                assert(raw@.take(7) =~= "xmake v"@);
                assert(starts_with(raw@, "xmake v"@));
            }
            let after = chars_from(&raw, 7);
            match first_idx_chars(&after, ',') {
                Some(k) => chars_prefix(&after, k),
                None => after,
            }
        } else {
            proof {
                reveal_strlit("xmake v");
                if starts_with(raw@, "xmake v"@) {
                    assert(raw@.take(7)[0] == raw@[0]);
                    assert(raw@.take(7)[1] == raw@[1]);
                    assert(raw@.take(7)[2] == raw@[2]);
                    assert(raw@.take(7)[3] == raw@[3]);
                    assert(raw@.take(7)[4] == raw@[4]);
                    assert(raw@.take(7)[5] == raw@[5]);
                    assert(raw@.take(7)[6] == raw@[6]);
                    assert(false);
                }
            }
            raw
        };
        let part = trim_chars(&body);
        assert(part@ == spec_version_part(version_str@));
        // split at the first `+`
        let (main, extra_chars): (Vec<char>, Option<Vec<char>>) = match first_idx_chars(
            &part,
            '+',
        ) {
            Some(k) => {
                assert(k < part.len());
                let m = chars_prefix(&part, k);
                let e = chars_from(&part, k + 1);
                (m, Some(e))
            },
            None => (part, None),
        };
        // the three dotted numbers
        let d1 = match first_idx_chars(&main, '.') {
            Some(k) => k,
            None => {
                return None;
            },
        };
        assert(d1 < main.len());
        let s1 = chars_prefix(&main, d1);
        let m2 = chars_from(&main, d1 + 1);
        let d2 = match first_idx_chars(&m2, '.') {
            Some(k) => k,
            None => {
                return None;
            },
        };
        assert(d2 < m2.len());
        let s2 = chars_prefix(&m2, d2);
        let m3 = chars_from(&m2, d2 + 1);
        let s3 = match first_idx_chars(&m3, '.') {
            Some(k) => chars_prefix(&m3, k),
            None => m3,
        };
        let major = match parse_u32_chars(&s1) {
            Some(a) => a,
            None => {
                return None;
            },
        };
        let minor = match parse_u32_chars(&s2) {
            Some(b) => b,
            None => {
                return None;
            },
        };
        let patch = match parse_u32_chars(&s3) {
            Some(c) => c,
            None => {
                return None;
            },
        };
        let extra = match extra_chars {
            Some(e) => Some(chars_to_string(&e)),
            None => None,
        };
        Some(XmakeVersion { major, minor, patch, extra })
    }

    /// The rendered version: `major.minor.patch`, `+extra` appended
    /// when present.
    pub open spec fn spec_render(self) -> Seq<char> {
        let base = dec_digits(self.major as nat) + seq!['.'] + dec_digits(self.minor as nat)
            + seq!['.'] + dec_digits(self.patch as nat);
        match self.extra {
            Some(e) => base + seq!['+'] + e@,
            None => base,
        }
    }

    /// The rendered version string.
    pub fn to_version_string(&self) -> (r: String)
        ensures
            r@ == self.spec_render(),
    {
        let mut v = u32_to_dec(self.major);
        v.push('.');
        let mn = u32_to_dec(self.minor);
        let mut v = chars_concat(&v, &mn);
        v.push('.');
        let pt = u32_to_dec(self.patch);
        let mut v = chars_concat(&v, &pt);
        match &self.extra {
            Some(e) => {
                v.push('+');
                let ec = str_to_chars(e.as_str());
                let v2 = chars_concat(&v, &ec);
                proof {
                    assert(v2@ =~= self.spec_render());
                }
                chars_to_string(&v2)
            },
            None => {
                proof {
                    assert(v@ =~= self.spec_render());
                }
                chars_to_string(&v)
            },
        }
    }
}

impl Default for XmakeVersion {
    /// The zero version.
    fn default() -> (r: Self)
        ensures
            r.major == 0 && r.minor == 0 && r.patch == 0 && r.extra is None,
    {
        XmakeVersion { major: 0, minor: 0, patch: 0, extra: None }
    }
}

/// Stripping from plain text at index `i` on: an escape introduces a
/// control sequence, anything else is kept.
pub open spec fn strip_from(s: Seq<char>, i: int) -> Seq<char>
    decreases s.len() - i, 1int,
{
    if i < 0 || i >= s.len() {
        Seq::empty()
    } else if s[i] == '\u{1b}' {
        if i + 1 >= s.len() {
            Seq::empty()
        } else if s[i + 1] == '[' {
            strip_csi(s, i + 2)
        } else if s[i + 1] == ']' {
            strip_osc(s, i + 2)
        } else {
            strip_from(s, i + 2)
        }
    } else {
        seq![s[i]] + strip_from(s, i + 1)
    }
}

/// Skipping a control-sequence introducer: ends at its final byte,
/// a character between `@` and `~`.
pub open spec fn strip_csi(s: Seq<char>, i: int) -> Seq<char>
    decreases s.len() - i, 0int,
{
    if i < 0 || i >= s.len() {
        Seq::empty()
    } else if '\u{40}' <= s[i] && s[i] <= '\u{7e}' {
        strip_from(s, i + 1)
    } else {
        strip_csi(s, i + 1)
    }
}

/// Skipping an operating-system-command sequence: ends at a bell or at
/// an escape-backslash terminator.
pub open spec fn strip_osc(s: Seq<char>, i: int) -> Seq<char>
    decreases s.len() - i, 0int,
{
    if i < 0 || i >= s.len() {
        Seq::empty()
    } else if s[i] == '\u{07}' {
        strip_from(s, i + 1)
    } else if s[i] == '\u{1b}' && i + 1 < s.len() && s[i + 1] == '\\' {
        strip_from(s, i + 2)
    } else {
        strip_osc(s, i + 1)
    }
}

/// What stripping control sequences from a string leaves.
pub open spec fn spec_strip_ansi(s: Seq<char>) -> Seq<char> {
    strip_from(s, 0)
}

/// Remove ANSI escape sequences (colors and control markers) from a string.
pub fn strip_ansi_codes(input: &str) -> (r: String)
    ensures
        r@ == spec_strip_ansi(input@),
{
    let v = str_to_chars(input);
    let n = v.len();
    let mut out: Vec<char> = Vec::new();
    // 0: plain text, 1: inside a CSI sequence, 2: inside an OSC sequence
    let mut mode: u8 = 0;
    let mut i: usize = 0;
    while i < n
        invariant
            n == v@.len(),
            v@ == input@,
            i <= n,
            mode == 0 || mode == 1 || mode == 2,
            spec_strip_ansi(input@) == out@ + (if mode == 0 {
                strip_from(v@, i as int)
            } else if mode == 1 {
                strip_csi(v@, i as int)
            } else {
                strip_osc(v@, i as int)
            }),
        decreases n - i,
    {
        let c = v[i];
        if mode == 0 {
            if c == '\u{1b}' {
                if i + 1 >= n {
                    proof {
                        assert(out@ + Seq::<char>::empty() =~= out@);
                    }
                    return chars_to_string(&out);
                }
                let b = v[i + 1];
                if b == '[' {
                    mode = 1;
                    i += 2;
                } else if b == ']' {
                    mode = 2;
                    i += 2;
                } else {
                    i += 2;
                }
            } else {
                out.push(c);
                proof {
                    assert(out@ + strip_from(v@, i + 1 as int) =~= out@.drop_last() + (seq![
                        v@[i as int],
                    ] + strip_from(v@, i + 1 as int)));
                }
                i += 1;
            }
        } else if mode == 1 {
            if '\u{40}' <= c && c <= '\u{7e}' {
                mode = 0;
            }
            i += 1;
        } else {
            if c == '\u{07}' {
                mode = 0;
                i += 1;
            } else if c == '\u{1b}' && i + 1 < n && v[i + 1] == '\\' {
                mode = 0;
                i += 2;
            } else {
                i += 1;
            }
        }
    }
    proof {
        assert(out@ + Seq::<char>::empty() =~= out@);
    }
    chars_to_string(&out)
}

} // verus!
