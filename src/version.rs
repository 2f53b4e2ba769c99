//! Version numbers of mods, and the heuristic that reads them from free
//! text: keep digits and dots, pad to three components, parse.
use vstd::prelude::*;

verus! {

/// A version number: major, minor and patch.
#[derive(Debug, Clone, Copy, PartialEq, Eq, Structural)]
pub struct ModVersion {
    pub major: u64,
    pub minor: u64,
    pub patch: u64,
}

/// Whether version `a` is older than version `b`: major, then minor, then
/// patch.
pub open spec fn version_lt(a: ModVersion, b: ModVersion) -> bool {
    a.major < b.major || (a.major == b.major && (a.minor < b.minor || (a.minor == b.minor
        && a.patch < b.patch)))
}

/// Whether `c` is a number character in the Unicode sense.
pub uninterp spec fn numeric_char(c: char) -> bool;

/// Whether `c` is a number character: among ASCII characters exactly the
/// digits, beyond ASCII as Unicode's general categories for numbers say.
pub open spec fn is_number(c: char) -> bool {
    if (c as u32) < 128 {
        is_digit(c)
    } else {
        numeric_char(c)
    }
}

/// Relies on `char::is_numeric`: whether `c` has a Unicode general category
/// for numbers (Nd, Nl, No); the only ASCII characters in them are the
/// digits.
#[verifier::external_body]
fn is_numeric(c: char) -> (r: bool)
    ensures
        r == (if (c as u32) < 128 {
            is_digit(c)
        } else {
            numeric_char(c)
        }),
{
    c.is_numeric()
}

/// Relies on `FromIterator<char> for String`: the string of the given
/// characters, in order.
#[verifier::external_body]
fn string_from_chars(chars: &Vec<char>) -> (r: String)
    ensures
        r@ == chars@,
{
    chars.iter().collect()
}

/// Whether `c` is an ASCII digit.
pub open spec fn is_digit(c: char) -> bool {
    '0' <= c && c <= '9'
}

/// Whether `s` holds only ASCII digits and dots.
pub open spec fn digits_and_dots(s: Seq<char>) -> bool {
    forall|i: int| 0 <= i < s.len() ==> is_digit(#[trigger] s[i]) || s[i] == '.'
}

/// The value of a run of ASCII digits.
pub open spec fn decimal_value(s: Seq<char>) -> nat
    decreases s.len(),
{
    if s.len() == 0 {
        0
    } else {
        decimal_value(s.drop_last()) * 10 + ((s.last() as u32) - 48) as nat
    }
}

/// Whether `s` is a number as semantic versions write one: ASCII digits,
/// no leading zero but in `0` itself, and a value that fits in `u64`.
pub open spec fn canonical_number(s: Seq<char>) -> bool {
    &&& s.len() > 0
    &&& forall|i: int| 0 <= i < s.len() ==> is_digit(#[trigger] s[i])
    &&& (s.len() == 1 || s[0] != '0')
    &&& decimal_value(s) <= u64::MAX
}

/// The segments of `s` between dots, empty ones included.
pub open spec fn split_all(s: Seq<char>) -> Seq<Seq<char>>
    decreases s.len(),
{
    if s.len() == 0 {
        seq![Seq::empty()]
    } else {
        let r = split_all(s.drop_last());
        if s.last() == '.' {
            r.push(Seq::empty())
        } else {
            r.update(r.len() - 1, r.last().push(s.last()))
        }
    }
}

/// The version a text of the form `major.minor.patch` denotes, each part a
/// canonical number; `None` for any other text.
pub open spec fn semver_triple(s: Seq<char>) -> Option<ModVersion> {
    let p = split_all(s);
    if p.len() == 3 && canonical_number(p[0]) && canonical_number(p[1]) && canonical_number(
        p[2],
    ) {
        Some(
            ModVersion {
                major: decimal_value(p[0]) as u64,
                minor: decimal_value(p[1]) as u64,
                patch: decimal_value(p[2]) as u64,
            },
        )
    } else {
        None
    }
}

/// Relies on `semver::Version::parse`: on a text of ASCII digits and dots,
/// it succeeds exactly on `major.minor.patch` with canonical numbers, and
/// gives their values.
#[verifier::external_body]
fn semver_parse(text: &str) -> (r: Option<ModVersion>)
    requires
        digits_and_dots(text@),
    ensures
        r == semver_triple(text@),
{
    semver::Version::parse(text).ok().map(
        |v| ModVersion { major: v.major, minor: v.minor, patch: v.patch },
    )
}

/// The characters of `s` that are numbers or dots, in order.
pub open spec fn cleaned(s: Seq<char>) -> Seq<char>
    decreases s.len(),
{
    if s.len() == 0 {
        Seq::empty()
    } else if is_number(s.last()) || s.last() == '.' {
        cleaned(s.drop_last()).push(s.last())
    } else {
        cleaned(s.drop_last())
    }
}

/// Scans `t`: the non-empty segments between dots that are closed by a dot,
/// and the segment still open at the end.
pub open spec fn scan(t: Seq<char>) -> (Seq<Seq<char>>, Seq<char>)
    decreases t.len(),
{
    if t.len() == 0 {
        (Seq::empty(), Seq::empty())
    } else {
        let (p, c) = scan(t.drop_last());
        if t.last() == '.' {
            if c.len() > 0 {
                (p.push(c), Seq::empty())
            } else {
                (p, Seq::empty())
            }
        } else {
            (p, c.push(t.last()))
        }
    }
}

/// The non-empty segments of `t` between dots.
pub open spec fn segments(t: Seq<char>) -> Seq<Seq<char>> {
    let (p, c) = scan(t);
    if c.len() > 0 {
        p.push(c)
    } else {
        p
    }
}

/// The components of a cleaned text: its non-empty segments, after a `0`
/// where the text begins with a dot.
pub open spec fn components(t: Seq<char>) -> Seq<Seq<char>> {
    let s = segments(t);
    if t.len() > 0 && t[0] == '.' && s.len() > 0 {
        seq![seq!['0']] + s
    } else {
        s
    }
}

/// The components padded with zeros to at least three.
pub open spec fn padded(p: Seq<Seq<char>>) -> Seq<Seq<char>> {
    if p.len() == 1 {
        p.push(seq!['0']).push(seq!['0'])
    } else if p.len() == 2 {
        p.push(seq!['0'])
    } else {
        p
    }
}

/// The components joined with dots.
pub open spec fn join_dots(p: Seq<Seq<char>>) -> Seq<char>
    decreases p.len(),
{
    if p.len() == 0 {
        Seq::empty()
    } else if p.len() == 1 {
        p[0]
    } else {
        join_dots(p.drop_last()) + seq!['.'] + p.last()
    }
}

/// The normalized version text of a cleaned text, or `None` where it has
/// no component.
pub open spec fn normalized(t: Seq<char>) -> Option<Seq<char>> {
    let p = components(t);
    if p.len() == 0 {
        None
    } else {
        Some(join_dots(padded(p)))
    }
}

/// The version read from `s` by the heuristic.
pub open spec fn version_of(s: Seq<char>) -> Option<ModVersion> {
    match normalized(cleaned(s)) {
        None => None,
        Some(t) => if digits_and_dots(t) {
            semver_triple(t)
        } else {
            None
        },
    }
}

/// The characters of `s` that are numbers or dots.
fn clean_version_text(s: &str) -> (r: Vec<char>)
    ensures
        r@ == cleaned(s@),
{
    let n = s.unicode_len();
    let mut out: Vec<char> = Vec::new();
    let mut i: usize = 0;
    while i < n
        invariant
            n == s@.len(),
            i <= n,
            out@ == cleaned(s@.take(i as int)),
        decreases n - i,
    {
        let c = s.get_char(i);
        assert(s@.take(i + 1).drop_last() =~= s@.take(i as int));
        if is_numeric(c) || c == '.' {
            out.push(c);
        }
        i = i + 1;
    }
    assert(s@.take(n as int) =~= s@);
    out
}

/// The view of a list of character vectors.
pub open spec fn views(v: Seq<Vec<char>>) -> Seq<Seq<char>> {
    v.map_values(|x: Vec<char>| x@)
}

/// Normalizes a cleaned version text: its non-empty segments between
/// dots, after a `0` where it begins with a dot, padded with zeros to
/// three and joined with dots; `None` where it has no segment.
pub fn normalize_cleaned(t: &Vec<char>) -> (r: Option<Vec<char>>)
    ensures
        r is None <==> normalized(t@) is None,
        r matches Some(v) ==> normalized(t@) == Some(v@),
{
    let mut parts: Vec<Vec<char>> = Vec::new();
    let mut cur: Vec<char> = Vec::new();
    let mut i: usize = 0;
    while i < t.len()
        invariant
            i <= t.len(),
            (views(parts@), cur@) == scan(t@.take(i as int)),
        decreases t.len() - i,
    {
        assert(t@.take(i + 1).drop_last() =~= t@.take(i as int));
        let c = t[i];
        if c == '.' {
            if cur.len() > 0 {
                let ghost pv = views(parts@);
                let ghost cv = cur@;
                parts.push(cur);
                cur = Vec::new();
                assert(views(parts@) =~= pv.push(cv));
            }
        } else {
            cur.push(c);
        }
        i = i + 1;
    }
    assert(t@.take(t.len() as int) =~= t@);
    if cur.len() > 0 {
        let ghost pv = views(parts@);
        let ghost cv = cur@;
        parts.push(cur);
        assert(views(parts@) =~= pv.push(cv));
    }
    if t.len() > 0 && t[0] == '.' && parts.len() > 0 {
        let ghost pv = views(parts@);
        parts.insert(0, zero_part());
        assert(views(parts@) =~= seq![seq!['0']] + pv);
    }
    assert(views(parts@) == components(t@));
    if parts.len() == 0 {
        return None;
    }
    let ghost q = views(parts@);
    if parts.len() == 1 {
        parts.push(zero_part());
        parts.push(zero_part());
        assert(views(parts@) =~= q.push(seq!['0']).push(seq!['0']));
    } else if parts.len() == 2 {
        parts.push(zero_part());
        assert(views(parts@) =~= q.push(seq!['0']));
    }
    let ghost p = views(parts@);
    assert(p =~= padded(components(t@)));
    let mut out: Vec<char> = Vec::new();
    let mut k: usize = 0;
    while k < parts.len()
        invariant
            1 <= parts.len(),
            k <= parts.len(),
            p == views(parts@),
            out@ == join_dots(p.take(k as int)),
        decreases parts.len() - k,
    {
        assert(p.take(k + 1).drop_last() =~= p.take(k as int));
        let ghost before = out@;
        if k > 0 {
            out.push('.');
        }
        let mut seg = parts[k].clone();
        assert(seg@ =~= p[k as int]);
        out.append(&mut seg);
        if k == 0 {
            assert(out@ =~= join_dots(p.take(1)));
        } else {
            assert(out@ =~= before + seq!['.'] + p[k as int]);
        }
        k = k + 1;
    }
    assert(p.take(parts.len() as int) =~= p);
    Some(out)
}

/// The component `0`.
fn zero_part() -> (r: Vec<char>)
    ensures
        r@ == seq!['0'],
{
    let mut r: Vec<char> = Vec::new();
    r.push('0');
    assert(r@ =~= seq!['0']);
    r
}

/// Whether every character of `t` is an ASCII digit or a dot.
fn all_digits_and_dots(t: &Vec<char>) -> (r: bool)
    ensures
        r == digits_and_dots(t@),
{
    let mut i: usize = 0;
    while i < t.len()
        invariant
            i <= t.len(),
            forall|j: int| 0 <= j < i ==> is_digit(#[trigger] t@[j]) || t@[j] == '.',
        decreases t.len() - i,
    {
        let c = t[i];
        if !(('0' <= c && c <= '9') || c == '.') {
            return false;
        }
        i = i + 1;
    }
    true
}

/// Reads a version from free text: keeps its number characters and dots,
/// normalizes them (a leading dot reads as `0.`, empty segments go, missing
/// minor and patch become `0`) and parses the result. `None` where nothing
/// remains or the result is no version.
pub fn parse_version(version_str: &str) -> (r: Option<ModVersion>)
    ensures
        r == version_of(version_str@),
{
    let t = clean_version_text(version_str);
    match normalize_cleaned(&t) {
        None => None,
        Some(v) => {
            if all_digits_and_dots(&v) {
                let s = string_from_chars(&v);
                semver_parse(s.as_str())
            } else {
                None
            }
        },
    }
}

/// The decimal digit `d` as a character.
fn digit_char(d: u64) -> (r: char)
    requires
        d < 10,
    ensures
        r == decimal_digit(d as nat),
{
    match d {
        0 => '0',
        1 => '1',
        2 => '2',
        3 => '3',
        4 => '4',
        5 => '5',
        6 => '6',
        7 => '7',
        8 => '8',
        _ => '9',
    }
}

/// The character of a decimal digit.
pub open spec fn decimal_digit(d: nat) -> char {
    if d == 0 {
        '0'
    } else if d == 1 {
        '1'
    } else if d == 2 {
        '2'
    } else if d == 3 {
        '3'
    } else if d == 4 {
        '4'
    } else if d == 5 {
        '5'
    } else if d == 6 {
        '6'
    } else if d == 7 {
        '7'
    } else if d == 8 {
        '8'
    } else {
        '9'
    }
}

/// The decimal text of `n`.
pub open spec fn decimal_text(n: nat) -> Seq<char>
    decreases n,
{
    if n < 10 {
        seq![decimal_digit(n)]
    } else {
        decimal_text(n / 10).push(decimal_digit(n % 10))
    }
}

/// Appends the decimal text of `n` to `out`.
fn push_decimal(out: &mut Vec<char>, n: u64)
    ensures
        final(out)@ == old(out)@ + decimal_text(n as nat),
    decreases n,
{
    if n >= 10 {
        push_decimal(out, n / 10);
    }
    out.push(digit_char(n % 10));
    assert(final(out)@ =~= old(out)@ + decimal_text(n as nat));
}

impl ModVersion {
    /// The version written as `major.minor.patch`.
    pub fn to_string(&self) -> (r: String)
        ensures
            r@ == decimal_text(self.major as nat) + seq!['.'] + decimal_text(self.minor as nat)
                + seq!['.'] + decimal_text(self.patch as nat),
    {
        let mut v: Vec<char> = Vec::new();
        push_decimal(&mut v, self.major);
        v.push('.');
        push_decimal(&mut v, self.minor);
        v.push('.');
        push_decimal(&mut v, self.patch);
        string_from_chars(&v)
    }

    /// Whether this version is older than `other`.
    pub fn is_older_than(&self, other: &ModVersion) -> (r: bool)
        ensures
            r == version_lt(*self, *other),
    {
        self.major < other.major || (self.major == other.major && (self.minor < other.minor || (
        self.minor == other.minor && self.patch < other.patch)))
    }
}

} // verus!
