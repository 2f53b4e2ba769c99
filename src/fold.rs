//! ASCII case folding and case-insensitive comparison of text.
use vstd::prelude::*;
use vstd::string::*;

verus! {

/// The code point of `c` after ASCII lowercasing: `A`..=`Z` move to
/// `a`..=`z`, every other character keeps its code point.
pub open spec fn fold_code(c: char) -> u32 {
    if 65 <= (c as u32) && (c as u32) <= 90 {
        ((c as u32) + 32) as u32
    } else {
        c as u32
    }
}

/// The code points of `s` after ASCII lowercasing.
pub open spec fn folded(s: Seq<char>) -> Seq<u32> {
    s.map_values(|c: char| fold_code(c))
}

/// Lexicographic comparison of two code point sequences: -1, 0 or 1.
pub open spec fn lex_cmp(a: Seq<u32>, b: Seq<u32>) -> int
    decreases a.len(),
{
    if a.len() == 0 {
        if b.len() == 0 { 0 } else { -1 }
    } else if b.len() == 0 {
        1
    } else if a[0] < b[0] {
        -1
    } else if a[0] > b[0] {
        1
    } else {
        lex_cmp(a.drop_first(), b.drop_first())
    }
}

/// ASCII lowercase code point of one character.
pub fn fold_char(c: char) -> (r: u32)
    ensures
        r == fold_code(c),
{
    let u = c as u32;
    if 65 <= u && u <= 90 {
        u + 32
    } else {
        u
    }
}

/// The folded code points of `s`, as a vector.
pub fn fold_text(s: &str) -> (r: Vec<u32>)
    ensures
        r@ == folded(s@),
{
    let n = s.unicode_len();
    let mut out: Vec<u32> = Vec::new();
    let mut i: usize = 0;
    while i < n
        invariant
            n == s@.len(),
            i <= n,
            out@ == folded(s@.subrange(0, i as int)),
        decreases n - i,
    {
        let c = s.get_char(i);
        out.push(fold_char(c));
        assert(folded(s@.subrange(0, i + 1)) =~= folded(s@.subrange(0, i as int)).push(fold_code(c)));
        i = i + 1;
    }
    assert(s@.subrange(0, n as int) =~= s@);
    out
}

/// Whether two texts are equal when ASCII case is ignored.
pub fn eq_ignore_case(a: &str, b: &str) -> (r: bool)
    ensures
        r == (folded(a@) == folded(b@)),
{
    let fa = fold_text(a);
    let fb = fold_text(b);
    if fa.len() != fb.len() {
        assert(fa@.len() != fb@.len());
        return false;
    }
    let mut i: usize = 0;
    while i < fa.len()
        invariant
            fa@ == folded(a@),
            fb@ == folded(b@),
            fa.len() == fb.len(),
            i <= fa.len(),
            forall|j: int| 0 <= j < i ==> fa@[j] == fb@[j],
        decreases fa.len() - i,
    {
        if fa[i] != fb[i] {
            assert(fa@[i as int] != fb@[i as int]);
            return false;
        }
        i = i + 1;
    }
    assert(fa@ =~= fb@);
    true
}

/// Whether two texts are equal, character for character.
pub fn same_text(a: &str, b: &str) -> (r: bool)
    ensures
        r == (a@ == b@),
{
    let n = a.unicode_len();
    if n != b.unicode_len() {
        return false;
    }
    let mut i: usize = 0;
    while i < n
        invariant
            n == a@.len(),
            n == b@.len(),
            i <= n,
            forall|j: int| 0 <= j < i ==> a@[j] == b@[j],
        decreases n - i,
    {
        if a.get_char(i) != b.get_char(i) {
            return false;
        }
        i = i + 1;
    }
    assert(a@ =~= b@);
    true
}

proof fn lemma_lex_cmp_step(a: Seq<u32>, b: Seq<u32>, i: int)
    requires
        0 <= i < a.len(),
        i < b.len(),
        a.subrange(0, i) == b.subrange(0, i),
    ensures
        lex_cmp(a, b) == lex_cmp(a.subrange(i, a.len() as int), b.subrange(i, b.len() as int)),
    decreases i,
{
    if i > 0 {
        assert(a[0] == a.subrange(0, i)[0]);
        assert(b[0] == b.subrange(0, i)[0]);
        assert(a.drop_first().subrange(0, i - 1) =~= a.subrange(0, i).drop_first());
        assert(b.drop_first().subrange(0, i - 1) =~= b.subrange(0, i).drop_first());
        lemma_lex_cmp_step(a.drop_first(), b.drop_first(), i - 1);
        assert(a.drop_first().subrange(i - 1, a.len() - 1) =~= a.subrange(i, a.len() as int));
        assert(b.drop_first().subrange(i - 1, b.len() - 1) =~= b.subrange(i, b.len() as int));
    } else {
        assert(a.subrange(0, a.len() as int) =~= a);
        assert(b.subrange(0, b.len() as int) =~= b);
    }
}

/// Compares two code point sequences lexicographically.
pub fn compare_codes(a: &Vec<u32>, b: &Vec<u32>) -> (r: core::cmp::Ordering)
    ensures
        lex_cmp(a@, b@) < 0 <==> r == core::cmp::Ordering::Less,
        lex_cmp(a@, b@) == 0 <==> r == core::cmp::Ordering::Equal,
        lex_cmp(a@, b@) > 0 <==> r == core::cmp::Ordering::Greater,
{
    let mut i: usize = 0;
    while i < a.len() && i < b.len()
        invariant
            i <= a.len(),
            i <= b.len(),
            a@.subrange(0, i as int) == b@.subrange(0, i as int),
        decreases a.len() - i,
    {
        proof {
            lemma_lex_cmp_step(a@, b@, i as int);
        }
        if a[i] < b[i] {
            return core::cmp::Ordering::Less;
        }
        if a[i] > b[i] {
            return core::cmp::Ordering::Greater;
        }
        assert(a@.subrange(0, i + 1) =~= b@.subrange(0, i + 1)) by {
            assert(a@.subrange(0, i + 1) =~= a@.subrange(0, i as int).push(a@[i as int]));
            assert(b@.subrange(0, i + 1) =~= b@.subrange(0, i as int).push(b@[i as int]));
        }
        i = i + 1;
    }
    proof {
        lemma_lex_cmp_prefix(a@, b@, i as int);
    }
    if a.len() == b.len() {
        core::cmp::Ordering::Equal
    } else if a.len() < b.len() {
        core::cmp::Ordering::Less
    } else {
        core::cmp::Ordering::Greater
    }
}

proof fn lemma_lex_cmp_prefix(a: Seq<u32>, b: Seq<u32>, i: int)
    requires
        0 <= i,
        i == a.len() || i == b.len(),
        i <= a.len(),
        i <= b.len(),
        a.subrange(0, i) == b.subrange(0, i),
    ensures
        a.len() == b.len() ==> lex_cmp(a, b) == 0,
        a.len() < b.len() ==> lex_cmp(a, b) == -1,
        a.len() > b.len() ==> lex_cmp(a, b) == 1,
    decreases i,
{
    if i > 0 {
        assert(a[0] == a.subrange(0, i)[0]);
        assert(b[0] == b.subrange(0, i)[0]);
        assert(a.drop_first().subrange(0, i - 1) =~= a.subrange(0, i).drop_first());
        assert(b.drop_first().subrange(0, i - 1) =~= b.subrange(0, i).drop_first());
        lemma_lex_cmp_prefix(a.drop_first(), b.drop_first(), i - 1);
    }
}

} // verus!
