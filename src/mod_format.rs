//! How well an archive matches a mod format, and the choice of the best
//! format among several.
use vstd::prelude::*;

verus! {

/// Confidence of a format in an archive, from lowest to highest.
#[derive(Debug, Clone, Copy, PartialEq, Eq, Structural, PartialOrd, Ord)]
pub enum FormatConfidence {
    /// The file is incompatible with this format.
    Incompatible,
    /// The file can be converted to this format.
    Convertible,
    /// The file is compatible with this format.
    Compatible,
    /// The file definitively matches this format.
    Match,
}

/// The rank of a confidence: 0 for `Incompatible` up to 3 for `Match`.
pub open spec fn rank_of(c: FormatConfidence) -> u8 {
    match c {
        FormatConfidence::Incompatible => 0,
        FormatConfidence::Convertible => 1,
        FormatConfidence::Compatible => 2,
        FormatConfidence::Match => 3,
    }
}

/// The position of the format chosen among formats with confidences `cs`:
/// one with the highest usable confidence, the last such where several tie;
/// `None` where none is usable.
pub open spec fn best_index(cs: Seq<FormatConfidence>) -> Option<int>
    decreases cs.len(),
{
    if cs.len() == 0 {
        None
    } else {
        let rest = best_index(cs.drop_last());
        let c = cs.last();
        if rank_of(c) < 2 {
            rest
        } else {
            match rest {
                Some(i) => if rank_of(cs[i]) > rank_of(c) {
                    Some(i)
                } else {
                    Some(cs.len() - 1)
                },
                None => Some(cs.len() - 1),
            }
        }
    }
}

impl FormatConfidence {
    /// The rank of this confidence.
    pub fn rank(&self) -> (r: u8)
        ensures
            r == rank_of(*self),
    {
        match self {
            FormatConfidence::Incompatible => 0,
            FormatConfidence::Convertible => 1,
            FormatConfidence::Compatible => 2,
            FormatConfidence::Match => 3,
        }
    }

    /// Whether the file is at least compatible with the format.
    pub fn is_usable(&self) -> (r: bool)
        ensures
            r == (rank_of(*self) >= 2),
    {
        self.rank() >= 2
    }
}

/// Chooses among formats by their confidences: the position of one with
/// the highest usable confidence, the last such where several tie.
pub fn best_format(cs: &Vec<FormatConfidence>) -> (r: Option<usize>)
    ensures
        r matches Some(i) ==> best_index(cs@) == Some(i as int),
        r is None ==> best_index(cs@) is None,
{
    let mut best: Option<usize> = None;
    let mut i: usize = 0;
    while i < cs.len()
        invariant
            i <= cs.len(),
            best matches Some(b) ==> b < i && best_index(cs@.take(i as int)) == Some(b as int),
            best is None ==> best_index(cs@.take(i as int)) is None,
        decreases cs.len() - i,
    {
        let ghost t = cs@.take(i + 1);
        assert(t.drop_last() =~= cs@.take(i as int));
        let c = cs[i];
        if c.is_usable() {
            match best {
                Some(b) => {
                    assert(t[b as int] == cs@[b as int]);
                    if cs[b].rank() <= c.rank() {
                        best = Some(i);
                    }
                },
                None => {
                    best = Some(i);
                },
            }
        }
        i = i + 1;
    }
    assert(cs@.take(cs.len() as int) =~= cs@);
    best
}

} // verus!
