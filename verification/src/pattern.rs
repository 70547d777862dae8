//! The pattern catalog: two named multi-cell shapes, each a fixed list of
//! live-cell offsets relative to an anchor, and the case-insensitive lookup
//! of a pattern by name (Unicode uppercasing, as `str::to_uppercase` does
//! it).

use vstd::prelude::*;

verus! {

/// The shapes the catalog knows.
#[derive(Clone, Copy, Debug, PartialEq, Eq)]
pub enum Pattern {
    Glider,
    Pulsar,
}

/// The Unicode uppercase of a character sequence, as `str::to_uppercase`
/// computes it: a function of the characters alone.
pub uninterp spec fn upper_of(s: Seq<char>) -> Seq<char>;

/// Relies on `str::to_uppercase`: the Unicode uppercase of the string,
/// depending on its characters alone.
#[verifier::external_body]
fn to_upper(s: &str) -> (r: String)
    ensures
        r@ == upper_of(s@),
{
    s.to_uppercase()
}

pub open spec fn glider_name() -> Seq<char> {
    seq!['G', 'L', 'I', 'D', 'E', 'R']
}

pub open spec fn pulsar_name() -> Seq<char> {
    seq!['P', 'U', 'L', 'S', 'A', 'R']
}

/// Which catalog entry an already-uppercased name picks.
pub open spec fn pattern_from_upper(u: Seq<char>) -> Option<Pattern> {
    if u == glider_name() {
        Some(Pattern::Glider)
    } else if u == pulsar_name() {
        Some(Pattern::Pulsar)
    } else {
        None
    }
}

/// Which pattern a name denotes: the name's Unicode uppercase picks the
/// catalog entry, and an unknown name denotes no pattern at all.
pub open spec fn pattern_of(s: Seq<char>) -> Option<Pattern> {
    pattern_from_upper(upper_of(s))
}

impl Pattern {
    /// The shape's live-cell offsets `(dr, dc)` relative to the anchor.
    /// The pulsar's 48 offsets form four 12-cell clusters, one per
    /// quadrant.
    pub open spec fn offsets(self) -> Seq<(i32, i32)> {
        match self {
            Pattern::Glider => seq![(-1i32, 1i32), (0i32, -1i32), (0i32, 1i32), (1i32, 0i32), (1i32, 1i32)],
            Pattern::Pulsar => seq![
                (-6i32, -4i32),
                (-6i32, -3i32),
                (-6i32, -2i32),
                (-4i32, -6i32),
                (-3i32, -6i32),
                (-2i32, -6i32),
                (-4i32, -1i32),
                (-3i32, -1i32),
                (-2i32, -1i32),
                (-1i32, -4i32),
                (-1i32, -3i32),
                (-1i32, -2i32),
                (-6i32, 4i32),
                (-6i32, 3i32),
                (-6i32, 2i32),
                (-4i32, 6i32),
                (-3i32, 6i32),
                (-2i32, 6i32),
                (-4i32, 1i32),
                (-3i32, 1i32),
                (-2i32, 1i32),
                (-1i32, 4i32),
                (-1i32, 3i32),
                (-1i32, 2i32),
                (6i32, -4i32),
                (6i32, -3i32),
                (6i32, -2i32),
                (4i32, -6i32),
                (3i32, -6i32),
                (2i32, -6i32),
                (4i32, -1i32),
                (3i32, -1i32),
                (2i32, -1i32),
                (1i32, -4i32),
                (1i32, -3i32),
                (1i32, -2i32),
                (6i32, 4i32),
                (6i32, 3i32),
                (6i32, 2i32),
                (4i32, 6i32),
                (3i32, 6i32),
                (2i32, 6i32),
                (4i32, 1i32),
                (3i32, 1i32),
                (2i32, 1i32),
                (1i32, 4i32),
                (1i32, 3i32),
                (1i32, 2i32),
            ],
        }
    }

    /// The same offsets as an executable list.
    #[verifier::rlimit(100)]
    pub fn offset_list(&self) -> (v: Vec<(i32, i32)>)
        ensures
            v@ == self.offsets(),
    {
        let mut v: Vec<(i32, i32)> = Vec::new();
        match self {
            Pattern::Glider => {
                v.push((-1, 1));
                v.push((0, -1));
                v.push((0, 1));
                v.push((1, 0));
                v.push((1, 1));
            },
            Pattern::Pulsar => {
                v.push((-6, -4));
                v.push((-6, -3));
                v.push((-6, -2));
                v.push((-4, -6));
                v.push((-3, -6));
                v.push((-2, -6));
                v.push((-4, -1));
                v.push((-3, -1));
                v.push((-2, -1));
                v.push((-1, -4));
                v.push((-1, -3));
                v.push((-1, -2));
                v.push((-6, 4));
                v.push((-6, 3));
                v.push((-6, 2));
                v.push((-4, 6));
                v.push((-3, 6));
                v.push((-2, 6));
                v.push((-4, 1));
                v.push((-3, 1));
                v.push((-2, 1));
                v.push((-1, 4));
                v.push((-1, 3));
                v.push((-1, 2));
                v.push((6, -4));
                v.push((6, -3));
                v.push((6, -2));
                v.push((4, -6));
                v.push((3, -6));
                v.push((2, -6));
                v.push((4, -1));
                v.push((3, -1));
                v.push((2, -1));
                v.push((1, -4));
                v.push((1, -3));
                v.push((1, -2));
                v.push((6, 4));
                v.push((6, 3));
                v.push((6, 2));
                v.push((4, 6));
                v.push((3, 6));
                v.push((2, 6));
                v.push((4, 1));
                v.push((3, 1));
                v.push((2, 1));
                v.push((1, 4));
                v.push((1, 3));
                v.push((1, 2));
            },
        }
        proof {
            assert(v@ =~= self.offsets());
        }
        v
    }

    /// Picks the catalog entry for an already-uppercased name; every
    /// other name gives `None`.
    pub fn from_upper_name(upper: &str) -> (r: Option<Pattern>)
        ensures
            r == pattern_from_upper(upper@),
    {
        let mut g: Vec<char> = Vec::new();
        g.push('G');
        g.push('L');
        g.push('I');
        g.push('D');
        g.push('E');
        g.push('R');
        proof {
            assert(g@ =~= glider_name());
        }
        if chars_equal(upper, &g) {
            return Some(Pattern::Glider);
        }
        let mut p: Vec<char> = Vec::new();
        p.push('P');
        p.push('U');
        p.push('L');
        p.push('S');
        p.push('A');
        p.push('R');
        proof {
            assert(p@ =~= pulsar_name());
        }
        if chars_equal(upper, &p) {
            return Some(Pattern::Pulsar);
        }
        None
    }

    /// Looks a pattern up by name, matching case-insensitively through the
    /// name's Unicode uppercase; unknown names give `None`.
    pub fn from_name(s: &str) -> (r: Option<Pattern>)
        ensures
            r == pattern_of(s@),
    {
        let up = to_upper(s);
        Pattern::from_upper_name(up.as_str())
    }
}

/// Whether the string's characters are exactly `t`.
fn chars_equal(s: &str, t: &Vec<char>) -> (r: bool)
    ensures
        r == (s@ == t@),
{
    let n = s.unicode_len();
    if n != t.len() {
        return false;
    }
    let mut i: usize = 0;
    while i < n
        invariant
            i <= n,
            n == s@.len(),
            n == t@.len(),
            forall|j: int| 0 <= j < i ==> s@[j] == t@[j],
        decreases n - i,
    {
        let c = s.get_char(i);
        if c != t[i] {
            return false;
        }
        i = i + 1;
    }
    proof {
        assert(s@ =~= t@);
    }
    true
}

} // verus!
