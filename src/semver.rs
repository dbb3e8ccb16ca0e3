//! Dotted numeric versions: a target ABI has three parts, a release four.
use vstd::prelude::*;
use crate::text::{append_decimal, chars_of, decimal};

verus! {

/// Why a dotted version string was refused.
#[derive(Debug, Clone, Copy, PartialEq, Eq, Structural)]
pub enum SemverError {
    /// The string split into `.0` parts where `.1` were expected.
    InvalidLength(usize, usize),
    /// A part was empty or held a character other than `0`..`9`.
    NotNumeric,
    /// A part was all digits but its value does not fit in a `usize`.
    TooLarge,
}

/// A version of the form `major.minor.patch`.
#[derive(Debug, Clone, Copy, PartialEq, Eq, Structural)]
pub struct ThreePartSemver {
    pub major: usize,
    pub minor: usize,
    pub patch: usize,
}

/// A version of the form `major.minor.patch.build`.
#[derive(Debug, Clone, Copy, PartialEq, Eq, Structural)]
pub struct FourPartSemver {
    pub major: usize,
    pub minor: usize,
    pub patch: usize,
    pub build: usize,
}

/// The parts of `s` between dots, in order; a string without dots is one part.
pub open spec fn segments(s: Seq<char>) -> Seq<Seq<char>>
    decreases s.len(),
{
    if s.len() == 0 {
        seq![Seq::<char>::empty()]
    } else {
        let prev = segments(s.drop_last());
        if s.last() == '.' {
            prev.push(Seq::<char>::empty())
        } else {
            prev.update(prev.len() - 1, prev.last().push(s.last()))
        }
    }
}

pub open spec fn is_decimal_digit(c: char) -> bool {
    '0' <= c && c <= '9'
}

/// A part that is a number: non-empty, decimal digits only.
pub open spec fn is_numeric_segment(g: Seq<char>) -> bool {
    g.len() > 0 && forall|i: int| 0 <= i < g.len() ==> is_decimal_digit(#[trigger] g[i])
}

pub open spec fn digit_value(c: char) -> nat {
    ((c as u32) - ('0' as u32)) as nat
}

/// The number that a string of decimal digits writes.
pub open spec fn digits_value(g: Seq<char>) -> nat
    decreases g.len(),
{
    if g.len() == 0 {
        0
    } else {
        digits_value(g.drop_last()) * 10 + digit_value(g.last())
    }
}

/// What parsing `s` as a dotted version of `arity` parts gives: the count of
/// parts is checked first, then that every part is numeric, then that every
/// value fits in a `usize`.
pub open spec fn dotted_outcome(s: Seq<char>, arity: usize) -> Result<Seq<nat>, SemverError> {
    let segs = segments(s);
    if segs.len() != arity {
        Err(SemverError::InvalidLength(segs.len() as usize, arity))
    } else if exists|i: int| 0 <= i < segs.len() && !is_numeric_segment(#[trigger] segs[i]) {
        Err(SemverError::NotNumeric)
    } else if exists|i: int| 0 <= i < segs.len() && #[trigger] digits_value(segs[i]) > usize::MAX {
        Err(SemverError::TooLarge)
    } else {
        Ok(segs.map_values(|g: Seq<char>| digits_value(g)))
    }
}

proof fn lemma_segments_len(s: Seq<char>)
    ensures
        1 <= segments(s).len() <= s.len() + 1,
    decreases s.len(),
{
    if s.len() > 0 {
        lemma_segments_len(s.drop_last());
    }
}

proof fn lemma_prefix_value_le(g: Seq<char>, k: int)
    requires
        0 <= k <= g.len(),
    ensures
        digits_value(g.take(k)) <= digits_value(g),
    decreases g.len(),
{
    if k < g.len() {
        assert(g.drop_last().take(k) =~= g.take(k));
        lemma_prefix_value_le(g.drop_last(), k);
    } else {
        assert(g.take(k) =~= g);
    }
}

/// Whether `g` holds a character that is not a decimal digit.
pub open spec fn has_non_digit(g: Seq<char>) -> bool {
    exists|j: int| 0 <= j < g.len() && !is_decimal_digit(#[trigger] g[j])
}

proof fn lemma_stray_char_in_segment(s: Seq<char>, i: int)
    requires
        0 <= i < s.len(),
        !is_decimal_digit(s[i]),
        s[i] != '.',
    ensures
        exists|k: int| 0 <= k < segments(s).len() && has_non_digit(#[trigger] segments(s)[k]),
    decreases s.len(),
{
    lemma_segments_len(s.drop_last());
    let prev = segments(s.drop_last());
    if i == s.len() - 1 {
        let k = prev.len() - 1;
        let g = prev.last().push(s.last());
        assert(g[g.len() - 1] == s[i]);
        assert(segments(s)[k] == g);
        assert(has_non_digit(segments(s)[k]));
    } else {
        assert(s.drop_last()[i] == s[i]);
        lemma_stray_char_in_segment(s.drop_last(), i);
        let k = choose|k: int| 0 <= k < prev.len() && has_non_digit(#[trigger] prev[k]);
        let j = choose|j: int| 0 <= j < prev[k].len() && !is_decimal_digit(#[trigger] prev[k][j]);
        if s.last() != '.' && k == prev.len() - 1 {
            let g = prev[k].push(s.last());
            assert(g[j] == prev[k][j]);
            assert(segments(s)[k] == g);
        } else {
            assert(segments(s)[k] == prev[k]);
        }
        assert(has_non_digit(segments(s)[k]));
    }
}

/// A dotted version is refused when its count of parts is not `arity`, and
/// when it holds any character other than a decimal digit or a dot.
pub proof fn lemma_malformed_version_refused(s: Seq<char>, arity: usize)
    ensures
        segments(s).len() != arity ==> dotted_outcome(s, arity) == Err::<Seq<nat>, SemverError>(
            SemverError::InvalidLength(segments(s).len() as usize, arity),
        ),
        (exists|i: int| 0 <= i < s.len() && !is_decimal_digit(#[trigger] s[i]) && s[i] != '.')
            ==> dotted_outcome(s, arity) is Err,
{
    if exists|i: int| 0 <= i < s.len() && !is_decimal_digit(#[trigger] s[i]) && s[i] != '.' {
        let i = choose|i: int| 0 <= i < s.len() && !is_decimal_digit(#[trigger] s[i]) && s[i] != '.';
        lemma_stray_char_in_segment(s, i);
        let k = choose|k: int| 0 <= k < segments(s).len() && has_non_digit(#[trigger] segments(s)[k]);
        let j = choose|j: int|
            0 <= j < segments(s)[k].len() && !is_decimal_digit(#[trigger] segments(s)[k][j]);
        assert(!is_numeric_segment(segments(s)[k]));
    }
}

/// Cuts `cs` at every dot.
fn split_dots(cs: &Vec<char>) -> (r: Vec<Vec<char>>)
    ensures
        r@.map_values(|p: Vec<char>| p@) == segments(cs@),
{
    let mut done: Vec<Vec<char>> = Vec::new();
    let mut cur: Vec<char> = Vec::new();
    let mut i: usize = 0;
    while i < cs.len()
        invariant
            i <= cs@.len(),
            done@.map_values(|p: Vec<char>| p@).push(cur@) == segments(cs@.take(i as int)),
        decreases cs@.len() - i,
    {
        let c = cs[i];
        proof {
            assert(cs@.take(i + 1).drop_last() =~= cs@.take(i as int));
            lemma_segments_len(cs@.take(i as int));
        }
        let ghost old_done = done@.map_values(|p: Vec<char>| p@);
        if c == '.' {
            let finished = cur;
            done.push(finished);
            cur = Vec::new();
            assert(done@.map_values(|p: Vec<char>| p@) =~= old_done.push(finished@));
        } else {
            cur.push(c);
        }
        i = i + 1;
        assert(done@.map_values(|p: Vec<char>| p@).push(cur@) =~= segments(cs@.take(i as int)));
    }
    done.push(cur);
    assert(cs@.take(i as int) =~= cs@);
    assert(done@.map_values(|p: Vec<char>| p@) =~= segments(cs@));
    done
}

fn all_digits(g: &Vec<char>) -> (r: bool)
    ensures
        r == is_numeric_segment(g@),
{
    if g.len() == 0 {
        return false;
    }
    let mut i: usize = 0;
    while i < g.len()
        invariant
            i <= g@.len(),
            forall|j: int| 0 <= j < i ==> is_decimal_digit(#[trigger] g@[j]),
        decreases g@.len() - i,
    {
        let c = g[i];
        if !('0' <= c && c <= '9') {
            return false;
        }
        i = i + 1;
    }
    true
}

/// The value of a numeric part, or `None` where it exceeds `usize::MAX`.
fn segment_value(g: &Vec<char>) -> (r: Option<usize>)
    requires
        is_numeric_segment(g@),
    ensures
        match r {
            Some(v) => v as nat == digits_value(g@),
            None => digits_value(g@) > usize::MAX,
        },
{
    let mut acc: usize = 0;
    let mut i: usize = 0;
    while i < g.len()
        invariant
            i <= g@.len(),
            is_numeric_segment(g@),
            acc as nat == digits_value(g@.take(i as int)),
        decreases g@.len() - i,
    {
        let c = g[i];
        assert(g@.take(i + 1).drop_last() =~= g@.take(i as int));
        let d: u32 = (c as u32) - ('0' as u32);
        let next = match acc.checked_mul(10) {
            Some(t) => t.checked_add(d as usize),
            None => None,
        };
        match next {
            Some(v) => {
                acc = v;
            },
            None => {
                proof {
                    lemma_prefix_value_le(g@, i + 1);
                }
                return None;
            },
        }
        i = i + 1;
    }
    assert(g@.take(i as int) =~= g@);
    Some(acc)
}

/// The message for `e`.
pub open spec fn semver_error_text(e: SemverError) -> Seq<char> {
    match e {
        SemverError::InvalidLength(got, expected) => "Expected "@ + decimal(expected as nat)
            + " parts but got "@ + decimal(got as nat),
        SemverError::NotNumeric => "Got a version part that was not numeric"@,
        SemverError::TooLarge => "Got a version part that was too large"@,
    }
}

impl SemverError {
    /// The human-readable message of this error.
    pub fn message(&self) -> (r: String)
        ensures
            r@ == semver_error_text(*self),
    {
        let mut out = String::new();
        match *self {
            SemverError::InvalidLength(got, expected) => {
                out.append("Expected ");
                append_decimal(&mut out, expected);
                out.append(" parts but got ");
                append_decimal(&mut out, got);
            },
            SemverError::NotNumeric => {
                out.append("Got a version part that was not numeric");
            },
            SemverError::TooLarge => {
                out.append("Got a version part that was too large");
            },
        }
        out
    }
}

impl ThreePartSemver {
    /// Parses `value` as `major.minor.patch`.
    pub fn try_from(value: String) -> (r: Result<ThreePartSemver, SemverError>)
        ensures
            match (r, dotted_outcome(value@, 3)) {
                (Ok(v), Ok(ns)) => ns == seq![v.major as nat, v.minor as nat, v.patch as nat],
                (Err(e), Err(f)) => e == f,
                _ => false,
            },
    {
        match parse_dotted(value.as_str(), 3) {
            Ok(vs) => {
                assert(dotted_outcome(value@, 3) is Ok);
                let r = ThreePartSemver { major: vs[0], minor: vs[1], patch: vs[2] };
                assert(dotted_outcome(value@, 3)->Ok_0 =~= seq![
                    r.major as nat,
                    r.minor as nat,
                    r.patch as nat,
                ]);
                Ok(r)
            },
            Err(e) => Err(e),
        }
    }
}

impl FourPartSemver {
    /// Parses `value` as `major.minor.patch.build`.
    pub fn try_from(value: String) -> (r: Result<FourPartSemver, SemverError>)
        ensures
            match (r, dotted_outcome(value@, 4)) {
                (Ok(v), Ok(ns)) => ns == seq![
                    v.major as nat,
                    v.minor as nat,
                    v.patch as nat,
                    v.build as nat,
                ],
                (Err(e), Err(f)) => e == f,
                _ => false,
            },
    {
        match parse_dotted(value.as_str(), 4) {
            Ok(vs) => {
                assert(dotted_outcome(value@, 4) is Ok);
                let r = FourPartSemver { major: vs[0], minor: vs[1], patch: vs[2], build: vs[3] };
                assert(dotted_outcome(value@, 4)->Ok_0 =~= seq![
                    r.major as nat,
                    r.minor as nat,
                    r.patch as nat,
                    r.build as nat,
                ]);
                Ok(r)
            },
            Err(e) => Err(e),
        }
    }
}

/// Parses `s` as a dotted version of exactly `arity` parts.
pub fn parse_dotted(s: &str, arity: usize) -> (r: Result<Vec<usize>, SemverError>)
    ensures
        match (r, dotted_outcome(s@, arity)) {
            (Ok(vs), Ok(ns)) => vs@.len() == ns.len() && forall|i: int|
                0 <= i < ns.len() ==> vs@[i] as nat == #[trigger] ns[i],
            (Err(e), Err(f)) => e == f,
            _ => false,
        },
{
    let cs = chars_of(s);
    let parts = split_dots(&cs);
    let ghost segs = segments(s@);
    assert(parts@.len() == segs.len());
    assert forall|k: int| 0 <= k < parts@.len() implies #[trigger] parts@[k]@ == segs[k] by {
        assert(parts@.map_values(|p: Vec<char>| p@)[k] == parts@[k]@);
    }
    if parts.len() != arity {
        return Err(SemverError::InvalidLength(parts.len(), arity));
    }
    let mut k: usize = 0;
    while k < parts.len()
        invariant
            k <= parts@.len(),
            parts@.len() == segs.len(),
            segs.len() == arity,
            segs == segments(s@),
            forall|j: int| 0 <= j < parts@.len() ==> #[trigger] parts@[j]@ == segs[j],
            forall|j: int| 0 <= j < k ==> is_numeric_segment(#[trigger] segs[j]),
        decreases parts@.len() - k,
    {
        if !all_digits(&parts[k]) {
            assert(!is_numeric_segment(segs[k as int]));
            return Err(SemverError::NotNumeric);
        }
        k = k + 1;
    }
    let mut values: Vec<usize> = Vec::new();
    k = 0;
    while k < parts.len()
        invariant
            k <= parts@.len(),
            parts@.len() == segs.len(),
            segs.len() == arity,
            segs == segments(s@),
            forall|j: int| 0 <= j < parts@.len() ==> #[trigger] parts@[j]@ == segs[j],
            forall|j: int| 0 <= j < segs.len() ==> is_numeric_segment(#[trigger] segs[j]),
            values@.len() == k,
            forall|j: int| 0 <= j < k ==> values@[j] as nat == #[trigger] digits_value(segs[j]),
        decreases parts@.len() - k,
    {
        match segment_value(&parts[k]) {
            Some(v) => {
                values.push(v);
            },
            None => {
                assert(digits_value(segs[k as int]) > usize::MAX);
                return Err(SemverError::TooLarge);
            },
        }
        k = k + 1;
    }
    assert(!exists|i: int| 0 <= i < segs.len() && #[trigger] digits_value(segs[i]) > usize::MAX);
    Ok(values)
}

} // verus!
