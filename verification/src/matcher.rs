//! Compilation and matching of route path patterns.
//!
//! A pattern is literal text with at most one capturing group, written
//! `(\d+)`, that stands for one or more decimal digits. A pattern without a
//! group matches exactly its own text; one with a group matches the paths
//! built from the literal text around the group with a non-empty digit run
//! in its place, and extracts that run. Matching is pure: a compiled matcher
//! is never mutated.
use crate::text::char_vecs_equal;
use crate::text::chars_to_string;
use crate::text::str_chars;
use vstd::prelude::*;

verus! {

/// Why a pattern fails to compile.
#[derive(Debug, Clone, Copy, PartialEq, Eq, Structural)]
pub enum PatternError {
    /// The pattern is not literal text with at most one `(\d+)` group.
    InvalidPattern,
}

/// Decimal digits, the only characters a capturing group matches.
pub open spec fn is_digit_char(c: char) -> bool {
    48 <= c as u32 && c as u32 <= 57
}

/// Characters reserved for the capture marker.
pub open spec fn is_special_char(c: char) -> bool {
    c == '(' || c == ')' || c == '\\'
}

/// The capture marker as written in a pattern.
pub open spec fn capture_marker() -> Seq<char> {
    seq!['(', '\\', 'd', '+', ')']
}

/// Plain literal text: no reserved character anywhere.
pub open spec fn literal_pattern(p: Seq<char>) -> bool {
    forall|i: int| 0 <= i < p.len() ==> !is_special_char(p[i])
}

/// The capture marker stands at `k`, with plain literal text around it.
pub open spec fn capture_split_at(p: Seq<char>, k: int) -> bool {
    &&& 0 <= k
    &&& k + 5 <= p.len()
    &&& p.subrange(k, k + 5) == capture_marker()
    &&& forall|i: int| 0 <= i < k ==> !is_special_char(p[i])
    &&& forall|i: int| k + 5 <= i < p.len() ==> !is_special_char(p[i])
}

/// Literal text with exactly one capture marker somewhere.
pub open spec fn capture_pattern(p: Seq<char>) -> bool {
    exists|k: int| capture_split_at(p, k)
}

/// The patterns that compile.
pub open spec fn valid_pattern(p: Seq<char>) -> bool {
    literal_pattern(p) || capture_pattern(p)
}

/// A capture marker can only stand at the first reserved character.
proof fn lemma_capture_split_unique(p: Seq<char>, k: int, kp: int)
    requires
        0 <= k <= p.len(),
        forall|j: int| 0 <= j < k ==> !is_special_char(p[j]),
        k == p.len() || is_special_char(p[k]),
        capture_split_at(p, kp),
    ensures
        kp == k,
{
    assert(p.subrange(kp, kp + 5)[0] == capture_marker()[0]);
    assert(p[kp] == '(');
    assert(is_special_char(p[kp]));
    if kp < k {
        assert(!is_special_char(p[kp]));
        assert(false);
    }
    if kp > k {
        assert(k < p.len());
        assert(!is_special_char(p[k]));
        assert(false);
    }
}

/// Length of the digit run at the head of `s`.
pub open spec fn digit_run(s: Seq<char>) -> int
    decreases s.len(),
{
    if s.len() == 0 {
        0
    } else if !is_digit_char(s[0]) {
        0
    } else {
        1 + digit_run(s.skip(1))
    }
}

/// `digit_run` is the unique cut between leading digits and the rest.
pub proof fn lemma_digit_run_is(s: Seq<char>, n: int)
    requires
        0 <= n <= s.len(),
        forall|j: int| 0 <= j < n ==> is_digit_char(s[j]),
        n == s.len() || !is_digit_char(s[n]),
    ensures
        digit_run(s) == n,
    decreases s.len(),
{
    if n == 0 {
        if s.len() > 0 {
            assert(!is_digit_char(s[0]));
        }
    } else {
        assert(is_digit_char(s[0]));
        let t = s.skip(1);
        assert(forall|j: int| 0 <= j < t.len() ==> t[j] == s[j + 1]);
        lemma_digit_run_is(t, n - 1);
    }
}

/// A compiled route pattern: the literal text before and after the capture
/// marker, and whether the marker is present at all.
#[derive(Debug)]
pub struct PathMatcher {
    pub prefix: Vec<char>,
    pub capture: bool,
    pub suffix: Vec<char>,
}

/// What matching a path yields: the whole matched path, and the digit run
/// the capturing group extracted, if the pattern has one.
pub struct PathMatch {
    pub full_match: String,
    pub captured: Option<String>,
}

impl PathMatcher {
    /// The paths this matcher accepts.
    pub open spec fn spec_matches(&self, path: Seq<char>) -> bool {
        if self.capture {
            &&& path.len() >= self.prefix@.len()
            &&& path.subrange(0, self.prefix@.len() as int) == self.prefix@
            &&& ({
                let rest = path.skip(self.prefix@.len() as int);
                digit_run(rest) >= 1 && rest.skip(digit_run(rest)) == self.suffix@
            })
        } else {
            path == self.prefix@
        }
    }

    /// The digits the capturing group extracts from a matching path.
    pub open spec fn spec_captured(&self, path: Seq<char>) -> Seq<char> {
        let rest = path.skip(self.prefix@.len() as int);
        rest.take(digit_run(rest))
    }

    /// A matcher for exactly the text `text`.
    pub fn literal(text: &str) -> (m: PathMatcher)
        ensures
            m.prefix@ == text@,
            !m.capture,
    {
        PathMatcher { prefix: str_chars(text), capture: false, suffix: Vec::new() }
    }

    /// A matcher for `prefix`, one or more digits, then `suffix`.
    pub fn capture_between(prefix: &str, suffix: &str) -> (m: PathMatcher)
        ensures
            m.prefix@ == prefix@,
            m.capture,
            m.suffix@ == suffix@,
    {
        PathMatcher { prefix: str_chars(prefix), capture: true, suffix: str_chars(suffix) }
    }

    /// Compiles a textual pattern; exactly the patterns that are literal
    /// text with at most one `(\d+)` group are accepted, and the matcher
    /// keeps the text around the group.
    #[verifier::loop_isolation(false)]
    pub fn compile(pattern: &str) -> (r: Result<PathMatcher, PatternError>)
        ensures
            r is Ok <==> valid_pattern(pattern@),
            match r {
                Ok(m) => {
                    &&& (literal_pattern(pattern@) ==> !m.capture && m.prefix@ == pattern@)
                    &&& forall|k: int|
                        capture_split_at(pattern@, k) ==> m.capture && m.prefix@
                            == pattern@.subrange(0, k) && m.suffix@ == pattern@.skip(k + 5)
                },
                Err(e) => e == PatternError::InvalidPattern,
            },
    {
        let chars = str_chars(pattern);
        let n = chars.len();
        let mut k: usize = 0;
        while k < n
            invariant
                0 <= k <= n,
                forall|j: int| 0 <= j < k ==> !is_special_char(chars@[j]),
            decreases n - k,
        {
            let c = chars[k];
            if c == '(' || c == ')' || c == '\\' {
                break ;
            }
            k += 1;
        }
        if k == n {
            // No reserved character: a literal pattern, and no split exists.
            proof {
                assert forall|kp: int| !capture_split_at(pattern@, kp) by {
                    if capture_split_at(pattern@, kp) {
                        lemma_capture_split_unique(pattern@, k as int, kp);
                    }
                }
            }
            return Ok(PathMatcher { prefix: chars, capture: false, suffix: Vec::new() });
        }
        // The first reserved character stands at k; only the marker may.
        proof {
            assert(is_special_char(chars@[k as int]));
        }
        if chars[k] != '(' || n - k < 5 || chars[k + 1] != '\\' || chars[k + 2] != 'd' || chars[k
            + 3] != '+' || chars[k + 4] != ')' {
            proof {
                assert(!literal_pattern(pattern@));
                assert forall|kp: int| !capture_split_at(pattern@, kp) by {
                    if capture_split_at(pattern@, kp) {
                        lemma_capture_split_unique(pattern@, k as int, kp);
                        assert(pattern@.subrange(kp, kp + 5) == capture_marker());
                        assert(pattern@.subrange(kp, kp + 5)[0] == capture_marker()[0]);
                        assert(pattern@.subrange(kp, kp + 5)[1] == capture_marker()[1]);
                        assert(pattern@.subrange(kp, kp + 5)[2] == capture_marker()[2]);
                        assert(pattern@.subrange(kp, kp + 5)[3] == capture_marker()[3]);
                        assert(pattern@.subrange(kp, kp + 5)[4] == capture_marker()[4]);
                        assert(false);
                    }
                }
            }
            return Err(PatternError::InvalidPattern);
        }
        let mut j: usize = k + 5;
        while j < n
            invariant
                k + 5 <= j <= n,
                forall|i: int| k + 5 <= i < j ==> !is_special_char(chars@[i]),
            decreases n - j,
        {
            let c = chars[j];
            if c == '(' || c == ')' || c == '\\' {
                proof {
                    assert(!literal_pattern(pattern@));
                    assert forall|kp: int| !capture_split_at(pattern@, kp) by {
                        if capture_split_at(pattern@, kp) {
                            lemma_capture_split_unique(pattern@, k as int, kp);
                            assert(!is_special_char(pattern@[j as int]));
                            assert(false);
                        }
                    }
                }
                return Err(PatternError::InvalidPattern);
            }
            j += 1;
        }
        let mut prefix: Vec<char> = Vec::new();
        let mut i: usize = 0;
        while i < k
            invariant
                0 <= i <= k,
                k + 5 <= n == chars.len(),
                prefix@ =~= chars@.subrange(0, i as int),
            decreases k - i,
        {
            prefix.push(chars[i]);
            i += 1;
        }
        let mut suffix: Vec<char> = Vec::new();
        let mut t: usize = k + 5;
        while t < n
            invariant
                k + 5 <= t <= n == chars.len(),
                suffix@ =~= chars@.subrange(k + 5, t as int),
            decreases n - t,
        {
            suffix.push(chars[t]);
            t += 1;
        }
        proof {
            assert(pattern@.subrange(k as int, k as int + 5) =~= capture_marker());
            assert(capture_split_at(pattern@, k as int));
            assert(suffix@ =~= pattern@.skip(k as int + 5));
            assert forall|kp: int|
                capture_split_at(pattern@, kp) implies kp == k as int by {
                lemma_capture_split_unique(pattern@, k as int, kp);
            }
        }
        Ok(PathMatcher { prefix, capture: true, suffix })
    }

    /// Tests a path: a match is returned exactly when the pattern accepts
    /// it, carrying the whole path and the digits of the capturing group.
    #[verifier::loop_isolation(false)]
    pub fn try_match(&self, path: &str) -> (r: Option<PathMatch>)
        ensures
            r is Some <==> self.spec_matches(path@),
            match r {
                Some(m) => {
                    &&& m.full_match@ == path@
                    &&& if self.capture {
                        m.captured is Some && m.captured->0@ == self.spec_captured(path@)
                    } else {
                        m.captured is None
                    }
                },
                None => true,
            },
    {
        let chars = str_chars(path);
        let n = chars.len();
        let plen = self.prefix.len();
        if !self.capture {
            if char_vecs_equal(&chars, &self.prefix) {
                return Some(PathMatch { full_match: path.to_owned(), captured: None });
            } else {
                return None;
            }
        }
        if n < plen {
            proof {
                assert(!self.spec_matches(path@));
            }
            return None;
        }
        let mut i: usize = 0;
        while i < plen
            invariant
                0 <= i <= plen <= n == chars.len(),
                forall|j: int| 0 <= j < i ==> chars@[j] == self.prefix@[j],
            decreases plen - i,
        {
            if chars[i] != self.prefix[i] {
                proof {
                    assert(path@.subrange(0, plen as int)[i as int] == path@[i as int]);
                    assert(!self.spec_matches(path@));
                }
                return None;
            }
            i += 1;
        }
        proof {
            assert(path@.subrange(0, plen as int) =~= self.prefix@);
        }
        let ghost rest = path@.skip(plen as int);
        let mut d: usize = plen;
        while d < n
            invariant
                plen <= d <= n == chars.len(),
                forall|j: int| plen <= j < d ==> is_digit_char(chars@[j]),
            decreases n - d,
        {
            let c = chars[d];
            let u = c as u32;
            if u < 48 || u > 57 {
                break ;
            }
            d += 1;
        }
        proof {
            assert(forall|j: int| 0 <= j < rest.len() ==> rest[j] == path@[plen + j]);
            lemma_digit_run_is(rest, d as int - plen as int);
        }
        if d == plen {
            proof {
                assert(!self.spec_matches(path@));
            }
            return None;
        }
        // Compare the tail after the digit run with the suffix.
        let slen = self.suffix.len();
        if n - d != slen {
            proof {
                assert(rest.skip(digit_run(rest)).len() == n - d);
                assert(!self.spec_matches(path@));
            }
            return None;
        }
        let mut t: usize = 0;
        while t < slen
            invariant
                0 <= t <= slen == self.suffix.len(),
                plen <= d <= n == chars.len(),
                n - d == slen,
                forall|j: int| 0 <= j < t ==> chars@[d + j] == self.suffix@[j],
            decreases slen - t,
        {
            if chars[d + t] != self.suffix[t] {
                proof {
                    assert(rest.skip(digit_run(rest))[t as int] == path@[d + t]);
                    assert(!self.spec_matches(path@));
                }
                return None;
            }
            t += 1;
        }
        proof {
            assert(rest.skip(digit_run(rest)) =~= self.suffix@);
            assert(self.spec_matches(path@));
        }
        let mut digits: Vec<char> = Vec::new();
        let mut q: usize = plen;
        while q < d
            invariant
                plen <= q <= d <= n == chars.len(),
                digits@ =~= path@.subrange(plen as int, q as int),
            decreases d - q,
        {
            digits.push(chars[q]);
            q += 1;
        }
        proof {
            assert(self.spec_captured(path@) =~= path@.subrange(plen as int, d as int));
        }
        let captured = chars_to_string(&digits);
        Some(PathMatch { full_match: path.to_owned(), captured: Some(captured) })
    }
}

} // verus!
