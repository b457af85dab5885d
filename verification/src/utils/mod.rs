//! Helpers shared by the strategies and the tensor pipeline.

pub mod bytes;
pub mod permutation;
pub mod tensor_ops;

pub use permutation::{apply_column_permutation, build_column_permutation};
pub use tensor_ops::{tensor_to_bits, ElementType};

use vstd::prelude::*;

verus! {

/// The ending that names a weight tensor.
pub const WEIGHT_SUFFIX: &'static str = ".weight";

/// `s` ends with `suffix`.
pub open spec fn has_suffix(s: Seq<char>, suffix: Seq<char>) -> bool {
    suffix.len() <= s.len() && s.subrange(s.len() - suffix.len(), s.len() as int) == suffix
}

/// `pattern` stands in `s` at position `at`.
pub open spec fn occurs_at(s: Seq<char>, pattern: Seq<char>, at: int) -> bool {
    0 <= at && at + pattern.len() <= s.len() && s.subrange(at, at + pattern.len()) == pattern
}

/// `pattern` stands somewhere in `s`.  The empty pattern stands in every string.
pub open spec fn contains_text(s: Seq<char>, pattern: Seq<char>) -> bool {
    exists|at: int| occurs_at(s, pattern, at)
}

/// A tensor called `name` is quantized: the name ends like a weight's and holds none of the
/// skip patterns.
pub open spec fn is_target(name: Seq<char>, skip_patterns: Seq<String>) -> bool {
    &&& has_suffix(name, WEIGHT_SUFFIX@)
    &&& forall|i: int|
        0 <= i < skip_patterns.len() ==> !contains_text(name, (#[trigger] skip_patterns[i])@)
}

/// The characters of `s`.
pub fn chars_of(s: &str) -> (chars: Vec<char>)
    ensures
        chars@ == s@,
{
    let mut chars: Vec<char> = Vec::new();
    for c in it: s.chars()
        invariant
            it.seq() == s@,
            chars@ == it.seq().take(it.index()),
    {
        chars.push(c);
    }
    chars
}

/// Tells whether `pattern` stands in `s` at `at`.
fn matches_at(s: &Vec<char>, pattern: &Vec<char>, at: usize) -> (found: bool)
    requires
        at + pattern@.len() <= s@.len(),
    ensures
        found == occurs_at(s@, pattern@, at as int),
{
    let n = pattern.len();
    let total = s.len();
    let mut j: usize = 0;
    while j < n
        invariant
            n == pattern@.len(),
            total == s@.len(),
            at + n <= total,
            j <= n,
            forall|x: int| 0 <= x < j ==> s@[at + x] == pattern@[x],
        decreases n - j,
    {
        if s[at + j] != pattern[j] {
            assert(s@.subrange(at as int, at + n)[j as int] != pattern@[j as int]);
            return false;
        }
        j += 1;
    }
    assert(s@.subrange(at as int, at + n) =~= pattern@);
    true
}

/// Tells whether `s` ends with `suffix`.
pub fn ends_with(s: &Vec<char>, suffix: &Vec<char>) -> (found: bool)
    ensures
        found == has_suffix(s@, suffix@),
{
    if suffix.len() > s.len() {
        return false;
    }
    matches_at(s, suffix, s.len() - suffix.len())
}

/// Tells whether `pattern` stands somewhere in `s`.
pub fn contains(s: &Vec<char>, pattern: &Vec<char>) -> (found: bool)
    ensures
        found == contains_text(s@, pattern@),
{
    if pattern.len() > s.len() {
        return false;
    }
    let last = s.len() - pattern.len();
    let mut at: usize = 0;
    loop
        invariant
            last == s@.len() - pattern@.len(),
            at <= last,
            forall|x: int| 0 <= x < at ==> !occurs_at(s@, pattern@, x),
        decreases last - at,
    {
        if matches_at(s, pattern, at) {
            return true;
        }
        if at == last {
            return false;
        }
        at += 1;
    }
}

/// Tells whether the tensor called `name` is quantized: its name ends in `.weight` and
/// holds none of the skip patterns.
pub fn is_target_weight(name: &str, skip_patterns: &[String]) -> (target: bool)
    ensures
        target == is_target(name@, skip_patterns@),
{
    let chars = chars_of(name);
    let suffix = chars_of(WEIGHT_SUFFIX);
    if !ends_with(&chars, &suffix) {
        return false;
    }
    let mut i: usize = 0;
    while i < skip_patterns.len()
        invariant
            i <= skip_patterns@.len(),
            chars@ == name@,
            forall|x: int| 0 <= x < i ==> !contains_text(name@, (#[trigger] skip_patterns@[x])@),
        decreases skip_patterns@.len() - i,
    {
        let pattern = chars_of(skip_patterns[i].as_str());
        if contains(&chars, &pattern) {
            return false;
        }
        i += 1;
    }
    true
}

} // verus!
