//! The strategy that gives the query, key and value projections of one attention layer the
//! same column order, and leaves the output projection as it is.
//!
//! The permutations that the layers share are state of the strategy.  Every operation that
//! looks a layer up and stores what it computed takes the strategy by exclusive reference,
//! so the two happen as one step: callers on several threads put the strategy behind a lock.

use super::{
    is_energy_ordered, is_sound_result, order_by_energy, Permuted, QuantizationStrategy,
    StrategyError,
};
use crate::utils::permutation::{
    apply_column_permutation, build_column_permutation, is_energy_order, is_permutation,
    lemma_energy_order_unique, permute_columns,
};
use std::collections::HashMap;
use vstd::prelude::*;
use vstd::slice::slice_to_vec;

verus! {

broadcast use vstd::std_specs::hash::group_hash_axioms;

/// The pattern of an attention projection's name: the layer's number is the first group,
/// the projection's letter the second.
pub const ATTENTION_PATTERN: &'static str =
    "^model\\.layers\\.(\\d+)\\.self_attn\\.(q|k|v|o)_proj\\.weight$";

/// Which projection of an attention layer a tensor is.
#[derive(Clone, Copy, Debug, PartialEq, Eq, Structural)]
pub enum AttentionRole {
    Query,
    Key,
    Value,
    Output,
}

/// What `regex::Regex::captures` finds for `pattern` in `haystack`: `None` where
/// `regex::Regex::new` refuses the pattern or the expression matches nowhere; else, for each
/// group of the leftmost match (the whole match is group 0), the text that it matched, or
/// `None` where it took no part.
pub uninterp spec fn regex_captures(pattern: Seq<char>, haystack: Seq<char>) -> Option<
    Seq<Option<Seq<char>>>,
>;

/// The groups of a match, each string by its characters.
pub open spec fn groups_view(groups: Option<Vec<Option<String>>>) -> Option<
    Seq<Option<Seq<char>>>,
> {
    match groups {
        None => None,
        Some(v) => Some(
            v@.map_values(
                |g: Option<String>|
                    match g {
                        None => None,
                        Some(s) => Some(s@),
                    },
            ),
        ),
    }
}

/// Compiles `pattern` with `regex::Regex::new` and searches `haystack` with
/// `regex::Regex::captures`.  Not proved: that what comes back is `regex_captures` of the
/// two strings, that is, that the crate's answer depends on nothing but them.
#[verifier::external_body]
fn capture_groups(pattern: &str, haystack: &str) -> (groups: Option<Vec<Option<String>>>)
    ensures
        groups_view(groups) == regex_captures(pattern@, haystack@),
{
    let re = regex::Regex::new(pattern).ok()?;
    let caps = re.captures(haystack)?;
    Some(caps.iter().map(|g| g.map(|m| m.as_str().to_string())).collect())
}

/// The value of a decimal digit, `None` for any other character.
pub open spec fn digit_value(c: char) -> Option<int> {
    if '0' <= c && c <= '9' {
        Some(c as int - '0' as int)
    } else {
        None
    }
}

/// Every character of `s` is a decimal digit.
pub open spec fn all_digits(s: Seq<char>) -> bool {
    forall|i: int| 0 <= i < s.len() ==> (#[trigger] digit_value(s[i])) is Some
}

/// The number that the digits of `s` write in base ten.
pub open spec fn decimal_value(s: Seq<char>) -> int
    decreases s.len(),
{
    if s.len() == 0 {
        0
    } else {
        decimal_value(s.drop_last()) * 10 + digit_value(s.last()).unwrap_or(0)
    }
}

/// The layer number that `s` writes: `s` is one or more decimal digits and their value fits
/// in 32 bits.
pub open spec fn layer_number(s: Seq<char>) -> Option<u32> {
    if s.len() > 0 && all_digits(s) && decimal_value(s) <= u32::MAX {
        Some(decimal_value(s) as u32)
    } else {
        None
    }
}

/// The projection that the letter `s` stands for.
pub open spec fn role_of(s: Seq<char>) -> Option<AttentionRole> {
    if s == seq!['q'] {
        Some(AttentionRole::Query)
    } else if s == seq!['k'] {
        Some(AttentionRole::Key)
    } else if s == seq!['v'] {
        Some(AttentionRole::Value)
    } else if s == seq!['o'] {
        Some(AttentionRole::Output)
    } else {
        None
    }
}

/// The layer and projection that the groups of a match name: there are the whole match and
/// two groups, the first a layer number and the second a projection letter.
pub open spec fn attention_target(groups: Option<Seq<Option<Seq<char>>>>) -> Option<
    (u32, AttentionRole),
> {
    match groups {
        Some(g) => if g.len() == 3 && g[1] is Some && g[2] is Some {
            match (layer_number(g[1]->0), role_of(g[2]->0)) {
                (Some(layer), Some(role)) => Some((layer, role)),
                _ => None,
            }
        } else {
            None
        },
        None => None,
    }
}

/// A prefix writes no larger a number than the whole.
proof fn lemma_decimal_value_grows(s: Seq<char>, n: int)
    requires
        0 <= n <= s.len(),
    ensures
        0 <= decimal_value(s.take(n)) <= decimal_value(s),
    decreases s.len() - n,
{
    lemma_decimal_value_nonnegative(s.take(n));
    if n < s.len() {
        lemma_decimal_value_grows(s, n + 1);
        assert(s.take(n + 1).drop_last() =~= s.take(n));
    } else {
        assert(s.take(n) =~= s);
    }
}

/// No digits write a negative number.
proof fn lemma_decimal_value_nonnegative(s: Seq<char>)
    ensures
        0 <= decimal_value(s),
    decreases s.len(),
{
    if s.len() > 0 {
        lemma_decimal_value_nonnegative(s.drop_last());
    }
}

/// Reads a layer number: one or more decimal digits whose value fits in 32 bits.
pub fn parse_layer_number(text: &str) -> (layer: Option<u32>)
    ensures
        layer == layer_number(text@),
{
    let mut value: u32 = 0;
    let mut any: bool = false;
    for c in it: text.chars()
        invariant
            it.seq() == text@,
            any == (it.index() > 0),
            all_digits(text@.take(it.index())),
            value == decimal_value(text@.take(it.index())),
    {
        let ghost n = it.index();
        let ghost before = text@.take(n);
        let ghost after = text@.take(n + 1);
        assert(after.drop_last() =~= before);
        assert(after.last() == c);
        if c < '0' || c > '9' {
            assert(digit_value(text@[n]) is None);
            return None;
        }
        let d: u32 = c as u32 - '0' as u32;
        if value > (u32::MAX - d) / 10 {
            proof {
                lemma_decimal_value_grows(text@, n + 1);
            }
            return None;
        }
        value = value * 10 + d;
        any = true;
        assert forall|i: int| 0 <= i < after.len() implies (#[trigger] digit_value(
            after[i],
        )) is Some by {
            if i < before.len() {
                assert(after[i] == before[i]);
            }
        }
    }
    assert(text@.take(text@.len() as int) =~= text@);
    if any {
        Some(value)
    } else {
        None
    }
}

/// Reads a projection letter.
pub fn parse_role(text: &str) -> (role: Option<AttentionRole>)
    ensures
        role == role_of(text@),
{
    if text.unicode_len() != 1 {
        return None;
    }
    let c = text.get_char(0);
    assert(text@ =~= seq![c]);
    if c == 'q' {
        Some(AttentionRole::Query)
    } else if c == 'k' {
        Some(AttentionRole::Key)
    } else if c == 'v' {
        Some(AttentionRole::Value)
    } else if c == 'o' {
        Some(AttentionRole::Output)
    } else {
        assert(seq!['q'][0] == 'q' && seq!['k'][0] == 'k' && seq!['v'][0] == 'v' && seq!['o'][0]
            == 'o');
        None
    }
}

/// Reads the layer and the projection out of the groups of a match.
pub fn classify_captures(groups: &Option<Vec<Option<String>>>) -> (target: Option<
    (u32, AttentionRole),
>)
    ensures
        target == attention_target(groups_view(*groups)),
{
    match groups {
        Some(g) => {
            if g.len() != 3 {
                return None;
            }
            match (&g[1], &g[2]) {
                (Some(number), Some(letter)) => {
                    let layer = parse_layer_number(number.as_str());
                    let role = parse_role(letter.as_str());
                    match (layer, role) {
                        (Some(l), Some(r)) => Some((l, r)),
                        _ => None,
                    }
                },
                _ => None,
            }
        },
        None => None,
    }
}

/// `p` and `after` are what asking the cache `before` for `layer` gives: the permutation it
/// holds for the layer and the cache as it was, or else the energy order of `energies`, which
/// the cache holds for the layer from then on.
pub open spec fn is_resolution(
    before: Map<u32, Seq<usize>>,
    layer: u32,
    energies: Seq<u32>,
    p: Seq<usize>,
    after: Map<u32, Seq<usize>>,
) -> bool {
    if before.contains_key(layer) {
        p == before[layer] && after == before
    } else {
        is_energy_order(energies, p) && after == before.insert(layer, p)
    }
}

/// Sharing: once a layer has been asked for, every later request for it gets the same
/// permutation, whatever the energies of the later tensor, and leaves the cache alone.
pub proof fn lemma_layer_shares_permutation(
    cache: Map<u32, Seq<usize>>,
    layer: u32,
    first_energies: Seq<u32>,
    first: Seq<usize>,
    between: Map<u32, Seq<usize>>,
    later_energies: Seq<u32>,
    later: Seq<usize>,
    after: Map<u32, Seq<usize>>,
)
    requires
        is_resolution(cache, layer, first_energies, first, between),
        is_resolution(between, layer, later_energies, later, after),
    ensures
        later == first,
        after == between,
{
}

/// Order independence: for a layer that the cache holds, asking for the key tensor and then
/// the query tensor gives the permutations that asking in the other order gives.  The same
/// holds of a layer not yet held where both tensors have the same energy order.
pub proof fn lemma_request_order_is_irrelevant(
    cache: Map<u32, Seq<usize>>,
    layer: u32,
    key_energies: Seq<u32>,
    query_energies: Seq<u32>,
    key_first: (Seq<usize>, Map<u32, Seq<usize>>),
    query_second: (Seq<usize>, Map<u32, Seq<usize>>),
    query_first: (Seq<usize>, Map<u32, Seq<usize>>),
    key_second: (Seq<usize>, Map<u32, Seq<usize>>),
)
    requires
        cache.contains_key(layer) || forall|p: Seq<usize>|
            is_energy_order(key_energies, p) <==> is_energy_order(query_energies, p),
        is_resolution(cache, layer, key_energies, key_first.0, key_first.1),
        is_resolution(key_first.1, layer, query_energies, query_second.0, query_second.1),
        is_resolution(cache, layer, query_energies, query_first.0, query_first.1),
        is_resolution(query_first.1, layer, key_energies, key_second.0, key_second.1),
    ensures
        key_first.0 == key_second.0,
        query_second.0 == query_first.0,
        key_first.0 == query_first.0,
        query_second.1 == key_second.1,
{
    if !cache.contains_key(layer) {
        lemma_energy_order_unique(key_energies, key_first.0, query_first.0);
    }
}

/// The permutations that the layers seen so far share, by layer number.
pub struct LayerPermCache {
    map: HashMap<u32, Vec<usize>>,
}

impl View for LayerPermCache {
    type V = Map<u32, Seq<usize>>;

    closed spec fn view(&self) -> Map<u32, Seq<usize>> {
        Map::new(|layer: u32| self.map@.contains_key(layer), |layer: u32| self.map@[layer]@)
    }
}

impl LayerPermCache {
    #[verifier::type_invariant]
    spec fn holds_permutations(self) -> bool {
        forall|layer: u32| #[trigger]
            self.map@.contains_key(layer) ==> is_permutation(self.map@[layer]@)
    }

    /// An empty cache.
    pub fn new() -> (cache: Self)
        ensures
            cache@ == Map::<u32, Seq<usize>>::empty(),
    {
        let cache = Self { map: HashMap::new() };
        assert(cache@ =~= Map::<u32, Seq<usize>>::empty());
        cache
    }

    /// The permutation held for `layer_id`, if there is one.
    pub fn lookup(&self, layer_id: u32) -> (held: Option<Vec<usize>>)
        ensures
            held is Some <==> self@.contains_key(layer_id),
            held matches Some(p) ==> p@ == self@[layer_id] && is_permutation(p@),
    {
        proof {
            use_type_invariant(self);
        }
        match self.map.get(&layer_id) {
            Some(p) => Some(slice_to_vec(p.as_slice())),
            None => None,
        }
    }

    /// The permutation of `layer_id`: the one held for it, or else the energy order of
    /// `energies`, which is held for the layer from then on.
    pub fn get_or_compute(&mut self, layer_id: u32, energies: &[u32]) -> (perm: Vec<usize>)
        ensures
            is_resolution(old(self)@, layer_id, energies@, perm@, final(self)@),
            is_permutation(perm@),
    {
        match self.lookup(layer_id) {
            Some(p) => p,
            None => {
                let perm = build_column_permutation(energies);
                let held = slice_to_vec(perm.as_slice());
                proof {
                    use_type_invariant(&*self);
                }
                // A value with an invariant is rebuilt, not changed in place.
                let mut emptied = Self::new();
                std::mem::swap(self, &mut emptied);
                let Self { map } = emptied;
                let mut map = map;
                map.insert(layer_id, held);
                *self = Self { map };
                assert(self@ =~= old(self)@.insert(layer_id, perm@));
                perm
            },
        }
    }
}

/// `r` and `after` are what the strategy gives for a tensor that names `target`, with the
/// shared permutations `before`.
pub open spec fn is_attention_outcome<T>(
    before: Map<u32, Seq<usize>>,
    target: Option<(u32, AttentionRole)>,
    data: Seq<T>,
    energies: Seq<u32>,
    rows: nat,
    k: nat,
    r: Result<Permuted<T>, StrategyError>,
    after: Map<u32, Seq<usize>>,
) -> bool {
    match target {
        None => after == before && is_energy_ordered(data, energies, rows, k, r),
        Some((layer, role)) => {
            if data.len() != rows * k {
                after == before && r == Err::<Permuted<T>, _>(StrategyError::ShapeMismatch)
            } else if role == AttentionRole::Output {
                after == before && (r matches Ok((out, None)) && out@ == data)
            } else if before.contains_key(layer) && before[layer].len() != k {
                after == before && r == Err::<Permuted<T>, _>(StrategyError::SharedLengthMismatch)
            } else if !before.contains_key(layer) && energies.len() != k {
                after == before && r == Err::<Permuted<T>, _>(StrategyError::EnergyCountMismatch)
            } else {
                r matches Ok((out, Some(perm))) && is_resolution(
                    before,
                    layer,
                    energies,
                    perm@,
                    after,
                ) && out@ == permute_columns(data, k, perm@)
            }
        },
    }
}

/// Shares one permutation among the query, key and value projections of each layer.
pub struct AttentionAwareStrategy {
    cache: LayerPermCache,
}

impl AttentionAwareStrategy {
    /// A strategy that has seen no layer yet.
    pub fn new() -> (s: Self)
        ensures
            s.shared() == Map::<u32, Seq<usize>>::empty(),
    {
        Self { cache: LayerPermCache::new() }
    }

    /// The permutations that the layers seen so far share.
    pub closed spec fn shared(&self) -> Map<u32, Seq<usize>> {
        self.cache@
    }

    /// The permutation shared by `layer_id`, if the layer has been seen.
    pub fn shared_permutation(&self, layer_id: u32) -> (held: Option<Vec<usize>>)
        ensures
            held is Some <==> self.shared().contains_key(layer_id),
            held matches Some(p) ==> p@ == self.shared()[layer_id] && is_permutation(p@),
    {
        self.cache.lookup(layer_id)
    }

    /// Reads the layer and the projection out of a tensor's name; `None` for a tensor that
    /// is no attention projection.
    pub fn parse_attention_proj(name: &str) -> (target: Option<(u32, AttentionRole)>)
        ensures
            target == attention_target(regex_captures(ATTENTION_PATTERN@, name@)),
    {
        let groups = capture_groups(ATTENTION_PATTERN, name);
        classify_captures(&groups)
    }

    /// Whether `apply_to_target` reads the energies for this target: it does unless the
    /// tensor is an output projection or its layer's permutation is already shared.
    pub fn reads_energies(&self, target: Option<(u32, AttentionRole)>) -> (reads: bool)
        ensures
            reads == match target {
                None => true,
                Some((layer, role)) => role != AttentionRole::Output
                    && !self.shared().contains_key(layer),
            },
    {
        match target {
            None => true,
            Some((layer, role)) => {
                match role {
                    AttentionRole::Output => false,
                    _ => self.cache.lookup(layer).is_none(),
                }
            },
        }
    }

    /// Applies the strategy to a tensor whose name has been read already.
    pub fn apply_to_target<T: Copy>(
        &mut self,
        target: Option<(u32, AttentionRole)>,
        data: &[T],
        energies: &[u32],
        rows: usize,
        k: usize,
    ) -> (r: Result<Permuted<T>, StrategyError>)
        ensures
            is_attention_outcome(
                old(self).shared(),
                target,
                data@,
                energies@,
                rows as nat,
                k as nat,
                r,
                final(self).shared(),
            ),
            is_sound_result(data@, rows as nat, k as nat, r),
    {
        let (layer, role) = match target {
            None => {
                return order_by_energy(data, energies, rows, k);
            },
            Some(t) => t,
        };
        let len = data.len();
        match rows.checked_mul(k) {
            Some(total) => {
                if len != total {
                    return Err(StrategyError::ShapeMismatch);
                }
            },
            None => {
                return Err(StrategyError::ShapeMismatch);
            },
        }
        match role {
            AttentionRole::Output => {
                return Ok((slice_to_vec(data), None));
            },
            _ => {},
        }
        let perm = match self.cache.lookup(layer) {
            Some(p) => {
                if p.len() != k {
                    return Err(StrategyError::SharedLengthMismatch);
                }
                p
            },
            None => {
                if energies.len() != k {
                    return Err(StrategyError::EnergyCountMismatch);
                }
                self.cache.get_or_compute(layer, energies)
            },
        };
        match apply_column_permutation(rows, k, data, perm.as_slice()) {
            Ok(out) => Ok((out, Some(perm))),
            Err(_) => Err(StrategyError::ShapeMismatch),
        }
    }
}

impl QuantizationStrategy for AttentionAwareStrategy {
    fn apply_permutation<T: Copy>(
        &mut self,
        data: &[T],
        energies: &[u32],
        rows: usize,
        k: usize,
        tensor_name: &str,
    ) -> (r: Result<Permuted<T>, StrategyError>)
        ensures
            is_attention_outcome(
                old(self).shared(),
                attention_target(regex_captures(ATTENTION_PATTERN@, tensor_name@)),
                data@,
                energies@,
                rows as nat,
                k as nat,
                r,
                final(self).shared(),
            ),
    {
        let target = Self::parse_attention_proj(tensor_name);
        self.apply_to_target(target, data, energies, rows, k)
    }

    fn name(&self) -> (n: &'static str)
        ensures
            n@ == "AttentionAware"@,
    {
        "AttentionAware"
    }
}

} // verus!
