//! Memory of least-favorable critical values.

use crate::number::Real;
use once_map::{OnceMap, RandomState};
use vstd::prelude::*;

verus! {

/// The map of the once_map crate, opaque to the proofs.
#[verifier::external_type_specification]
#[verifier::external_body]
#[verifier::reject_recursive_types(K)]
#[verifier::reject_recursive_types(V)]
#[verifier::reject_recursive_types(S)]
pub struct ExOnceMap<K, V, S>(OnceMap<K, V, S>);

/// The hasher of the once_map crate, opaque to the proofs.
#[verifier::external_type_specification]
#[verifier::external_body]
pub struct ExRandomState(RandomState);

/// The entries of a map, each a critical value by its bits or the reason why
/// it could not be computed.
pub uninterp spec fn stored_values(
    map: OnceMap<u64, Result<u64, String>, RandomState>,
) -> Map<u64, Result<u64, String>>;

/// `OnceMap::new`: the new map holds nothing.
#[verifier::external_body]
fn new_once_map() -> (map: OnceMap<u64, Result<u64, String>, RandomState>)
    ensures
        forall|key: u64| !stored_values(map).contains_key(key),
{
    OnceMap::new()
}

/// `OnceMap::insert_cloned`: a value that is stored under the key is returned
/// and nothing changes; otherwise the function is called on the key, and what
/// it returns is stored under the key and returned.
#[verifier::external_body]
fn insert_cloned<F: FnOnce(&u64) -> Result<u64, String>>(
    map: &mut OnceMap<u64, Result<u64, String>, RandomState>,
    key: u64,
    make_val: F,
) -> (value: Result<u64, String>)
    requires
        call_requires(make_val, (&key,)),
    ensures
        stored_values(*old(map)).contains_key(key) ==> value == stored_values(*old(map))[key]
            && stored_values(*final(map)) == stored_values(*old(map)),
        !stored_values(*old(map)).contains_key(key) ==> call_ensures(make_val, (&key,), value)
            && stored_values(*final(map)) == stored_values(*old(map)).insert(key, value),
{
    map.insert_cloned(key, make_val)
}

/// Critical values by the size they were computed for.
pub struct CriticalValueCache {
    map: OnceMap<u64, Result<u64, String>, RandomState>,
}

/// A stored value as a number.
pub open spec fn as_real(value: Result<u64, String>) -> Result<Real, String> {
    match value {
        Ok(bits) => Ok(Real { bits }),
        Err(message) => Err(message),
    }
}

impl CriticalValueCache {
    /// The remembered values by the bits of their size.
    pub closed spec fn view(&self) -> Map<u64, Result<u64, String>> {
        stored_values(self.map)
    }

    /// A memory of nothing.
    pub fn new() -> (cache: Self)
        ensures
            forall|key: u64| !cache@.contains_key(key),
    {
        CriticalValueCache { map: new_once_map() }
    }

    /// The critical value for a size, computed on the first request for it.
    pub fn least_favorable_cv<F: FnOnce() -> Result<Real, String>>(
        &mut self,
        hybrid_kappa: Real,
        compute: F,
    ) -> (cv: Result<Real, String>)
        requires
            call_requires(compute, ()),
        ensures
            final(self)@.contains_key(hybrid_kappa.cache_key_spec()),
            cv == as_real(final(self)@[hybrid_kappa.cache_key_spec()]),
            old(self)@.contains_key(hybrid_kappa.cache_key_spec()) ==> final(self)@ == old(self)@,
            !old(self)@.contains_key(hybrid_kappa.cache_key_spec()) ==> call_ensures(
                compute,
                (),
                cv,
            ) && final(self)@ == old(self)@.insert(
                hybrid_kappa.cache_key_spec(),
                final(self)@[hybrid_kappa.cache_key_spec()],
            ),
    {
        let key: u64 = hybrid_kappa.cache_key();
        let make_val = |_size: &u64| -> (made: Result<u64, String>)
            requires
                call_requires(compute, ()),
            ensures
                call_ensures(compute, (), as_real(made)),
            {
                match compute() {
                    Ok(cv) => Ok(cv.bits),
                    Err(message) => Err(message),
                }
            };
        let value = insert_cloned(&mut self.map, key, make_val);
        match value {
            Ok(bits) => Ok(Real { bits }),
            Err(message) => Err(message),
        }
    }
}

/// Both zeros and equal numbers ask for the same critical value: a second
/// request for a size of the same value finds what the first one stored.
pub proof fn equal_sizes_share_a_critical_value(
    cache: CriticalValueCache,
    first: Real,
    second: Real,
)
    requires
        first.same_value(second),
    ensures
        cache@.contains_key(first.cache_key_spec()) == cache@.contains_key(
            second.cache_key_spec(),
        ),
        cache@[first.cache_key_spec()] == cache@[second.cache_key_spec()],
{
    crate::number::equal_values_share_a_cache_key(first, second);
}

} // verus!
