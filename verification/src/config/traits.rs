//! Configuration merging: a local configuration overrides a global one
//! field by field.

use vstd::prelude::*;
use std::collections::HashMap;
use std::hash::Hash;

verus! {

/// Merging for configurations: the other side's set fields win.
pub trait ConfigMerge: Sized {
    /// `other`'s set fields override `self`'s.
    fn merge(&self, other: &Self) -> Self;
}

/// Validation for configurations.
pub trait ConfigValidate {
    /// Checks that the configuration's values are acceptable.
    fn validate(&self) -> Result<(), crate::error::CrawlerError>;
}

impl<T: Clone> ConfigMerge for Option<T> {
    /// The other value when it is set, this one otherwise.
    fn merge(&self, other: &Self) -> Self {
        match other {
            Some(v) => Some(v.clone()),
            None => self.clone(),
        }
    }
}

/// Relies on Iterator::chain and FromIterator for HashMap: the union of the
/// two maps, the overlay's value winning on a shared key.
#[verifier::external_body]
pub(crate) fn hashmap_union<K: Clone + Eq + Hash, V: Clone>(base: &HashMap<K, V>, overlay: &HashMap<K, V>)
    -> (r: HashMap<K, V>)
    ensures
        vstd::std_specs::hash::obeys_key_model::<K>()
            ==> r@ == base@.union_prefer_right(overlay@),
{
    base.iter().chain(overlay.iter()).map(|(k, v)| (k.clone(), v.clone())).collect()
}

impl<K: Clone + Eq + Hash, V: Clone> ConfigMerge for HashMap<K, V> {
    /// The union of the two maps, the other's value winning on a shared
    /// key.
    fn merge(&self, other: &Self) -> Self {
        hashmap_union(self, other)
    }
}

} // verus!
