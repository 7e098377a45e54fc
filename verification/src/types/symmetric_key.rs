//! Unordered pairs, usable as keys.

use vstd::prelude::*;
use vstd::std_specs::cmp::{OrdSpec, PartialEqSpec, PartialOrdSpec};
use core::cmp::Ordering;
use std::hash::{Hash, Hasher};

verus! {

/// A pair whose order does not matter: `(a, b)` equals `(b, a)`.
#[derive(Debug, Clone, Copy)]
pub struct SymmetricKey<T>(pub T, pub T);

impl<T: Eq> PartialEq for SymmetricKey<T> {
    fn eq(&self, other: &Self) -> (r: bool) {
        (self.0 == other.0 && self.1 == other.1) || (self.0 == other.1 && self.1 == other.0)
    }
}

impl<T: Eq> Eq for SymmetricKey<T> {

}

impl<T: Eq> vstd::std_specs::cmp::PartialEqSpecImpl for SymmetricKey<T> {
    open spec fn obeys_eq_spec() -> bool {
        T::obeys_eq_spec()
    }

    open spec fn eq_spec(&self, other: &Self) -> bool {
        ||| self.0.eq_spec(&other.0) && self.1.eq_spec(&other.1)
        ||| self.0.eq_spec(&other.1) && self.1.eq_spec(&other.0)
    }
}

/// The order in which a key's components are fed to a hasher: the smaller
/// first.
pub open spec fn hash_order<T: Ord>(k: SymmetricKey<T>) -> (T, T) {
    if k.0.partial_cmp_spec(&k.1) == Some(Ordering::Less) {
        (k.0, k.1)
    } else {
        (k.1, k.0)
    }
}

impl<T: Ord> SymmetricKey<T> {
    /// The components, the smaller first.
    pub fn hash_parts(&self) -> (r: (&T, &T))
        ensures
            T::obeys_partial_cmp_spec() ==> (*r.0, *r.1) == hash_order(*self),
    {
        if self.0 < self.1 {
            (&self.0, &self.1)
        } else {
            (&self.1, &self.0)
        }
    }
}

/// `Hash::hash` of one value into `state`; what it writes depends on the
/// value's own `Hash` implementation, so this item states nothing of it.
#[verifier::external_body]
fn feed<T: Hash, H: Hasher>(value: &T, state: &mut H) {
    value.hash(state)
}

impl<T: Hash + Ord> Hash for SymmetricKey<T> {
    /// Hashes the smaller component, then the larger one.
    fn hash<H: Hasher>(&self, state: &mut H) {
        let (min, max) = self.hash_parts();
        feed(min, state);
        feed(max, state);
    }
}

/// Swapping the components of a key does not change what it equals.
pub proof fn lemma_swap_equal<T: Eq>(k: SymmetricKey<T>, other: SymmetricKey<T>)
    ensures
        k.eq_spec(&other) == SymmetricKey(k.1, k.0).eq_spec(&other),
{
}

/// Equality of keys is symmetric when equality of components is.
pub proof fn lemma_eq_symmetric<T: Eq>(x: SymmetricKey<T>, y: SymmetricKey<T>)
    requires
        vstd::laws_eq::obeys_eq_spec_properties::<T>(),
    ensures
        x.eq_spec(&y) == y.eq_spec(&x),
{
    reveal(vstd::laws_eq::obeys_eq_spec_properties);
}

/// Equal keys feed a hasher the same components in the same order, when
/// the components have a total order and equality means identity.
pub proof fn lemma_equal_keys_hash_alike<T: Ord>(x: SymmetricKey<T>, y: SymmetricKey<T>)
    requires
        vstd::laws_cmp::obeys_cmp::<T>(),
        vstd::laws_eq::obeys_concrete_eq::<T>(),
        x.eq_spec(&y),
    ensures
        hash_order(x) == hash_order(y),
{
    reveal(vstd::laws_eq::obeys_concrete_eq);
    reveal(vstd::laws_cmp::obeys_cmp_ord);
    reveal(vstd::laws_cmp::obeys_partial_cmp_spec_properties);
    reveal(vstd::laws_cmp::obeys_cmp_partial_ord);
    assert(x.0.partial_cmp_spec(&x.1) == Some(x.0.cmp_spec(&x.1)));
    assert(x.1.partial_cmp_spec(&x.0) == Some(x.1.cmp_spec(&x.0)));
}

/// The two components of a key, counted with multiplicity.
pub open spec fn components<T>(k: SymmetricKey<T>) -> vstd::multiset::Multiset<T> {
    vstd::multiset::Multiset::empty().insert(k.0).insert(k.1)
}

/// When equality of components is identity, two keys are equal exactly
/// when they hold the same two components, counted with multiplicity, in
/// either order.
pub proof fn lemma_eq_same_components<T: Eq>(a: T, b: T, c: T, d: T)
    requires
        vstd::laws_eq::obeys_concrete_eq::<T>(),
    ensures
        SymmetricKey(a, b).eq_spec(&SymmetricKey(c, d)) <==> components(SymmetricKey(a, b))
            == components(SymmetricKey(c, d)),
{
    reveal(vstd::laws_eq::obeys_concrete_eq);
    broadcast use vstd::multiset::group_multiset_axioms;

    let l = components(SymmetricKey(a, b));
    let r = components(SymmetricKey(c, d));
    if l =~= r {
        assert(l.count(a) == r.count(a));
        assert(l.count(b) == r.count(b));
        assert(l.count(c) == r.count(c));
    }
    if SymmetricKey(a, b).eq_spec(&SymmetricKey(c, d)) {
        if a == c && b == d {
        } else {
            assert(a == d && b == c);
            assert(l =~= r);
        }
    }
}

/// When equality of components is identity, every key equals itself and
/// its components swapped.
pub proof fn lemma_eq_reflexive<T: Eq>(x: SymmetricKey<T>)
    requires
        vstd::laws_eq::obeys_concrete_eq::<T>(),
    ensures
        x.eq_spec(&x),
        x.eq_spec(&SymmetricKey(x.1, x.0)),
{
    reveal(vstd::laws_eq::obeys_concrete_eq);
}

/// Equality of keys is transitive when equality of components is
/// symmetric and transitive.
pub proof fn lemma_eq_transitive<T: Eq>(x: SymmetricKey<T>, y: SymmetricKey<T>, z: SymmetricKey<T>)
    requires
        vstd::laws_eq::obeys_eq_spec_properties::<T>(),
        x.eq_spec(&y),
        y.eq_spec(&z),
    ensures
        x.eq_spec(&z),
{
    reveal(vstd::laws_eq::obeys_eq_spec_properties);
}

} // verus!
