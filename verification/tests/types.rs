use enem_kdd::types::{Source, SymmetricKey, UniRef};
use std::collections::hash_map::DefaultHasher;
use std::hash::{Hash, Hasher};

#[test]
fn uni_ref_get_mut_by_variant() {
    let mut own: UniRef<u32> = UniRef::Loc(3);
    *own.get_mut().unwrap() = 4;
    assert_eq!(own.get_ref(), Some(&4));

    let mut x = 10u32;
    {
        let mut m = UniRef::Mut(&mut x);
        *m.get_mut().unwrap() += 1;
        assert_eq!(m.get_ref(), Some(&11));
    }
    assert_eq!(x, 11);

    let y = 5u32;
    let mut r = UniRef::Ref(&y);
    assert!(r.get_mut().is_none());
    assert_eq!(r.get_ref(), Some(&5));

    let mut n: UniRef<u32> = UniRef::Int;
    assert!(n.get_mut().is_none());
    assert!(n.get_ref().is_none());
}

#[test]
fn source_clone_and_path() {
    let s = Source::Remote("a/b.csv".to_string(), "https://x/y.zip".to_string());
    match s.clone() {
        Source::Remote(p, u) => {
            assert_eq!(p, "a/b.csv");
            assert_eq!(u, "https://x/y.zip");
        }
        Source::Local(_) => panic!("wrong variant"),
    }
    assert_eq!(s.path(), "a/b.csv");
    assert_eq!(Source::Local("c.csv".to_string()).path(), "c.csv");
}

fn hash_of<T: Hash>(v: &T) -> u64 {
    let mut h = DefaultHasher::new();
    v.hash(&mut h);
    h.finish()
}

#[test]
fn symmetric_key_ignores_order() {
    assert!(SymmetricKey(1, 2) == SymmetricKey(2, 1));
    assert!(SymmetricKey(1, 2) == SymmetricKey(1, 2));
    assert!(SymmetricKey(1, 2) != SymmetricKey(1, 3));
    assert!(SymmetricKey(2, 2) != SymmetricKey(2, 1));
    assert_eq!(hash_of(&SymmetricKey(7, 3)), hash_of(&SymmetricKey(3, 7)));
    assert_eq!(SymmetricKey(9, 4).hash_parts(), (&4, &9));
    assert_eq!(SymmetricKey(4, 9).hash_parts(), (&4, &9));
}

#[test]
fn uni_ref_mut_write_reaches_the_borrowed_value() {
    let mut y = 1u64;
    {
        let mut u = UniRef::Mut(&mut y);
        if let Some(x) = u.get_mut() {
            *x = 42;
        }
    }
    assert_eq!(y, 42);
}

#[test]
fn symmetric_key_equality_is_an_equivalence() {
    let (a, b, c) = (SymmetricKey(1, 2), SymmetricKey(2, 1), SymmetricKey(1, 2));
    assert!(a == a && a == b && b == a && b == c && a == c);
    assert!(SymmetricKey(3, 3) == SymmetricKey(3, 3));
    assert!(SymmetricKey(1, 1) != SymmetricKey(1, 2));
}
