use gbcore::sparse_vec::SparseVec;

#[test]
pub fn get_or_next() {
    let mut vec: SparseVec<u16, &'static str> = SparseVec::new();
    vec.insert(1, "a");
    vec.insert(5, "b");
    vec.insert(10, "c");

    vec.cache_keys();

    assert_eq!("a", *(vec.get_or_next(&0).unwrap().unwrap()));
    assert_eq!("a", *(vec.get_or_next(&1).unwrap().unwrap()));
    assert_eq!("b", *(vec.get_or_next(&2).unwrap().unwrap()));
    assert_eq!("b", *(vec.get_or_next(&5).unwrap().unwrap()));
    assert_eq!("c", *(vec.get_or_next(&6).unwrap().unwrap()));
    assert_eq!("c", *(vec.get_or_next(&10).unwrap().unwrap()));
    assert!(vec.get_or_next(&11).unwrap().is_none());
}

#[test]
pub fn iter_keys_ordered() {
    let mut vec: SparseVec<u16, &'static str> = SparseVec::new();
    vec.insert(10, "c");
    vec.insert(1, "a");
    vec.insert(5, "b");

    vec.cache_keys();
    let mut iter = vec.iter_keys_ordered().unwrap().iter();
    assert_eq!(1, *(iter.next().unwrap()));
    assert_eq!(5, *(iter.next().unwrap()));
    assert_eq!(10, *(iter.next().unwrap()));
    assert_eq!(None, iter.next());
}

#[test]
fn get_or_next_needs_cache_for_missing_keys() {
    let mut vec: SparseVec<u16, &'static str> = SparseVec::new();
    assert!(vec.get_or_next(&3).unwrap().is_none());
    vec.insert(4, "x");
    assert_eq!("x", *(vec.get_or_next(&4).unwrap().unwrap()));
    assert!(vec.get_or_next(&3).is_err());
    assert!(vec.iter_keys_ordered().is_err());
    vec.cache_keys();
    assert_eq!("x", *(vec.get_or_next(&3).unwrap().unwrap()));
    vec.insert(2, "y");
    assert!(vec.get_or_next(&3).is_err());
}

#[test]
fn insert_replaces_and_remove_takes() {
    let mut vec: SparseVec<u16, u32> = SparseVec::new();
    vec.insert(7, 1);
    vec.insert(7, 2);
    assert!(vec.contains_key(&7));
    assert!(!vec.contains_key(&8));
    assert_eq!(vec.remove(&7), Some(2));
    assert_eq!(vec.remove(&7), None);
    vec.insert(9, 3);
    vec.clear();
    assert!(!vec.contains_key(&9));
}
