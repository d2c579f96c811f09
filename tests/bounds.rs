use pallet_template::{bound, BoundedBytes, Books, BookMetadata, Config, Error, Pallet};

fn pallet() -> Pallet {
    Pallet::new(Config { max_length: 10 })
}

#[test]
fn key_of_exactly_max_length_is_accepted() {
    let mut p = pallet();
    assert_eq!(p.create_book(1, b"abcdefghij".to_vec(), b"t".to_vec(), b"d".to_vec()), Ok(()));
    assert!(p.get_book(b"abcdefghij").is_some());
    assert_eq!(p.remove_book(1, b"abcdefghij".to_vec()), Ok(()));
}

#[test]
fn key_one_past_max_length_is_too_long() {
    let mut p = pallet();
    assert_eq!(p.create_book(1, b"abcdefghijk".to_vec(), b"t".to_vec(), b"d".to_vec()), Err(Error::TooLong));
    assert_eq!(p.remove_book(1, b"abcdefghijk".to_vec()), Err(Error::TooLong));
    assert!(p.events().is_empty());
}

#[test]
fn long_title_or_description_is_too_long() {
    let mut p = pallet();
    assert_eq!(p.create_book(1, b"k".to_vec(), vec![7u8; 11], b"d".to_vec()), Err(Error::TooLong));
    assert_eq!(p.create_book(1, b"k".to_vec(), b"t".to_vec(), vec![7u8; 11]), Err(Error::TooLong));
    assert!(p.get_book(b"k").is_none());
    assert_eq!(p.create_book(1, b"k".to_vec(), vec![7u8; 10], vec![8u8; 10]), Ok(()));
}

#[test]
fn too_long_takes_precedence_over_taken_key() {
    let mut p = pallet();
    p.create_book(1, b"k".to_vec(), b"t".to_vec(), b"d".to_vec()).unwrap();
    assert_eq!(p.create_book(2, b"k".to_vec(), vec![0u8; 11], b"d".to_vec()), Err(Error::TooLong));
}

#[test]
fn create_twice_then_remove_twice() {
    let mut p = pallet();
    assert_eq!(p.create_book(1, b"k".to_vec(), b"t".to_vec(), b"d".to_vec()), Ok(()));
    assert_eq!(p.create_book(1, b"k".to_vec(), b"t".to_vec(), b"d".to_vec()), Err(Error::BookIdAlreadyExists));
    assert_eq!(p.remove_book(1, b"k".to_vec()), Ok(()));
    assert_eq!(p.remove_book(1, b"k".to_vec()), Err(Error::BookNotFound));
    assert_eq!(p.create_book(1, b"k".to_vec(), b"t2".to_vec(), b"d2".to_vec()), Ok(()));
    let b = p.get_book(b"k").unwrap();
    assert_eq!(b.title.to_vec(), b"t2".to_vec());
    assert_eq!(b.description.to_vec(), b"d2".to_vec());
}

#[test]
fn any_caller_may_remove_any_record() {
    let mut p = pallet();
    p.create_book(1, b"k".to_vec(), b"t".to_vec(), b"d".to_vec()).unwrap();
    assert_eq!(p.remove_book(2, b"k".to_vec()), Ok(()));
}

#[test]
fn keys_are_independent() {
    let mut p = pallet();
    p.create_book(1, b"a".to_vec(), b"ta".to_vec(), b"da".to_vec()).unwrap();
    p.create_book(1, b"b".to_vec(), b"tb".to_vec(), b"db".to_vec()).unwrap();
    p.create_book(1, b"c".to_vec(), b"tc".to_vec(), b"dc".to_vec()).unwrap();
    p.remove_book(1, b"b".to_vec()).unwrap();
    assert_eq!(p.get_book(b"a").unwrap().title.to_vec(), b"ta".to_vec());
    assert!(p.get_book(b"b").is_none());
    assert_eq!(p.get_book(b"c").unwrap().description.to_vec(), b"dc".to_vec());
    assert_eq!(p.config().max_length, 10);
}

#[test]
fn bound_accepts_up_to_max_and_keeps_bytes() {
    let b = bound(b"abc".to_vec(), 3).unwrap();
    assert_eq!(b.as_slice(), b"abc");
    assert_eq!(b.len(), 3);
    assert_eq!(b.max_len(), 3);
    assert_eq!(bound(b"abcd".to_vec(), 3).unwrap_err(), Error::TooLong);
    assert_eq!(bound(Vec::new(), 0).unwrap().len(), 0);
}

#[test]
fn try_from_vec_hands_back_long_input() {
    let v = BoundedBytes::try_from_vec(b"hello".to_vec(), 4).unwrap_err();
    assert_eq!(v, b"hello".to_vec());
    let b = BoundedBytes::try_from_vec(b"hi".to_vec(), 4).unwrap();
    assert!(b.eq_bytes(b"hi"));
    assert!(!b.eq_bytes(b"ho"));
    assert!(!b.eq_bytes(b"h"));
    assert_eq!(b.clone(), b);
}

#[test]
fn books_insert_overwrites_and_remove_is_unconditional() {
    let mut s = Books::new();
    let key = bound(b"k".to_vec(), 4).unwrap();
    let first = BookMetadata { title: bound(b"t1".to_vec(), 4).unwrap(), description: bound(b"d1".to_vec(), 4).unwrap() };
    let second = BookMetadata { title: bound(b"t2".to_vec(), 4).unwrap(), description: bound(b"d2".to_vec(), 4).unwrap() };
    s.insert(key.clone(), first);
    s.insert(key, second.clone());
    assert!(s.contains_key(b"k"));
    assert_eq!(s.get(b"k"), Some(&second));
    s.remove(b"missing");
    assert!(s.contains_key(b"k"));
    s.remove(b"k");
    assert!(!s.contains_key(b"k"));
    assert_eq!(s.get(b"k"), None);
}
