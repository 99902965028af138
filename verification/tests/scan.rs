use zipread::search::FastSearch;

#[test]
fn reverse_search() {
    let space: Vec<u8> = vec![0, 1, 2, 3, 4, 5, 6, 7, 6, 9, 5, 6, 7, 8];
    let pat: Vec<u8> = vec![5];

    assert_eq!(Some(10), space.rsearch(&pat))
}

#[test]
fn search() {
    let space: Vec<u8> = vec![0, 1, 2, 3, 4, 5, 6, 7, 6, 9, 5, 6, 7, 8];
    let pat: Vec<u8> = vec![5];

    assert_eq!(Some(5), space.search(&pat))
}

#[test]
fn search_multiple() {
    let space: Vec<u8> = vec![0, 8, 2, 3, 4, 0, 6, 0, 8, 9, 10, 0, 12, 0, 8, 15];
    let pat: Vec<u8> = vec![0, 8];
    let v1 = space.search_all(&pat);
    let v2 = vec![0, 7, 13];

    assert_eq!(v1, v2);
}

#[test]
fn signature_scan_values() {
    let space: Vec<u8> = vec![0, 1, 2, 3, 4, 5, 6, 7, 6, 9, 5, 6, 7, 8];
    let single: Vec<u8> = vec![5];
    assert_eq!(Some(5), space.search(&single));
    assert_eq!(Some(10), space.rsearch(&single));

    let multi_space: Vec<u8> = vec![0, 8, 2, 3, 4, 0, 6, 0, 8, 9, 10, 0, 12, 0, 8, 15];
    let pair: Vec<u8> = vec![0, 8];
    assert_eq!(vec![0, 7, 13], multi_space.search_all(&pair));
}

#[test]
fn degenerate_queries_find_nothing() {
    let space: Vec<u8> = vec![1, 2, 3];
    let empty: Vec<u8> = vec![];
    let long: Vec<u8> = vec![1, 2, 3, 4];
    assert_eq!(None, space.search(&empty));
    assert_eq!(None, space.rsearch(&empty));
    assert!(space.search_all(&empty).is_empty());
    assert_eq!(None, space.search(&long));
    assert_eq!(None, space.rsearch(&long));
    assert!(space.search_all(&long).is_empty());
    let no_space: Vec<u8> = vec![];
    let pat: Vec<u8> = vec![1];
    assert_eq!(None, no_space.search(&pat));
    assert_eq!(None, no_space.rsearch(&pat));
}

#[test]
fn repeated_byte_needles() {
    // needles whose bytes repeat exercise the shift table's bounds
    let space: Vec<u8> = vec![b'b', b'a', b'a'];
    let pat: Vec<u8> = vec![b'a', b'a'];
    assert_eq!(Some(1), space.search(&pat));
    assert_eq!(Some(1), space.rsearch(&pat));

    let space2: Vec<u8> = vec![b'x', b'x', b'a', b'b', b'a', b'a', b'y', b'z'];
    let pat2: Vec<u8> = vec![b'a', b'b', b'a', b'a'];
    assert_eq!(Some(2), space2.search(&pat2));
    assert_eq!(Some(2), space2.rsearch(&pat2));

    let space3: Vec<u8> = vec![b'a', b'a', b'a', b'a', b'a'];
    let pat3: Vec<u8> = vec![b'a', b'a'];
    assert_eq!(vec![0, 2], space3.search_all(&pat3));
}

#[test]
fn free_function_scan() {
    let hay = [10u8, 20, 30, 20, 30, 40];
    assert_eq!(Some(1), zipread::search::search(&hay, &[20, 30]));
    assert_eq!(Some(3), zipread::search::rsearch(&hay, &[20, 30]));
    assert_eq!(vec![1, 3], zipread::search::search_all(&hay, &[20, 30]));
    assert_eq!(None, zipread::search::search(&hay, &[99]));
    assert_eq!(None, zipread::search::rsearch(&hay, &[99]));
}
