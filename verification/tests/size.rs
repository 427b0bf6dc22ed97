#[test]
fn archive_size() {
    assert_eq!(
        zipit::archive_size(&[
            ("file1.txt", b"hello\n".len()),
            ("file2.txt", b"world\n".len()),
        ]),
        254,
    );
    assert_eq!(
        zipit::archive_size(&[
            ("file1.txt", b"hello\n".len()),
            ("file2.txt", b"world\n".len()),
            ("file3.txt", b"how are you?\n".len()),
        ]),
        377,
    );
}

#[test]
fn archive_size_of_nothing_is_the_end_record() {
    assert_eq!(zipit::archive_size(&[]), 22);
}

#[test]
fn archive_size_counts_the_name_twice() {
    // 30 + 1 + 0 + 16 + 46 + 1 + 22
    assert_eq!(zipit::archive_size(&[("a", 0)]), 116);
    // 30 + 5 + 1000 + 16 + 46 + 5 + 22
    assert_eq!(zipit::archive_size(&[("a.txt", 1000)]), 1124);
}

#[test]
fn archive_size_counts_bytes_not_characters() {
    // "é" takes two bytes, "日本" six.
    assert_eq!(zipit::archive_size(&[("é", 0)]), 22 + 92 + 4);
    assert_eq!(zipit::archive_size(&[("日本", 10)]), 22 + 92 + 12 + 10);
}

#[test]
fn archive_size_does_not_depend_on_the_order() {
    let a = [("one", 1usize), ("three", 333), ("two", 22), ("one", 1)];
    let b = [("two", 22usize), ("one", 1), ("one", 1), ("three", 333)];
    let c = [("one", 1usize), ("one", 1), ("three", 333), ("two", 22)];
    assert_eq!(zipit::archive_size(&a), zipit::archive_size(&b));
    assert_eq!(zipit::archive_size(&a), zipit::archive_size(&c));
    assert_eq!(zipit::archive_size(&a), 22 + 4 * 92 + 2 * (3 + 5 + 3 + 3) + 1 + 333 + 22 + 1);
}

#[test]
fn archive_size_is_the_same_at_every_call() {
    let files = [("file1.txt", 6usize), ("file2.txt", 6)];
    let first = zipit::archive_size(&files);
    for _ in 0..10 {
        assert_eq!(zipit::archive_size(&files), first);
    }
}

#[test]
fn archive_size_wraps_around() {
    // One payload of usize::MAX bytes: the sum is 22 + 92 + 2 over the range.
    assert_eq!(zipit::archive_size(&[("a", usize::MAX)]), 22 + 92 + 2 - 1);
    assert_eq!(zipit::archive_size(&[("", usize::MAX - 113)]), 0);
    assert_eq!(zipit::archive_size(&[("", usize::MAX - 114)]), usize::MAX);
}
