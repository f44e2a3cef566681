use jxl_zipper::fingerprint::{fingerprint, u64_to_be_bytes, worklist_file_name};

#[test]
fn fingerprint_is_the_xxh3_digest_of_the_whole_input() {
    let data = b"first image bytes";
    assert_eq!(fingerprint(data), xxhash_rust::xxh3::xxh3_64(data));
    assert_eq!(fingerprint(b""), 0x2D06800538D394C2);
}

#[test]
fn fingerprint_tells_apart_inputs_that_differ_late() {
    let mut a = vec![7u8; 4096];
    let b = a.clone();
    a[4095] = 8;
    assert_ne!(fingerprint(&a), fingerprint(&b));
    assert_eq!(fingerprint(&b), fingerprint(&b.clone()));
}

#[test]
fn be_bytes_put_the_most_significant_byte_first() {
    assert_eq!(u64_to_be_bytes(0x0102030405060708), vec![1, 2, 3, 4, 5, 6, 7, 8]);
    assert_eq!(u64_to_be_bytes(0), vec![0; 8]);
    assert_eq!(u64_to_be_bytes(u64::MAX), vec![255; 8]);
}

#[test]
fn worklist_file_name_is_the_hex_digest_of_the_root() {
    let root = "/photos/2019";
    let expected = format!("{:016x}.bin", xxhash_rust::xxh3::xxh3_64(root.as_bytes()));
    let name = worklist_file_name(root);
    assert_eq!(name, expected);
    assert_eq!(name.len(), 20);
    assert_ne!(name, worklist_file_name("/photos/2020"));
}
