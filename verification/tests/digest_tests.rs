use wasm_central::digest::{checksum_of, hex_of};

#[test]
fn hex_encodes_bytes_low_nibble_first_last() {
    assert_eq!(hex_of(&vec![]), "");
    assert_eq!(hex_of(&vec![0x00]), "00");
    assert_eq!(hex_of(&vec![0x0f]), "0f");
    assert_eq!(hex_of(&vec![0xab, 0xcd, 0x01]), "abcd01");
    assert_eq!(hex_of(&vec![0xff]), "ff");
}

#[test]
fn checksum_of_empty_input_is_the_sha256_of_nothing() {
    assert_eq!(
        checksum_of(&vec![]),
        "e3b0c44298fc1c149afbf4c8996fb92427ae41e4649b934ca495991b7852b855"
    );
}

#[test]
fn checksum_of_abc_matches_the_published_vector() {
    assert_eq!(
        checksum_of(&vec![0x61, 0x62, 0x63]),
        "ba7816bf8f01cfea414140de5dae2223b00361a396177a9cb410ff61f20015ad"
    );
}

#[test]
fn different_bytes_different_checksums() {
    let a = checksum_of(&vec![0x41, 0x42, 0x43]);
    let b = checksum_of(&vec![0x43, 0x42, 0x41]);
    assert_ne!(a, b);
    assert_eq!(a.len(), 64);
    assert_eq!(b.len(), 64);
}
