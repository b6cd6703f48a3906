use forgeiso_engine::digest::{hex_string, Sha256Stream};

#[test]
fn sha256_of_known_inputs() {
    let empty = Sha256Stream::new();
    assert_eq!(
        empty.finish_hex(),
        "e3b0c44298fc1c149afbf4c8996fb92427ae41e4649b934ca495991b7852b855"
    );
    let mut s = Sha256Stream::new();
    s.update(b"abc");
    assert_eq!(
        s.finish_hex(),
        "ba7816bf8f01cfea414140de5dae2223b00361a396177a9cb410ff61f20015ad"
    );
}

#[test]
fn sha256_does_not_depend_on_chunking() {
    let data: Vec<u8> = (0..20000u32).map(|i| (i % 251) as u8).collect();
    let mut whole = Sha256Stream::new();
    whole.update(&data);
    let mut parts = Sha256Stream::new();
    for chunk in data.chunks(8192) {
        parts.update(chunk);
    }
    assert_eq!(whole.finish_hex(), parts.finish_hex());
}

#[test]
fn hex_is_lowercase_two_digits_per_byte() {
    assert_eq!(hex_string(&vec![0x00, 0x0f, 0xa0, 0xff, 0x9c]), "000fa0ff9c");
    assert_eq!(hex_string(&vec![]), "");
}
