use palmera::base64url::{decode, encode};

#[test]
fn encodes_the_standard_vectors() {
    assert_eq!(encode(b""), "");
    assert_eq!(encode(b"f"), "Zg");
    assert_eq!(encode(b"fo"), "Zm8");
    assert_eq!(encode(b"foo"), "Zm9v");
    assert_eq!(encode(b"foob"), "Zm9vYg");
    assert_eq!(encode(b"fooba"), "Zm9vYmE");
    assert_eq!(encode(b"foobar"), "Zm9vYmFy");
}

#[test]
fn uses_the_url_safe_alphabet() {
    assert_eq!(encode(&[0xfb, 0xff, 0xfe]), "-__-");
    assert_eq!(encode(&[0xff, 0xff]), "__8");
    assert_eq!(decode("-__-"), Some(vec![0xfb, 0xff, 0xfe]));
    assert_eq!(decode("+//+"), None);
}

#[test]
fn decodes_the_standard_vectors() {
    assert_eq!(decode(""), Some(vec![]));
    assert_eq!(decode("Zg"), Some(b"f".to_vec()));
    assert_eq!(decode("Zm8"), Some(b"fo".to_vec()));
    assert_eq!(decode("Zm9v"), Some(b"foo".to_vec()));
    assert_eq!(decode("Zm9vYmFy"), Some(b"foobar".to_vec()));
}

#[test]
fn refuses_what_is_no_encoding() {
    assert_eq!(decode("Z"), None);
    assert_eq!(decode("Zm9vY"), None);
    assert_eq!(decode("Zg=="), None);
    assert_eq!(decode("Z g"), None);
    assert_eq!(decode("Zh"), None);
    assert_eq!(decode("Zm9"), None);
    assert_eq!(decode("Zé"), None);
}

#[test]
fn every_byte_string_comes_back() {
    let mut data: Vec<u8> = Vec::new();
    for n in 0..=300usize {
        assert_eq!(decode(&encode(&data)), Some(data.clone()), "length {}", n);
        data.push((n * 37 % 256) as u8);
    }
    let all: Vec<u8> = (0..=255u8).collect();
    assert_eq!(decode(&encode(&all)), Some(all));
}
