use kff::BytesReader;
use kff::Header;

const VALID: &[u8] = &[
    b'K', b'F', b'F', 1, 0, 0b00101110, 1, 0, 0, 0, 0, 4, b't', b'e', b's', b't',
];

const BAD_MAGIC_NUMBER: &[u8] = b"KKF";

#[test]
fn new() {
    assert!(Header::new(1, 0, 0b00101110, true, false, b"test".to_vec()).is_ok());

    assert!(Header::new(2, 0, 0b00101110, true, false, b"test".to_vec()).is_err());
    assert!(Header::new(1, 1, 0b00101110, true, false, b"test".to_vec()).is_err());
    assert!(Header::new(1, 0, 0b11111111, true, false, b"test".to_vec()).is_err());
}

#[test]
fn read() {
    let mut reader = BytesReader::new(VALID.to_vec());

    assert!(Header::read(&mut reader).is_ok());

    let mut reader = BytesReader::new(BAD_MAGIC_NUMBER.to_vec());

    assert!(Header::read(&mut reader).is_err());
}
