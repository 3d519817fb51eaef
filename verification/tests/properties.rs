use kff::BytesReader;
use kff::BytesWriter;
use kff::Header;
use kff::Kff;
use kff::KffWrite;
use kff::MagicLocation;

const VALID: &[u8] = &[
    b'K', b'F', b'F', 1, 0, 0b00101110, 1, 0, 0, 0, 0, 4, b't', b'e', b's', b't',
];

fn encode(header: &Header) -> Vec<u8> {
    let mut writer = BytesWriter::new();
    header.write(&mut writer).unwrap();
    writer.into_vec()
}

fn decode(bytes: Vec<u8>) -> Result<Header, Kff> {
    let mut reader = BytesReader::new(bytes);
    Header::read(&mut reader)
}

#[test]
fn round_trip() {
    let header = Header::new(1, 0, 0b00101110, true, false, b"test".to_vec()).unwrap();
    let bytes = encode(&header);
    assert_eq!(bytes, VALID.to_vec());

    let back = decode(bytes).unwrap();
    assert_eq!(back.major_version(), 1);
    assert_eq!(back.minor_version(), 0);
    assert_eq!(back.encoding(), 0b00101110);
    assert!(back.uniq_kmer());
    assert!(!back.canonical_kmer());
    assert_eq!(back.free_block(), &b"test".to_vec());
}

#[test]
fn round_trip_other_fields() {
    let header = Header::new(0, 0, 0b00011011, false, true, vec![9, 8, 7]).unwrap();
    let back = decode(encode(&header)).unwrap();
    assert_eq!(back.major_version(), 0);
    assert_eq!(back.minor_version(), 0);
    assert_eq!(back.encoding(), 0b00011011);
    assert!(!back.uniq_kmer());
    assert!(back.canonical_kmer());
    assert_eq!(back.free_block(), &vec![9, 8, 7]);
}

#[test]
fn magic_rejection() {
    let mut bytes = VALID.to_vec();
    bytes[0] = b'X';
    assert_eq!(
        decode(bytes).err(),
        Some(Kff::MissingMagic(MagicLocation::Start))
    );

    let mut bytes = VALID.to_vec();
    bytes[2] = b'f';
    assert_eq!(
        decode(bytes).err(),
        Some(Kff::MissingMagic(MagicLocation::Start))
    );

    assert_eq!(
        decode(b"ABC".to_vec()).err(),
        Some(Kff::MissingMagic(MagicLocation::Start))
    );
}

#[test]
fn version_gate() {
    assert_eq!(
        Header::new(2, 0, 0b00101110, true, false, b"test".to_vec()).err(),
        Some(Kff::HighMajorVersionNumber(2))
    );
    assert_eq!(
        Header::new(1, 1, 0b00101110, true, false, b"test".to_vec()).err(),
        Some(Kff::HighMinorVersionNumber(1))
    );
    assert!(Header::new(1, 0, 0b00101110, true, false, b"test".to_vec()).is_ok());

    let mut bytes = VALID.to_vec();
    bytes[3] = 2;
    assert_eq!(decode(bytes).err(), Some(Kff::HighMajorVersionNumber(2)));

    let mut bytes = VALID.to_vec();
    bytes[4] = 1;
    assert_eq!(decode(bytes).err(), Some(Kff::HighMinorVersionNumber(1)));
}

#[test]
fn encoding_distinctness() {
    assert_eq!(
        Header::new(1, 0, 0b00000000, true, false, Vec::new()).err(),
        Some(Kff::BadEncoding(0b00000000))
    );
    assert!(Header::new(1, 0, 0b00101110, true, false, Vec::new()).is_ok());

    let mut bytes = VALID.to_vec();
    bytes[5] = 0b00000000;
    assert_eq!(decode(bytes).err(), Some(Kff::BadEncoding(0b00000000)));
}

#[test]
fn free_block_fidelity() {
    for n in [0usize, 1, 255, 65536] {
        let block: Vec<u8> = (0..n).map(|i| (i % 251) as u8).collect();
        let header = Header::new(1, 0, 0b00101110, false, false, block.clone()).unwrap();
        let back = decode(encode(&header)).unwrap();
        assert_eq!(back.free_block().len(), n);
        assert_eq!(back.free_block(), &block);
    }
}

#[test]
fn truncation() {
    for n in 0..12 {
        let bytes = VALID[..n].to_vec();
        assert_eq!(decode(bytes).err(), Some(Kff::Truncated));
    }

    // A free-block length prefix that promises more bytes than the stream has.
    let bytes = VALID[..13].to_vec();
    assert_eq!(decode(bytes).err(), Some(Kff::Truncated));
}

#[test]
fn concrete_scenario() {
    let bytes = vec![
        b'K', b'F', b'F', 0x01, 0x00, 0x2E, 0x01, 0x00, 0x00, 0x00, 0x00, 0x04, b't', b'e',
        b's', b't',
    ];
    let header = decode(bytes).unwrap();
    assert_eq!(header.major_version(), 1);
    assert_eq!(header.minor_version(), 0);
    assert_eq!(header.encoding(), 0b00101110);
    assert!(header.uniq_kmer());
    assert!(!header.canonical_kmer());
    assert_eq!(header.free_block(), &b"test".to_vec());

    let mut bytes = VALID.to_vec();
    bytes[0] = b'X';
    assert_eq!(
        decode(bytes).err(),
        Some(Kff::MissingMagic(MagicLocation::Start))
    );
}

#[test]
fn decode_leaves_trailing_bytes() {
    let mut bytes = VALID.to_vec();
    bytes.extend_from_slice(b"rest of the file");
    let mut reader = BytesReader::new(bytes);
    let header = Header::read(&mut reader).unwrap();
    assert_eq!(header.free_block(), &b"test".to_vec());
    assert_eq!(reader.stream_position(), VALID.len());
}

#[test]
fn shared_second_and_fourth_code_is_accepted() {
    // 0b00101110 assigns the codes 0, 2, 3, 2: the second and fourth symbol
    // share a code, and the five checked pairs all differ.
    assert!(Header::new(1, 0, 0b00101110, false, false, Vec::new()).is_ok());
    // 0b00101100 assigns 0, 2, 3, 0: the first and fourth share a code,
    // which is one of the checked pairs.
    assert_eq!(
        Header::new(1, 0, 0b00101100, false, false, Vec::new()).err(),
        Some(Kff::BadEncoding(0b00101100))
    );
}
