use kff::BytesReader;
use kff::BytesWriter;
use kff::KffRead;
use kff::KffWrite;
use kff::utils::bits2store_k;
use kff::utils::bytes2store_k;
use kff::utils::ceil_to_8;

const LOREM: &[u8] = b"Lorem ipsum dolor\0sit amet, consectetur adipiscing elit.";

#[test]
fn ceil_to_8_() {
    assert_eq!(ceil_to_8(1), 8);
    assert_eq!(ceil_to_8(7), 8);

    assert_eq!(ceil_to_8(8), 8);

    assert_eq!(ceil_to_8(9), 16);
    assert_eq!(ceil_to_8(15), 16);
}

#[test]
fn bits2store_k_() {
    for value in 0..100 {
        assert_eq!(bits2store_k(value), value * 2);
    }
}

#[test]
fn bytes2store_k_() {
    assert_eq!(bytes2store_k(1), 1);
    assert_eq!(bytes2store_k(4), 1);
    assert_eq!(bytes2store_k(5), 2);
    assert_eq!(bytes2store_k(16), 4);
    assert_eq!(bytes2store_k(17), 5);
}

#[test]
fn read_n_bytes() {
    let mut reader = BytesReader::new(LOREM.to_vec());

    let values = reader.read_n_bytes::<11>().unwrap();

    assert_eq!(values, b"Lorem ipsum".to_vec());

    let values = reader.read_n_bytes::<11>().unwrap();

    assert_eq!(values, b" dolor\0sit ".to_vec());

    let values = reader.read_n_bytes::<400>();

    assert!(values.is_err());
}

#[test]
fn read_n_bytes_dyn() {
    let mut reader = BytesReader::new(LOREM.to_vec());

    let values = reader.read_n_bytes_dyn(11).unwrap();

    assert_eq!(values, b"Lorem ipsum".to_vec());

    let values = reader.read_n_bytes_dyn(11).unwrap();

    assert_eq!(values, b" dolor\0sit ".to_vec());

    let values = reader.read_n_bytes_dyn(400);

    assert!(values.is_err());
}

#[test]
fn read_ascii() {
    let mut reader = BytesReader::new(LOREM.to_vec());

    let values = reader.read_ascii().unwrap();

    assert_eq!(values, b"Lorem ipsum dolor".to_vec());

    reader.seek(values.len() + 1); // Move after first \0
    let values = reader.read_ascii().unwrap();

    assert_eq!(values, b"sit amet, consectetur adipiscing elit.".to_vec());

    reader.seek(LOREM.len());
    let values = reader.read_ascii().unwrap();

    assert_eq!(values, b"".to_vec());
}

#[test]
fn read_2bits() {
    let mut reader = BytesReader::new(vec![0b11101110, 0b00010001]);

    let kmer = reader.read_2bits(5).unwrap();

    assert_eq!(kmer, vec![238, 17]);
}

#[test]
fn read_bool() {
    let mut reader = BytesReader::new(LOREM.to_vec());

    assert!(reader.read_bool().unwrap());

    let _ = reader.read_n_bytes::<16>().unwrap();

    assert!(!reader.read_bool().unwrap());
}

#[test]
fn read_u8() {
    let mut reader = BytesReader::new(LOREM.to_vec());

    assert_eq!(reader.read_u8().unwrap(), b'L');
    assert_eq!(reader.read_u8().unwrap(), b'o');
}

#[test]
fn read_u16() {
    let mut reader = BytesReader::new(LOREM.to_vec());

    assert_eq!(reader.read_u16().unwrap(), 19567);
    assert_eq!(reader.read_u16().unwrap(), 29285);
}

#[test]
fn read_u32() {
    let mut reader = BytesReader::new(LOREM.to_vec());

    assert_eq!(reader.read_u32().unwrap(), 1282372197);
    assert_eq!(reader.read_u32().unwrap(), 1830840688);
}

#[test]
fn read_u64() {
    let mut reader = BytesReader::new(LOREM.to_vec());

    assert_eq!(reader.read_u64().unwrap(), 5507746649245510000);
    assert_eq!(reader.read_u64().unwrap(), 8319675872528264303);
}

#[test]
fn write_bytes() {
    let mut writer = BytesWriter::new();

    writer.write_bytes(b"Lorem").unwrap();

    assert_eq!(writer.into_vec(), b"Lorem".to_vec());
}

#[test]
fn write_ascii() {
    let mut writer = BytesWriter::new();

    writer.write_ascii(b"Lorem").unwrap();

    assert_eq!(writer.into_vec(), vec![b'L', b'o', b'r', b'e', b'm', 0]);
}

#[test]
fn write_bool() {
    let mut writer = BytesWriter::new();

    writer.write_bool(&true).unwrap();
    writer.write_bool(&false).unwrap();

    assert_eq!(writer.into_vec(), vec![1, 0]);
}

#[test]
fn write_u8() {
    let mut writer = BytesWriter::new();

    writer.write_u8(&1).unwrap();
    writer.write_u8(&128).unwrap();
    writer.write_u8(&130).unwrap();

    assert_eq!(writer.into_vec(), vec![1, 128, 130]);
}

#[test]
fn write_u16() {
    let mut writer = BytesWriter::new();

    writer.write_u16(&250).unwrap();
    writer.write_u16(&500).unwrap();

    assert_eq!(writer.into_vec(), vec![0, 250, 1, 244]);
}

#[test]
fn write_u32() {
    let mut writer = BytesWriter::new();

    writer.write_u32(&3511).unwrap();
    writer.write_u32(&511110).unwrap();

    assert_eq!(writer.into_vec(), vec![0, 0, 13, 183, 0, 7, 204, 134]);
}

#[test]
fn write_u64() {
    let mut writer = BytesWriter::new();

    writer.write_u64(&35191823831).unwrap();
    writer.write_u64(&444799335191823831).unwrap();

    assert_eq!(
        writer.into_vec(),
        vec![0, 0, 0, 8, 49, 152, 157, 215, 6, 44, 62, 163, 130, 112, 69, 215]
    );
}

#[test]
fn write_then_read_round_trip() {
    let mut writer = BytesWriter::new();
    writer.write_bool(&true).unwrap();
    writer.write_u8(&0xAB).unwrap();
    writer.write_u16(&19567).unwrap();
    writer.write_u32(&1282372197).unwrap();
    writer.write_u64(&8319675872528264303).unwrap();
    writer.write_ascii(b"Lorem ipsum").unwrap();
    writer.write_bytes(b"tail").unwrap();

    let mut reader = BytesReader::new(writer.into_vec());
    assert!(reader.read_bool().unwrap());
    assert_eq!(reader.read_u8().unwrap(), 0xAB);
    assert_eq!(reader.read_u16().unwrap(), 19567);
    assert_eq!(reader.read_u32().unwrap(), 1282372197);
    assert_eq!(reader.read_u64().unwrap(), 8319675872528264303);
    assert_eq!(reader.read_ascii().unwrap(), b"Lorem ipsum".to_vec());
    assert_eq!(reader.read_n_bytes_dyn(4).unwrap(), b"tail".to_vec());
    assert!(reader.read_u8().is_err());
}

#[test]
fn read_2bits_needs_enough_bytes() {
    let mut reader = BytesReader::new(vec![0b11101110]);

    assert!(reader.read_2bits(5).is_err());
    assert_eq!(reader.read_2bits(4).unwrap(), vec![238]);
}
