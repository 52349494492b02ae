use little::bytecode::{devil, Error, Header, Serializer, MAGIC};

#[test]
fn header() {
    let mut input: Vec<u8> = vec![];

    let a = Header::new();
    a.serialize(&mut input).unwrap();

    let (_, b) = Header::deserialize(&input[..]).unwrap();
    assert_eq!(a, b);
}

#[test]
fn devil_test() {
    let mut data: Vec<u8> = vec![];
    let mut writer: Vec<u8> = vec![];

    Header::new().serialize(&mut data).unwrap();
    data.extend(b"ab cd ef gh");

    devil(&data, &mut writer).unwrap();

    assert_eq!("cd", String::from_utf8_lossy(&writer));
}

#[test]
fn header_is_the_magic_number_in_little_endian() {
    assert_eq!(52231103, MAGIC);
    assert_eq!(0x031CFBBF, MAGIC);
    let mut bytes = vec![1u8];
    assert_eq!(4, Header::new().serialize(&mut bytes).unwrap());
    assert_eq!(vec![1u8, 0xBF, 0xFB, 0x1C, 0x03], bytes);
    assert!(Header::new().is_magical());
}

#[test]
fn deserialize_reads_four_bytes_whatever_they_spell() {
    let (read, header) = Header::deserialize(&[0x78, 0x56, 0x34, 0x12, 0xAA]).unwrap();
    assert_eq!(4, read);
    assert!(!header.is_magical());
    let mut bytes = Vec::new();
    header.serialize(&mut bytes).unwrap();
    assert_eq!(vec![0x78, 0x56, 0x34, 0x12], bytes);

    let (_, magical) = Header::deserialize(&[0xBF, 0xFB, 0x1C, 0x03]).unwrap();
    assert!(magical.is_magical());
    assert_eq!(Header::new(), magical);
}

#[test]
fn deserialize_of_too_few_bytes_is_unexpected_eof() {
    for len in 0..4 {
        let bytes = [0xBFu8, 0xFB, 0x1C];
        assert!(matches!(Header::deserialize(&bytes[..len.min(3)]), Err(Error::UnexpectedEOF)));
    }
}

#[test]
fn devil_refuses_a_wrong_magic_number() {
    let mut writer = vec![5u8];
    let result = devil(&[0, 0, 0, 0, 1, 2, 3, 4, 5, 6], &mut writer);
    assert!(matches!(result, Err(Error::InvalidBinaryFormat)));
    assert_eq!(vec![5u8], writer);
}

#[test]
fn devil_of_too_few_bytes_is_unexpected_eof() {
    let mut writer = Vec::new();
    assert!(matches!(devil(&[0xBF, 0xFB], &mut writer), Err(Error::UnexpectedEOF)));
    assert!(writer.is_empty());
}

#[test]
fn devil_copies_what_the_input_has() {
    let mut data = Vec::new();
    Header::new().serialize(&mut data).unwrap();

    let mut writer = vec![b'>'];
    devil(&data, &mut writer).unwrap();
    assert_eq!(b">", &writer[..]);

    data.extend(b"abcd");
    devil(&data, &mut writer).unwrap();
    assert_eq!(b">d", &writer[..]);

    data.extend(b"efg");
    devil(&data, &mut writer).unwrap();
    assert_eq!(b">dde", &writer[..]);
}

#[test]
fn io_error_is_carried() {
    let error = Error::Io(std::io::Error::new(std::io::ErrorKind::Other, "broken"));
    match error {
        Error::Io(inner) => assert_eq!("broken", inner.to_string()),
        _ => panic!("expected an i/o error"),
    }
}
