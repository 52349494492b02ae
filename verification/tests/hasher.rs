use little::{Fingerprint, IdentifyValue, Sha1Hasher};

/// Keeps what is written into it.
struct Recorder {
    bytes: Vec<u8>,
}

impl Sha1Hasher for Recorder {
    // The trait's mathematical side. Nothing runs it.
    fn written(&self) -> vstd::seq::Seq<u8> {
        unreachable!()
    }

    fn finish(&self) -> Fingerprint {
        let mut sum = [0u8; 20];
        for (i, byte) in self.bytes.iter().enumerate() {
            sum[i % 20] ^= *byte;
        }
        Fingerprint::new(sum)
    }

    fn write(&mut self, bytes: &[u8]) {
        self.bytes.extend_from_slice(bytes);
    }
}

struct Pair(u16, i32);

impl IdentifyValue for Pair {
    fn identify_value(&self) -> Option<Fingerprint> {
        None
    }

    fn hash_value<H: Sha1Hasher>(&self, hasher: &mut H) -> Result<(), ()> {
        hasher.write_u16(self.0);
        hasher.write_i32(self.1);
        Ok(())
    }
}

fn written(write: fn(&mut Recorder)) -> Vec<u8> {
    let mut recorder = Recorder { bytes: vec![0xEE] };
    write(&mut recorder);
    assert_eq!(0xEE, recorder.bytes[0]);
    recorder.bytes[1..].to_vec()
}

#[test]
fn unsigned_numbers_are_written_least_significant_byte_first() {
    assert_eq!(vec![0xAB], written(|h| h.write_u8(0xAB)));
    assert_eq!(vec![0x02, 0x01], written(|h| h.write_u16(0x0102)));
    assert_eq!(vec![0x04, 0x03, 0x02, 0x01], written(|h| h.write_u32(0x01020304)));
    assert_eq!(
        vec![0x08, 0x07, 0x06, 0x05, 0x04, 0x03, 0x02, 0x01],
        written(|h| h.write_u64(0x0102030405060708))
    );
    assert_eq!(vec![0xFF, 0xFF], written(|h| h.write_u16(u16::MAX)));
    assert_eq!(vec![0, 0, 0, 0], written(|h| h.write_u32(0)));
}

#[test]
fn signed_numbers_are_written_in_twos_complement() {
    assert_eq!(vec![0xFB], written(|h| h.write_i8(-5)));
    assert_eq!(vec![0x02], written(|h| h.write_i8(2)));
    assert_eq!(vec![0x80], written(|h| h.write_i8(i8::MIN)));
    assert_eq!(vec![0xFE, 0xFF], written(|h| h.write_i16(-2)));
    assert_eq!(vec![0x78, 0xEC], written(|h| h.write_i16(-5000)));
    assert_eq!(vec![0x34, 0x12], written(|h| h.write_i16(0x1234)));
    assert_eq!(vec![0xFF, 0xFF, 0xFF, 0xFF], written(|h| h.write_i32(-1)));
    assert_eq!(vec![0x04, 0x03, 0x02, 0x01], written(|h| h.write_i32(0x01020304)));
    assert_eq!(vec![0x00, 0x00, 0x00, 0x80], written(|h| h.write_i32(i32::MIN)));
    assert_eq!(
        vec![0xFE, 0xFF, 0xFF, 0xFF, 0xFF, 0xFF, 0xFF, 0xFF],
        written(|h| h.write_i64(-2))
    );
    assert_eq!(
        vec![0x08, 0x07, 0x06, 0x05, 0x04, 0x03, 0x02, 0x01],
        written(|h| h.write_i64(0x0102030405060708))
    );
}

#[test]
fn writes_follow_one_another() {
    let mut recorder = Recorder { bytes: Vec::new() };
    assert!(Pair(0x0102, -2).identify_value().is_none());
    Pair(0x0102, -2).hash_value(&mut recorder).unwrap();
    recorder.write(&[9, 9]);
    assert_eq!(vec![0x02, 0x01, 0xFE, 0xFF, 0xFF, 0xFF, 9, 9], recorder.bytes);
    let mut expected = [0u8; 20];
    expected[0] = 0x02;
    expected[1] = 0x01;
    expected[2] = 0xFE;
    expected[3] = 0xFF;
    expected[4] = 0xFF;
    expected[5] = 0xFF;
    expected[6] = 9;
    expected[7] = 9;
    assert!(Fingerprint::new(expected) == recorder.finish());
}
