use b2b::digest::{get_file_hash, truncate_digest};
use b2b::error::{Error, ErrorKind};
use b2b::geometry::{BITMAP_HEADER_SIZE, B2B_HEADER_SIZE, BYTES_PER_PIXEL};
use b2b::header::{CompactOptionalDigest, Header, B2B_SIGNATURE, BITMAP_ID};
use b2b::transform::{bin_to_bmp, bmp_to_bin, VerificationOutcome};

const HEADER_LEN: usize = 178;

fn sample(n: usize) -> Vec<u8> {
    (0..n).map(|i| (i * 7 + 3) as u8).collect()
}

#[test]
fn hello_geometry() {
    let h = Header::new(5, None);
    assert_eq!(h.bmp.width, 4);
    assert_eq!(h.bmp.height, 3);
    assert_eq!(h.pixmap_size(), 48);
    assert_eq!(h.padding_size(), 3);
    assert_eq!(h.original_file_size(), 5);
}

#[test]
fn hello_forward_size() {
    let mut data = b"hello".to_vec();
    bin_to_bmp(&mut data, false);
    assert_eq!(data.len(), 48 + 138);
    assert_eq!(&data[0..2], b"BM");
}

#[test]
fn empty_file_geometry_and_round_trip() {
    let h = Header::new(0, None);
    assert_eq!(h.pixmap_size(), 48);
    assert_eq!(h.padding_size(), 8);
    assert!(h.validate().is_ok());
    let mut data: Vec<u8> = Vec::new();
    bin_to_bmp(&mut data, false);
    assert_eq!(data.len(), 48 + 138);
    let r = bmp_to_bin(&mut data, false);
    assert!(matches!(r, Ok(None)));
    assert!(data.is_empty());
}

#[test]
fn geometry_invariant_over_sizes() {
    for n in [0u64, 1, 5, 137, 178, 179, 1000, 65_536, 1_000_003, 0xFFFD_0000] {
        let h = Header::new(n, None);
        let p = h.pixmap_size() as u64;
        assert_eq!(p, h.bmp.width as u64 * h.bmp.height as u64 * 4);
        assert!((h.padding_size() as u64) < p);
        assert!(p >= n + 40);
        assert_eq!(h.padding_size() as u64 + n + 40, p);
    }
}

#[test]
fn round_trip_without_digest() {
    for n in [178usize, 179, 500, 4096] {
        let original = sample(n);
        let mut data = original.clone();
        bin_to_bmp(&mut data, false);
        let h = Header::new(n as u64, None);
        assert_eq!(data.len() as u32, h.pixmap_size() + 138);
        let r = bmp_to_bin(&mut data, true);
        assert_eq!(r.unwrap(), Some(VerificationOutcome::NotPossible));
        assert_eq!(data, original);
    }
}

#[test]
fn round_trip_with_digest_verifies() {
    let original = sample(1000);
    let mut data = original.clone();
    bin_to_bmp(&mut data, true);
    let r = bmp_to_bin(&mut data, true);
    assert_eq!(r.unwrap(), Some(VerificationOutcome::Verified));
    assert_eq!(data, original);
}

#[test]
fn altered_content_mismatches() {
    let original = sample(1000);
    let mut data = original.clone();
    bin_to_bmp(&mut data, true);
    data[500] ^= 0xFF;
    let r = bmp_to_bin(&mut data, true);
    assert_eq!(r.unwrap(), Some(VerificationOutcome::Mismatched));
    assert_eq!(data.len(), original.len());
    assert_ne!(data, original);
}

#[test]
fn flipped_id_is_detected() {
    for i in 0..2 {
        let mut data = sample(300);
        bin_to_bmp(&mut data, false);
        let before = data.clone();
        data[i] ^= 0x01;
        let corrupted = data.clone();
        let r = bmp_to_bin(&mut data, false);
        assert_eq!(r.unwrap_err().kind(), ErrorKind::InvalidBitmapID);
        assert_eq!(data, corrupted);
        assert_ne!(data, before);
    }
}

#[test]
fn flipped_signature_is_detected() {
    for i in 146..162 {
        let mut data = sample(300);
        bin_to_bmp(&mut data, false);
        data[i] ^= 0x80;
        let r = bmp_to_bin(&mut data, false);
        assert_eq!(r.unwrap_err().kind(), ErrorKind::InvalidB2BSignature);
    }
}

#[test]
fn bad_padding_is_detected() {
    let mut data = sample(300);
    bin_to_bmp(&mut data, false);
    let pixmap = u32::from_le_bytes([data[34], data[35], data[36], data[37]]);
    data[138..142].copy_from_slice(&pixmap.to_le_bytes());
    let r = bmp_to_bin(&mut data, false);
    assert_eq!(r.unwrap_err().kind(), ErrorKind::BadPaddingSize);
}

#[test]
fn too_few_bytes_is_a_serialization_error() {
    let mut data = vec![0x42u8, 0x4D, 0, 0];
    let r = bmp_to_bin(&mut data, false);
    assert_eq!(r.unwrap_err().kind(), ErrorKind::SerializationError);
    assert_eq!(data, vec![0x42u8, 0x4D, 0, 0]);
    assert_eq!(Header::from_bytes(&[0u8; 177]).unwrap_err().kind(), ErrorKind::SerializationError);
}

#[test]
fn seek_before_start_is_an_io_error() {
    let h = Header::new(300, None);
    let mut bytes = h.to_bytes();
    bytes.truncate(178);
    let mut data = bytes.clone();
    let r = bmp_to_bin(&mut data, false);
    assert_eq!(r.unwrap_err().kind(), ErrorKind::IOError);
    assert_eq!(data, bytes);
}

#[test]
fn parsing_twice_gives_the_same_header() {
    let h = Header::new(12_345, Some(0xABCD));
    let bytes = h.to_bytes();
    let a = Header::from_bytes(&bytes).unwrap();
    let b = Header::from_bytes(&bytes).unwrap();
    assert_eq!(a, b);
    assert_eq!(a, h);
    assert_eq!(a.validate().is_ok(), b.validate().is_ok());
}

#[test]
fn encoding_layout_matches_bincode() {
    let h = Header::new(1000, Some(7));
    let m = &h.bmp;
    let first = (m.id, m.file_size, m.unused1, m.offset, m.dib_size, m.width, m.height, m.pbnlanes,
        m.bpp, m.compression, m.pixmap_size, m.horizontal, m.vertical, m.palette, m.important, m.red_mask);
    let second = (m.green_mask, m.blue_mask, m.alpha_mask, m.win, m.unused2a, m.unused2b, m.unused2c,
        m.red_gamma, m.green_gamma, m.blue_gamma, m.intent, m.profile_data, m.profile_size, m.reserved);
    let third = (h.b2b.padding_size, h.b2b.original_file_size, h.b2b.signature, h.b2b.od.0);
    let expected = bincode::serialize(&(first, second, third)).unwrap();
    assert_eq!(h.to_bytes(), expected);
    assert_eq!(expected.len(), 178);
}

#[test]
fn header_fields_of_a_new_header() {
    let h = Header::new(1000, None);
    assert_eq!(h.bmp.id, BITMAP_ID);
    assert_eq!(h.bmp.file_size, h.pixmap_size() + 138);
    assert_eq!(h.bmp.offset, 138);
    assert_eq!(h.bmp.dib_size, 124);
    assert_eq!(h.bmp.bpp, 32);
    assert_eq!(h.bmp.compression, 3);
    assert_eq!(h.b2b.signature, B2B_SIGNATURE);
    assert_eq!(h.b2b.od.0, 0);
}

#[test]
fn checks_on_altered_headers() {
    let mut h = Header::new(10, None);
    assert!(h.check_id().is_ok());
    assert!(h.check_signature().is_ok());
    assert!(h.check_padding_size().is_ok());
    h.b2b.signature ^= 1;
    assert_eq!(h.check_signature().unwrap_err().kind(), ErrorKind::InvalidB2BSignature);
    h.bmp.id = 0;
    assert_eq!(h.check_id().unwrap_err().kind(), ErrorKind::InvalidBitmapID);
    assert_eq!(h.validate().unwrap_err().kind(), ErrorKind::InvalidBitmapID);
    h.b2b.padding_size = h.bmp.pixmap_size;
    assert_eq!(h.check_padding_size().unwrap_err().kind(), ErrorKind::BadPaddingSize);
}

#[test]
fn verify_outcomes() {
    let none = Header::new(100, None);
    assert_eq!(none.verify(42), (false, true));
    let some = Header::new(100, Some(42));
    assert_eq!(some.verify(42), (true, false));
    assert_eq!(some.verify(42 | (1u128 << 127)), (true, false));
    assert_eq!(some.verify(43), (false, false));
}

#[test]
fn compact_optional_digest() {
    assert_eq!(CompactOptionalDigest::new(None).0, 0);
    assert_eq!(CompactOptionalDigest::new(None).get(), None);
    let d = CompactOptionalDigest::new(Some(5));
    assert_eq!(d.0, 5 | (1u128 << 127));
    assert_eq!(d.get(), Some(5));
    assert!(d.compare(5));
    assert!(!d.compare(6));
    let top = CompactOptionalDigest::new(Some(u128::MAX));
    assert_eq!(top.get(), Some(u128::MAX >> 1));
}

#[test]
fn sizes() {
    assert_eq!(Header::total_header_size(), 178);
    assert_eq!(Header::bitmap_header_size(), BITMAP_HEADER_SIZE);
    assert_eq!(Header::b2b_header_size(), B2B_HEADER_SIZE);
    assert_eq!(Header::bytes_per_pixel(), BYTES_PER_PIXEL);
}

#[test]
fn digest_of_empty_input() {
    assert_eq!(get_file_hash(&[]), 0x716f6e863f744b9ac22c97ec7b76ea5f);
    assert_ne!(get_file_hash(b"a"), get_file_hash(b"b"));
}

#[test]
fn truncate_digest_reads_big_endian() {
    let mut bytes: Vec<u8> = (1..=32).collect();
    assert_eq!(truncate_digest(&bytes), 0x0102030405060708090a0b0c0d0e0f10);
    bytes[0] = 0xFF;
    assert_eq!(truncate_digest(&bytes) >> 120, 0xFF);
}

#[test]
fn error_new_keeps_kind_and_message() {
    let e = Error::new(ErrorKind::BadPaddingSize, "too much padding");
    assert_eq!(e.kind(), ErrorKind::BadPaddingSize);
    assert_eq!(e.message, "too much padding");
}

#[test]
fn hello_round_trip() {
    let mut data = b"hello".to_vec();
    bin_to_bmp(&mut data, false);
    assert_eq!(data.len(), 186);
    let r = bmp_to_bin(&mut data, false);
    assert!(matches!(r, Ok(None)));
    assert_eq!(data, b"hello".to_vec());
}

#[test]
fn ten_byte_file_round_trip() {
    let original: Vec<u8> = (1..=10).collect();
    let mut data = original.clone();
    bin_to_bmp(&mut data, false);
    let r = bmp_to_bin(&mut data, false);
    assert!(matches!(r, Ok(None)));
    assert_eq!(data, vec![1u8, 2, 3, 4, 5, 6, 7, 8, 9, 10]);
}

#[test]
fn short_files_round_trip_with_and_without_digest() {
    for n in 0..=HEADER_LEN {
        for digest in [false, true] {
            let original = sample(n);
            let mut data = original.clone();
            bin_to_bmp(&mut data, digest);
            let h = Header::new(n as u64, None);
            assert_eq!(data.len() as u32, h.pixmap_size() + 138);
            let r = bmp_to_bin(&mut data, true).unwrap();
            let expected = if digest {
                VerificationOutcome::Verified
            } else {
                VerificationOutcome::NotPossible
            };
            assert_eq!(r, Some(expected));
            assert_eq!(data, original);
        }
    }
}
