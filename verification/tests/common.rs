use vpxview::common::{get_le16, get_le32, Error};
use vpxview::ivf;
use vpxview::vpx;

#[test]
fn get_le32_puts_the_first_byte_lowest() {
    assert_eq!(get_le32(&[0x56, 0x50, 0x39, 0x30]), 0x3039_5056);
    assert_eq!(get_le32(&[1, 0, 0, 0]), 1);
    assert_eq!(get_le32(&[0, 1, 0, 0]), 256);
    assert_eq!(get_le32(&[0, 0, 1, 0]), 65_536);
    assert_eq!(get_le32(&[0, 0, 0, 1]), 16_777_216);
}

#[test]
fn get_le32_covers_the_whole_range() {
    assert_eq!(get_le32(&[0, 0, 0, 0]), 0);
    assert_eq!(get_le32(&[0xff, 0xff, 0xff, 0xff]), u32::MAX);
    assert_eq!(get_le32(&[0x78, 0x56, 0x34, 0x12]), 0x1234_5678);
}

#[test]
fn get_le32_reads_only_four_bytes() {
    assert_eq!(get_le32(&[0x0c, 0, 0, 0, 0xaa, 0xbb, 0xcc, 0xdd]), 12);
}

#[test]
fn get_le16_puts_the_first_byte_lowest() {
    assert_eq!(get_le16(&[0x34, 0x12]), 0x1234);
    assert_eq!(get_le16(&[1, 0]), 1);
    assert_eq!(get_le16(&[0, 1]), 256);
}

#[test]
fn get_le16_covers_the_whole_range() {
    assert_eq!(get_le16(&[0, 0]), 0);
    assert_eq!(get_le16(&[0xff, 0xff]), u16::MAX);
    assert_eq!(get_le16(&[0x80, 0x02]), 640);
}

#[test]
fn get_le16_reads_only_two_bytes() {
    assert_eq!(get_le16(&[0xe0, 0x01, 0xff, 0xff]), 480);
}

#[test]
fn common_error_wraps_a_container_error() {
    let err = Error::from(ivf::Error::UnsupportedCodec);
    assert!(matches!(err, Error::IvfError(ivf::Error::UnsupportedCodec)));
    assert_eq!(err.message(), "Parse error: unsupported codec");
}

#[test]
fn common_error_wraps_a_decoder_error() {
    let err = Error::from(vpx::Error::DecodeError(7));
    assert!(matches!(err, Error::VpxError(vpx::Error::DecodeError(7))));
    assert_eq!(err.message(), "VPx error: VPX_CODEC_CORRUPT_FRAME");
}

#[test]
fn common_error_passes_a_read_failure_on() {
    let io = std::io::Error::new(std::io::ErrorKind::NotFound, "no such file");
    let err = Error::from(ivf::Error::from(io));
    assert!(matches!(err, Error::IvfError(ivf::Error::IoError(_))));
    assert_eq!(err.message(), "IO error: no such file");
}
