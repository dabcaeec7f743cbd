use vpxview::vpx::image::{Plane, DIMENSION_MAX, IMG_FMT_I420};
use vpxview::vpx::{get_status_name, Decoder, Error, Image, CODEC_OK, NULL_TOKEN};

fn plane(data: Vec<u8>, stride: i32) -> Plane {
    Plane { data, stride }
}

/// An image of 8-bit planar 4:2:0 whose planes have no padding.
fn i420(w: u32, h: u32, y: Vec<u8>, u: Vec<u8>, v: Vec<u8>) -> Image {
    let cw = ((w + 1) / 2) as i32;
    Image::new(IMG_FMT_I420, 8, w, h, w, h, plane(y, w as i32), plane(u, cw), plane(v, cw))
        .unwrap()
}

/// An image in which every luma sample is `y` and every chroma sample `c`.
fn flat(w: u32, h: u32, y: u8, c: u8) -> Image {
    let luma = (w * h) as usize;
    let chroma = (((w + 1) / 2) * ((h + 1) / 2)) as usize;
    i420(w, h, vec![y; luma], vec![c; chroma], vec![c; chroma])
}

fn tiny() -> Image {
    flat(2, 2, 16, 128)
}

fn pixel(buf: &[u8], w: usize, row: usize, col: usize) -> [u8; 4] {
    let at = 4 * (row * w + col);
    [buf[at], buf[at + 1], buf[at + 2], buf[at + 3]]
}

#[test]
fn yuv_to_rgba_black_and_white() {
    assert_eq!(Image::yuv_to_rgba(16, 128, 128), 0xff00_0000);
    assert_eq!(Image::yuv_to_rgba(235, 128, 128), 0xffff_ffff);
}

#[test]
fn yuv_to_rgba_packs_red_lowest() {
    // c = 84, d = -28, e = 72, y1 = 25160:
    // R = 54608 >> 8 = 213, G = 12984 >> 8 = 50, B = 10712 >> 8 = 41
    assert_eq!(Image::yuv_to_rgba(100, 100, 200), 0xff00_0000 | 41 << 16 | 50 << 8 | 213);
}

#[test]
fn yuv_to_rgba_rounds_the_luma_term() {
    // c = 112, y1 = 33504, 33504 >> 8 = 130
    assert_eq!(Image::yuv_to_rgba(128, 128, 128), 0xff82_8282);
    // c = 1, y1 = 426, 426 >> 8 = 1
    assert_eq!(Image::yuv_to_rgba(17, 128, 128), 0xff01_0101);
}

#[test]
fn yuv_to_rgba_clamps_below_and_above() {
    // below nominal black every channel is negative before clamping
    assert_eq!(Image::yuv_to_rgba(0, 128, 128), 0xff00_0000);
    // above nominal white every channel is over 255 before clamping
    assert_eq!(Image::yuv_to_rgba(255, 128, 128), 0xffff_ffff);
    // the extremes of chroma: R = 0, G = 255, B = 0
    assert_eq!(Image::yuv_to_rgba(128, 0, 0), 0xff00_ff00);
    // R = 255, G = 0, B = 255
    assert_eq!(Image::yuv_to_rgba(128, 255, 255), 0xffff_00ff);
}

#[test]
fn yuv_to_rgba_primary_colours() {
    // red: y1 = 19498, R = 65306 >> 8, G = 2 >> 8, B = -110 >> 8
    assert_eq!(Image::yuv_to_rgba(81, 90, 240), 0xff00_00ff);
    // green: y1 = 38570, R = 124 >> 8, G = 65522 >> 8, B = 386 >> 8
    assert_eq!(Image::yuv_to_rgba(145, 54, 34), 0xff01_ff00);
    // blue: y1 = 7578, R = 216 >> 8, G = 122 >> 8, B = 65370 >> 8
    assert_eq!(Image::yuv_to_rgba(41, 240, 110), 0xffff_0000);
}

#[test]
fn yuv_to_rgba_floors_a_negative_quotient() {
    // c = 3, d = -2, e = 0, y1 = 1022: B = (1022 - 1032) >> 8 = -1, clamped to 0;
    // R = 1022 >> 8 = 3, G = (1022 + 200) >> 8 = 4
    assert_eq!(Image::yuv_to_rgba(19, 126, 128), 0xff00_0403);
}

#[test]
fn black_image_converts_to_opaque_black() {
    let buf = flat(5, 3, 16, 128).get_rgba8().unwrap();
    assert_eq!(buf.len(), 5 * 3 * 4);
    for px in buf.chunks(4) {
        assert_eq!(px, [0, 0, 0, 255]);
    }
}

#[test]
fn white_image_converts_to_opaque_white() {
    let buf = flat(4, 6, 235, 128).get_rgba8().unwrap();
    assert_eq!(buf.len(), 4 * 6 * 4);
    for px in buf.chunks(4) {
        assert_eq!(px, [255, 255, 255, 255]);
    }
}

#[test]
fn one_pixel_image() {
    let buf = flat(1, 1, 100, 128).get_rgba8().unwrap();
    // c = 84, y1 = 25160, 25160 >> 8 = 98
    assert_eq!(buf, vec![98, 98, 98, 255]);
}

#[test]
fn chroma_rows_are_halved() {
    // chroma differs from row to row: row 0 is neutral, row 1 is far from it
    let y = vec![128; 16];
    let u = vec![128, 128, 128, 128];
    let v = vec![128, 128, 240, 240];
    let buf = i420(4, 4, y, u, v).get_rgba8().unwrap();
    let top = Image::yuv_to_rgba(128, 128, 128).to_le_bytes();
    let bottom = Image::yuv_to_rgba(128, 128, 240).to_le_bytes();
    assert_ne!(top, bottom);
    for col in 0..4 {
        assert_eq!(pixel(&buf, 4, 0, col), top);
        assert_eq!(pixel(&buf, 4, 1, col), top);
        assert_eq!(pixel(&buf, 4, 2, col), bottom);
        assert_eq!(pixel(&buf, 4, 3, col), bottom);
    }
}

#[test]
fn chroma_columns_are_halved() {
    let y = vec![128; 16];
    let u = vec![60, 200, 60, 200];
    let v = vec![128, 128, 128, 128];
    let buf = i420(4, 4, y, u, v).get_rgba8().unwrap();
    let left = Image::yuv_to_rgba(128, 60, 128).to_le_bytes();
    let right = Image::yuv_to_rgba(128, 200, 128).to_le_bytes();
    assert_ne!(left, right);
    for row in 0..4 {
        assert_eq!(pixel(&buf, 4, row, 0), left);
        assert_eq!(pixel(&buf, 4, row, 1), left);
        assert_eq!(pixel(&buf, 4, row, 2), right);
        assert_eq!(pixel(&buf, 4, row, 3), right);
    }
}

#[test]
fn each_block_reads_its_own_chroma_sample() {
    let y = vec![128; 16];
    let u = vec![10, 80, 150, 220];
    let v = vec![220, 150, 80, 10];
    let buf = i420(4, 4, y, u.clone(), v.clone()).get_rgba8().unwrap();
    for row in 0..4 {
        for col in 0..4 {
            let block = (row / 2) * 2 + col / 2;
            let want = Image::yuv_to_rgba(128, u[block], v[block]).to_le_bytes();
            assert_eq!(pixel(&buf, 4, row, col), want);
        }
    }
}

#[test]
fn luma_is_read_for_every_pixel_in_row_order() {
    let y: Vec<u8> = (0..12).map(|n| 16 + 19 * n as u8).collect();
    let buf = i420(4, 3, y.clone(), vec![128; 4], vec![128; 4]).get_rgba8().unwrap();
    for row in 0..3 {
        for col in 0..4 {
            let want = Image::yuv_to_rgba(y[row * 4 + col], 128, 128).to_le_bytes();
            assert_eq!(pixel(&buf, 4, row, col), want);
        }
    }
    // the first row of the image is the first row of the buffer
    assert_eq!(pixel(&buf, 4, 0, 0), [0, 0, 0, 255]);
}

#[test]
fn odd_dimensions_round_the_chroma_planes_up() {
    let y = vec![128; 9];
    let u = vec![128, 128, 128, 200];
    let v = vec![128, 128, 128, 128];
    let buf = i420(3, 3, y, u, v).get_rgba8().unwrap();
    assert_eq!(buf.len(), 36);
    let plain = Image::yuv_to_rgba(128, 128, 128).to_le_bytes();
    let corner = Image::yuv_to_rgba(128, 200, 128).to_le_bytes();
    for row in 0..3 {
        for col in 0..3 {
            let want = if row == 2 && col == 2 { corner } else { plain };
            assert_eq!(pixel(&buf, 3, row, col), want);
        }
    }
}

#[test]
fn padding_behind_a_row_is_skipped() {
    // 2 x 2 visible, strides of 5 and 3; the padding holds other values
    let y = plane(vec![16, 235, 9, 9, 9, 235, 16], 5);
    let u = plane(vec![128], 3);
    let v = plane(vec![128], 3);
    let img = Image::new(IMG_FMT_I420, 8, 8, 8, 2, 2, y, u, v).unwrap();
    let buf = img.get_rgba8().unwrap();
    assert_eq!(
        buf,
        vec![0, 0, 0, 255, 255, 255, 255, 255, 255, 255, 255, 255, 0, 0, 0, 255]
    );
}

#[test]
fn planes_may_have_strides_of_their_own() {
    let y = plane(vec![128; 4 * 7], 7);
    let u = plane(vec![128, 128, 0, 60, 60], 3);
    let v = plane(vec![128, 128, 0, 0, 0, 0, 200, 200], 6);
    let img = Image::new(IMG_FMT_I420, 8, 4, 4, 4, 4, y, u, v).unwrap();
    let buf = img.get_rgba8().unwrap();
    let top = Image::yuv_to_rgba(128, 128, 128).to_le_bytes();
    let bottom = Image::yuv_to_rgba(128, 60, 200).to_le_bytes();
    for col in 0..4 {
        assert_eq!(pixel(&buf, 4, 1, col), top);
        assert_eq!(pixel(&buf, 4, 2, col), bottom);
    }
}

#[test]
fn another_pixel_format_is_not_converted() {
    let i422 = 0x105;
    let img = Image::new(i422, 8, 2, 2, 2, 2, plane(vec![0; 4], 2), plane(vec![0; 2], 1), plane(vec![0; 2], 1))
        .unwrap();
    assert_eq!(img.get_rgba8(), Err(Error::UnsupportedPixelFormat));
}

#[test]
fn another_bit_depth_is_not_converted() {
    let img = Image::new(IMG_FMT_I420, 10, 2, 2, 2, 2, plane(vec![0; 4], 2), plane(vec![0; 1], 1), plane(vec![0; 1], 1))
        .unwrap();
    assert_eq!(img.get_rgba8(), Err(Error::UnsupportedPixelFormat));
}

#[test]
fn high_bit_depth_format_is_not_converted() {
    let i42016 = 0x902;
    let img = Image::new(i42016, 16, 2, 2, 2, 2, plane(vec![0; 8], 4), plane(vec![0; 2], 2), plane(vec![0; 2], 2))
        .unwrap();
    assert_eq!(img.get_rgba8(), Err(Error::UnsupportedPixelFormat));
}

#[test]
fn the_pixel_format_is_checked_before_the_geometry() {
    let img = Image::new(0, 8, 2, 2, 2, 2, plane(vec![], 0), plane(vec![], 0), plane(vec![], 0))
        .unwrap();
    assert_eq!(img.get_rgba8(), Err(Error::UnsupportedPixelFormat));
}

#[test]
fn a_luma_stride_below_the_width_is_invalid() {
    let img = Image::new(IMG_FMT_I420, 8, 4, 2, 4, 2, plane(vec![0; 64], 3), plane(vec![0; 8], 2), plane(vec![0; 8], 2))
        .unwrap();
    assert_eq!(img.get_rgba8(), Err(Error::InvalidImage));
}

#[test]
fn a_chroma_stride_below_the_chroma_width_is_invalid() {
    let img = Image::new(IMG_FMT_I420, 8, 4, 2, 4, 2, plane(vec![0; 8], 4), plane(vec![0; 8], 1), plane(vec![0; 8], 2))
        .unwrap();
    assert_eq!(img.get_rgba8(), Err(Error::InvalidImage));
    let img = Image::new(IMG_FMT_I420, 8, 4, 2, 4, 2, plane(vec![0; 8], 4), plane(vec![0; 8], 2), plane(vec![0; 8], 1))
        .unwrap();
    assert_eq!(img.get_rgba8(), Err(Error::InvalidImage));
}

#[test]
fn a_negative_stride_is_invalid() {
    let img = Image::new(IMG_FMT_I420, 8, 2, 2, 2, 2, plane(vec![0; 16], -2), plane(vec![0; 4], 1), plane(vec![0; 4], 1))
        .unwrap();
    assert_eq!(img.get_rgba8(), Err(Error::InvalidImage));
}

#[test]
fn a_plane_that_is_too_short_is_invalid() {
    // luma needs (2 - 1) * 2 + 2 = 4 samples
    let img = Image::new(IMG_FMT_I420, 8, 2, 2, 2, 2, plane(vec![0; 3], 2), plane(vec![0; 1], 1), plane(vec![0; 1], 1))
        .unwrap();
    assert_eq!(img.get_rgba8(), Err(Error::InvalidImage));
    // chroma needs one sample
    let img = Image::new(IMG_FMT_I420, 8, 2, 2, 2, 2, plane(vec![0; 4], 2), plane(vec![], 1), plane(vec![0; 1], 1))
        .unwrap();
    assert_eq!(img.get_rgba8(), Err(Error::InvalidImage));
    let img = Image::new(IMG_FMT_I420, 8, 2, 2, 2, 2, plane(vec![0; 4], 2), plane(vec![0; 1], 1), plane(vec![], 1))
        .unwrap();
    assert_eq!(img.get_rgba8(), Err(Error::InvalidImage));
}

#[test]
fn the_last_row_needs_no_padding() {
    // stride 4, two rows of three samples: 4 + 3 = 7 samples are enough
    let img = Image::new(IMG_FMT_I420, 8, 3, 2, 3, 2, plane(vec![16; 7], 4), plane(vec![128; 2], 2), plane(vec![128; 2], 2))
        .unwrap();
    assert_eq!(img.get_rgba8().unwrap().len(), 24);
}

#[test]
fn new_keeps_the_display_dimensions() {
    let img = Image::new(IMG_FMT_I420, 8, 704, 480, 640, 360, plane(vec![], 704), plane(vec![], 352), plane(vec![], 352))
        .unwrap();
    assert_eq!(img.get_display_width(), 640);
    assert_eq!(img.get_display_height(), 360);
}

#[test]
fn new_accepts_the_largest_dimensions() {
    assert_eq!(DIMENSION_MAX, 65535);
    let img = Image::new(IMG_FMT_I420, 8, 70000, 65535, 65535, 65535, plane(vec![], 0), plane(vec![], 0), plane(vec![], 0))
        .unwrap();
    assert_eq!(img.get_display_width(), 65535);
    assert_eq!(img.get_display_height(), 65535);
}

fn empty_image(w: u32, h: u32, d_w: u32, d_h: u32) -> Result<Image, Error> {
    Image::new(IMG_FMT_I420, 8, w, h, d_w, d_h, plane(vec![], 0), plane(vec![], 0), plane(vec![], 0))
}

#[test]
fn new_rejects_an_empty_visible_region() {
    assert_eq!(empty_image(16, 16, 0, 16).err(), Some(Error::InvalidImage));
    assert_eq!(empty_image(16, 16, 16, 0).err(), Some(Error::InvalidImage));
    assert_eq!(empty_image(0, 0, 0, 0).err(), Some(Error::InvalidImage));
}

#[test]
fn new_rejects_dimensions_over_the_limit() {
    assert_eq!(empty_image(70000, 16, 65536, 16).err(), Some(Error::InvalidImage));
    assert_eq!(empty_image(16, 70000, 16, 65536).err(), Some(Error::InvalidImage));
    assert_eq!(empty_image(u32::MAX, u32::MAX, u32::MAX, 1).err(), Some(Error::InvalidImage));
}

#[test]
fn new_rejects_a_visible_region_outside_the_buffer() {
    assert_eq!(empty_image(16, 16, 17, 16).err(), Some(Error::InvalidImage));
    assert_eq!(empty_image(16, 16, 16, 17).err(), Some(Error::InvalidImage));
    assert!(empty_image(16, 16, 16, 16).is_ok());
}

#[test]
fn init_follows_the_engine_status() {
    let decoder = Decoder::init(0x1000, CODEC_OK).unwrap();
    assert_eq!(decoder.get_codec(), 0x1000);
    assert_eq!(Decoder::init(0x1000, 2).err(), Some(Error::DecodeError(2)));
    assert_eq!(Decoder::init(0x1000, -1).err(), Some(Error::DecodeError(-1)));
}

#[test]
fn decode_many_starts_at_the_null_token() {
    let mut decoder = Decoder::init(42, CODEC_OK).unwrap();
    let frames = decoder.decode_many(CODEC_OK).unwrap();
    assert_eq!(NULL_TOKEN, 0);
    assert_eq!(frames.cursor(), Some(NULL_TOKEN));
    assert_eq!(frames.get_codec(), 42);
}

#[test]
fn decode_many_reports_the_engine_status() {
    let mut decoder = Decoder::init(42, CODEC_OK).unwrap();
    assert_eq!(decoder.decode_many(7).err(), Some(Error::DecodeError(7)));
    assert_eq!(decoder.decode_many(5).err(), Some(Error::DecodeError(5)));
}

#[test]
fn a_failed_submission_leaves_the_session_usable() {
    let mut decoder = Decoder::init(42, CODEC_OK).unwrap();
    assert_eq!(decoder.decode_many(7).err(), Some(Error::DecodeError(7)));
    assert_eq!(decoder.get_codec(), 42);
    let mut frames = decoder.decode_many(CODEC_OK).unwrap();
    assert_eq!(frames.cursor(), Some(NULL_TOKEN));
    let image = frames.next(1, Some(tiny())).unwrap();
    assert_eq!(image.get_display_width(), 2);
    assert_eq!(frames.next(1, None).map(|_| ()), None);
    assert_eq!(decoder.get_codec(), 42);
}

#[test]
fn frames_pass_every_image_on() {
    let mut decoder = Decoder::init(1, CODEC_OK).unwrap();
    let mut frames = decoder.decode_many(CODEC_OK).unwrap();

    let first = frames.next(0x10, Some(flat(2, 2, 16, 128))).unwrap();
    assert_eq!(first.get_rgba8().unwrap()[..4], [0, 0, 0, 255]);
    assert_eq!(frames.cursor(), Some(0x10));

    let second = frames.next(0x20, Some(flat(4, 2, 235, 128))).unwrap();
    assert_eq!(second.get_display_width(), 4);
    assert_eq!(second.get_rgba8().unwrap()[..4], [255, 255, 255, 255]);
    assert_eq!(frames.cursor(), Some(0x20));

    assert!(frames.next(0x30, None).is_none());
    assert_eq!(frames.cursor(), None);
}

#[test]
fn frames_of_a_chunk_without_images() {
    let mut decoder = Decoder::init(1, CODEC_OK).unwrap();
    let mut frames = decoder.decode_many(CODEC_OK).unwrap();
    assert!(frames.next(0, None).is_none());
    assert_eq!(frames.cursor(), None);
}

#[test]
fn frames_end_for_good() {
    let mut decoder = Decoder::init(1, CODEC_OK).unwrap();
    let mut frames = decoder.decode_many(CODEC_OK).unwrap();
    assert!(frames.next(5, Some(tiny())).is_some());
    assert!(frames.next(6, None).is_none());
    // an answer that comes after the end is not looked at
    assert!(frames.next(7, Some(tiny())).is_none());
    assert_eq!(frames.cursor(), None);
    assert!(frames.next(8, None).is_none());
    assert_eq!(frames.cursor(), None);
}

#[test]
fn each_submission_starts_a_new_sequence() {
    let mut decoder = Decoder::init(1, CODEC_OK).unwrap();
    {
        let mut frames = decoder.decode_many(CODEC_OK).unwrap();
        assert!(frames.next(9, Some(tiny())).is_some());
        assert!(frames.next(9, None).is_none());
    }
    let frames = decoder.decode_many(CODEC_OK).unwrap();
    assert_eq!(frames.cursor(), Some(NULL_TOKEN));
}

#[test]
fn status_names() {
    assert_eq!(get_status_name(0), "VPX_CODEC_OK");
    assert_eq!(get_status_name(1), "VPX_CODEC_ERROR");
    assert_eq!(get_status_name(2), "VPX_CODEC_MEM_ERROR");
    assert_eq!(get_status_name(3), "VPX_CODEC_ABI_MISMATCH");
    assert_eq!(get_status_name(4), "VPX_CODEC_INCAPABLE");
    assert_eq!(get_status_name(5), "VPX_CODEC_UNSUP_BITSTREAM");
    assert_eq!(get_status_name(6), "VPX_CODEC_UNSUP_FEATURE");
    assert_eq!(get_status_name(7), "VPX_CODEC_CORRUPT_FRAME");
    assert_eq!(get_status_name(8), "VPX_CODEC_INVALID_PARAM");
    assert_eq!(get_status_name(9), "VPX_CODEC_LIST_END");
    assert_eq!(get_status_name(10), "unknown status");
    assert_eq!(get_status_name(-1), "unknown status");
}

#[test]
fn decoder_error_messages() {
    assert_eq!(Error::DecodeError(5).message(), "VPx error: VPX_CODEC_UNSUP_BITSTREAM");
    assert_eq!(Error::DecodeError(99).message(), "VPx error: unknown status");
    assert_eq!(Error::UnsupportedPixelFormat.message(), "VPx error: unsupported pixel format");
    assert_eq!(Error::InvalidImage.message(), "VPx error: invalid image");
}
