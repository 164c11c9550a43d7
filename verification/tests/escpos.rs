use std::io::Cursor;

use cups_http_gateway::escpos::{
    escpos_raster_from_gray, floyd_steinberg, pack_bits, to_escpos_raster, GrayRaster,
};

fn raster(w: u32, h: u32, px: Vec<u8>) -> GrayRaster {
    GrayRaster::new(w, h, px).expect("pixel count matches")
}

#[test]
fn gray_raster_rejects_wrong_pixel_count() {
    assert!(GrayRaster::new(2, 2, vec![0, 0, 0]).is_none());
    assert!(GrayRaster::new(2, 2, vec![0, 0, 0, 0]).is_some());
}

#[test]
fn dither_of_black_and_white_is_a_threshold() {
    let g = raster(4, 2, vec![0, 255, 255, 0, 255, 0, 0, 255]);
    assert_eq!(floyd_steinberg(&g), vec![0, 1, 1, 0, 1, 0, 0, 1]);
}

#[test]
fn dither_spreads_error_to_the_right() {
    // 100 -> black, error 100; 7/16 of it (43) makes the next pixel 143 -> white.
    let g = raster(2, 1, vec![100, 100]);
    assert_eq!(floyd_steinberg(&g), vec![0, 1]);
}

#[test]
fn dither_spreads_error_to_the_next_row() {
    let g = raster(2, 2, vec![100, 100, 100, 100]);
    assert_eq!(floyd_steinberg(&g), vec![0, 1, 0, 0]);
}

#[test]
fn dither_clamps_before_thresholding() {
    let g = raster(3, 1, vec![129, 128, 200]);
    // 129 -> white (err -126, right gets -55: 73 -> black, err 73, right gets 31: 231 -> white)
    assert_eq!(floyd_steinberg(&g), vec![1, 0, 1]);
}

#[test]
fn pack_bits_msb_first() {
    let bits = vec![0, 1, 0, 1, 0, 1, 0, 1];
    assert_eq!(pack_bits(&bits, 8, 1, 1), vec![0xAA]);
    let bits = vec![0u8; 8];
    assert_eq!(pack_bits(&bits, 8, 1, 1), vec![0xFF]);
    let bits = vec![1u8; 8];
    assert_eq!(pack_bits(&bits, 8, 1, 1), vec![0x00]);
}

#[test]
fn pack_bits_pads_partial_bytes_with_zeros() {
    // 3 pixels wide, 2 rows: row 0 all black, row 1 only the middle one.
    let bits = vec![0, 0, 0, 1, 0, 1];
    assert_eq!(pack_bits(&bits, 3, 2, 1), vec![0xE0, 0x40]);
    // a wider line than needed keeps the extra bytes zero
    assert_eq!(pack_bits(&bits, 3, 2, 2), vec![0xE0, 0x00, 0x40, 0x00]);
}

#[test]
fn pack_bits_second_byte_of_a_row() {
    let mut bits = vec![1u8; 10];
    bits[9] = 0;
    assert_eq!(pack_bits(&bits, 10, 1, 2), vec![0x00, 0x40]);
}

#[test]
fn raster_stream_has_gs_v_0_header() {
    let g = raster(8, 1, vec![255; 8]);
    assert_eq!(
        escpos_raster_from_gray(&g),
        vec![0x1D, 0x76, 0x30, 0x00, 0x01, 0x00, 0x01, 0x00, 0x00]
    );
    let g = raster(10, 1, vec![0; 10]);
    assert_eq!(
        escpos_raster_from_gray(&g),
        vec![0x1D, 0x76, 0x30, 0x00, 0x02, 0x00, 0x01, 0x00, 0xFF, 0xC0]
    );
}

#[test]
fn raster_header_splits_height_into_two_bytes() {
    let g = raster(1, 300, vec![255; 300]);
    let out = escpos_raster_from_gray(&g);
    assert_eq!(&out[..8], &[0x1D, 0x76, 0x30, 0x00, 0x01, 0x00, 0x2C, 0x01]);
    assert_eq!(out.len(), 8 + 300);
}

#[test]
fn undecodable_data_is_returned_unchanged() {
    let data = b"not an image at all".to_vec();
    assert_eq!(to_escpos_raster(&data, 384), data);
}

fn png_of(w: u32, h: u32, level: u8) -> Vec<u8> {
    let img = image::GrayImage::from_pixel(w, h, image::Luma([level]));
    let mut bytes = Vec::new();
    img.write_to(&mut Cursor::new(&mut bytes), image::ImageFormat::Png).unwrap();
    bytes
}

#[test]
fn png_at_target_width_is_dithered_and_packed() {
    let png = png_of(8, 2, 0);
    assert_eq!(
        to_escpos_raster(&png, 8),
        vec![0x1D, 0x76, 0x30, 0x00, 0x01, 0x00, 0x02, 0x00, 0xFF, 0xFF]
    );
}

#[test]
fn png_is_scaled_to_the_target_width() {
    let png = png_of(8, 1, 255);
    let out = to_escpos_raster(&png, 16);
    assert_eq!(&out[..8], &[0x1D, 0x76, 0x30, 0x00, 0x02, 0x00, 0x02, 0x00]);
    assert_eq!(out.len(), 8 + 4);
}
