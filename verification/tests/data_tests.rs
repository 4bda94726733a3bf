use frakt::models;
use frakt::pixels::{
    decode_intensity_words, encode_intensity_words, intensity_word, pixel_data_for,
    pixel_words_after,
};
use frakt::structs;

#[test]
fn constructors_keep_fields() {
    let d = structs::u8data::U8Data::new(3, 4);
    assert_eq!((d.offset, d.count), (3, 4));
    let d = structs::u8data::U8Data::default();
    assert_eq!((d.offset, d.count), (0, 0));
    let p = structs::pixel_data::PixelData::new(5, 6);
    assert_eq!((p.offset, p.count), (5, 6));
    let r = structs::resolution::Resolution::new(7, 8);
    assert_eq!((r.nx, r.ny), (7, 8));
    let r = structs::resolution::Resolution::default();
    assert_eq!((r.nx, r.ny), (0, 0));
    let f = structs::fragment_request::FragmentRequest::new("test", 500);
    assert_eq!(f.worker_name, "test");
    assert_eq!(f.maximal_work_load, 500);
    let _ = structs::fractals::mandelbrot::Mandelbrot::default();

    let d = models::u8_data::U8Data::new(3, 4);
    assert_eq!(d, models::u8_data::U8Data { offset: 3, count: 4 });
    let p = models::pixel::pixel_data::PixelData::new(5, 6);
    assert_eq!((p.offset, p.count), (5, 6));
    let r = models::resolution::Resolution::new(7, 8);
    assert_eq!((r.nx, r.ny), (7, 8));
    let f = models::fragments::fragment_request::FragmentRequest::new("w".to_string(), 9);
    assert_eq!(f.worker_name, "w");
    assert_eq!(f.maximal_work_load, 9);
    let _ = models::fractal::mandelbrot::Mandelbrot::new();
    let _ = models::fractal::mandelbrot::Mandelbrot::default();
    let _ = models::fractal::nova_newton_raphson_z3::NovaNewtonRaphsonZ3::new();
}

#[test]
fn pixel_words_roundtrip() {
    let words = vec![(1.5f32.to_bits(), 0.25f32.to_bits()), (7, 0xdead_beef)];
    let bytes = encode_intensity_words(&words);
    assert_eq!(bytes.len(), 16);
    assert_eq!(&bytes[0..4], &1.5f32.to_be_bytes());
    assert_eq!(&bytes[4..8], &0.25f32.to_be_bytes());
    assert_eq!(decode_intensity_words(&bytes), words);
}

#[test]
fn pixel_words_ignore_trailing_bytes() {
    let bytes = [0, 0, 0, 1, 0, 0, 0, 2, 9, 9, 9];
    assert_eq!(decode_intensity_words(&bytes), vec![(1, 2)]);
    assert_eq!(pixel_words_after(&bytes, 3), Some(vec![(0x0100_0000, 0x0209_0909)]));
    assert_eq!(pixel_words_after(&bytes, 0), None);
    assert_eq!(pixel_words_after(&bytes, 11), Some(vec![]));
}

#[test]
fn first_word() {
    assert_eq!(intensity_word(&[0, 0, 0, 1, 0, 0, 0, 2, 5]), Some((1, 2)));
    assert_eq!(intensity_word(&[0, 0, 0, 1, 0, 0, 0]), None);
}

#[test]
fn pixel_block_of_task() {
    let id = models::u8_data::U8Data::new(0, 16);
    let res = models::resolution::Resolution::new(75, 40);
    let p = pixel_data_for(&id, &res);
    assert_eq!(p.offset, 16);
    assert_eq!(p.count, 3000);
}

#[test]
fn pixel_block_after_identifier() {
    let words = vec![(1, 2), (3, 4), (0xffff_ffff, 0)];
    let mut data = vec![0u8; 16];
    data.extend(encode_intensity_words(&words));
    assert_eq!(pixel_words_after(&data, 16), Some(words));
}
