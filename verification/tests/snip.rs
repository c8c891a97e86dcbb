use echotrans::snip::{
    crop_selection, downscale, encode_png, fit_region, needs_downscale, screenshot_base64,
    selection_too_small, SELECTION_OFF_SCREEN,
};

#[test]
fn tiny_selections_are_ignored() {
    assert!(selection_too_small(4, 100));
    assert!(selection_too_small(100, 0));
    assert!(!selection_too_small(5, 5));
}

#[test]
fn selection_is_fitted_to_the_screen() {
    assert_eq!(fit_region((10, 20, 100, 50), 1920, 1080), Ok((10, 20, 100, 50)));
    assert_eq!(fit_region((1900, 1000, 100, 100), 1920, 1080), Ok((1900, 1000, 20, 80)));
    assert_eq!(fit_region((5000, 10, 100, 100), 1920, 1080), Err(SELECTION_OFF_SCREEN.to_string()));
    assert_eq!(fit_region((1917, 10, 100, 100), 1920, 1080), Err(SELECTION_OFF_SCREEN.to_string()));
    assert_eq!(fit_region((0, 0, 10, 10), 0, 0), Err(SELECTION_OFF_SCREEN.to_string()));
}

#[test]
fn large_images_are_scaled() {
    assert!(!needs_downscale(2048, 2048));
    assert!(needs_downscale(2049, 10));
    assert!(needs_downscale(10, 3000));
}

#[test]
fn base64_of_known_bytes() {
    assert_eq!(screenshot_base64(b"hello"), "aGVsbG8=");
    assert_eq!(screenshot_base64(b"hell"), "aGVsbA==");
    assert_eq!(screenshot_base64(b"hel"), "aGVs");
    assert_eq!(screenshot_base64(b""), "");
    assert_eq!(screenshot_base64(&[0xfb, 0xff]), "+/8=");
}

fn gradient(w: u32, h: u32) -> Vec<u8> {
    let mut v = Vec::new();
    for y in 0..h {
        for x in 0..w {
            v.extend_from_slice(&[x as u8, y as u8, 7, 255]);
        }
    }
    v
}

#[test]
fn crop_takes_the_fitted_block() {
    let img = gradient(10, 8);
    let (px, w, h) = crop_selection(&img, 10, 8, (3, 2, 5, 5)).unwrap();
    assert_eq!((w, h), (5, 5));
    assert_eq!(px.len(), 5 * 5 * 4);
    assert_eq!(&px[0..4], &[3, 2, 7, 255]);
    assert_eq!(&px[(4 * 5 + 4) * 4..(4 * 5 + 4) * 4 + 4], &[7, 6, 7, 255]);
    assert_eq!(crop_selection(&img, 10, 8, (9, 0, 5, 5)).unwrap_err(), SELECTION_OFF_SCREEN);
}

#[test]
fn scaled_and_encoded_screenshot() {
    let img = gradient(8, 8);
    let small = downscale(&img, 8, 8, 4, 2);
    assert_eq!(small.len(), 4 * 2 * 4);
    let png = encode_png(&small, 4, 2).unwrap();
    assert_eq!(&png[0..8], &[0x89, b'P', b'N', b'G', 0x0d, 0x0a, 0x1a, 0x0a]);
    let decoded = image::load_from_memory(&png).unwrap().to_rgba8();
    assert_eq!(decoded.dimensions(), (4, 2));
    assert_eq!(decoded.into_raw(), small);
}
