use pinpoint::pixels::{check_reference_pixels, compare_pixels, PixelAgreement};

#[test]
fn renderings_compare_pixel_by_pixel() {
    let ours = vec![10, 20, 30, 255, 0, 0, 0, 255, 7, 7];
    let theirs = vec![10, 20, 30, 255, 0, 9, 0, 250, 1, 1];
    assert_eq!(
        compare_pixels(2, 1, &ours, 10, &theirs, 10),
        Ok(PixelAgreement { pixels: 2, differing_pixels: 1, max_channel_delta: 9 })
    );
    assert_eq!(
        compare_pixels(0, 1, &ours, 10, &theirs, 10),
        Err("pixel comparison requires a positive output size".to_string())
    );
}

fn reference_image() -> Vec<u8> {
    let (width, height) = (200usize, 200usize);
    let mut pixels = vec![0u8; width * height * 4];
    for y in 0..height {
        for x in 0..width {
            let o = y * width * 4 + x * 4;
            let colour = if (50..150).contains(&x) && (66..133).contains(&y) {
                if y < 76 { [255, 255, 255] } else { [0, 0, 0] }
            } else {
                [32, 64, 96]
            };
            pixels[o..o + 3].copy_from_slice(&colour);
            pixels[o + 3] = 255;
        }
    }
    pixels
}

#[test]
fn reference_rendering_shows_background_text_and_shading() {
    let pixels = reference_image();
    assert_eq!(check_reference_pixels(200, 200, &pixels, 800, (32, 64, 96)), Ok((1000, 5700)));
    assert_eq!(check_reference_pixels(200, 200, &pixels, 800, (40, 64, 96)), Ok((1000, 5700)));
    assert_eq!(
        check_reference_pixels(200, 200, &pixels, 800, (50, 64, 96)),
        Err("background pixel mismatch at 25,25".to_string())
    );
    let mut faint = pixels.clone();
    for b in faint.iter_mut() {
        if *b == 255 {
            *b = 200;
        }
    }
    assert_eq!(
        check_reference_pixels(200, 200, &faint, 800, (32, 64, 96)),
        Err("text/shading coverage mismatch: white=0, shaded=5700".to_string())
    );
    assert_eq!(check_reference_pixels(0, 200, &pixels, 800, (32, 64, 96)), Err("stage has no allocation".to_string()));
}
