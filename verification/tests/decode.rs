use hilen::decode::{decode_gif, parse_dynamic_image, GifError};

/// A gif of one black and white 1 by 1 frame shown for 100 ms.
fn one_pixel_gif(with_frame: bool) -> Vec<u8> {
    let mut gif = b"GIF89a".to_vec();
    gif.extend([1, 0, 1, 0, 0x80, 0, 0]);
    gif.extend([0, 0, 0, 255, 255, 255]);
    if with_frame {
        gif.extend([0x21, 0xF9, 4, 0, 10, 0, 0, 0]);
        gif.extend([0x2C, 0, 0, 0, 0, 1, 0, 1, 0, 0]);
        gif.extend([2, 2, 0x44, 0x01, 0]);
    }
    gif.push(0x3B);
    gif
}

#[test]
fn a_png_decodes_to_rgba_with_its_own_channel_count() {
    let mut png = Vec::new();
    image::RgbImage::from_pixel(2, 3, image::Rgb([10, 20, 30]))
        .write_to(&mut std::io::Cursor::new(&mut png), image::ImageFormat::Png)
        .unwrap();
    let raw = parse_dynamic_image(&png).unwrap();
    assert_eq!((raw.size.width, raw.size.height), (2, 3));
    assert_eq!(raw.channels, 3);
    assert_eq!(raw.data.len(), 2 * 3 * 4);
    assert_eq!(&raw.data[0..4], &[10, 20, 30, 255]);
}

#[test]
fn bytes_that_are_no_image_are_refused() {
    assert!(parse_dynamic_image(b"not an image").is_err());
    assert!(matches!(decode_gif(b"not a gif"), Err(GifError::Decode)));
}

#[test]
fn a_gif_keeps_its_frames_and_delays() {
    let decoded = decode_gif(&one_pixel_gif(true)).unwrap();
    assert_eq!((decoded.width, decoded.height), (1, 1));
    assert_eq!(decoded.frames.len(), 1);
    let frame = &decoded.frames[0];
    assert_eq!(frame.pixels.len(), 4);
    assert!(frame.delay_denom >= 1);
    assert_eq!(frame.delay_numer, 100 * frame.delay_denom);
}

#[test]
fn a_gif_without_an_image_is_refused() {
    assert!(decode_gif(&one_pixel_gif(false)).is_err());
}
