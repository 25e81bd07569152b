use hilen::pixels::{bytes_per_row, upload_format, PixelSize, Screenshot, TexelFormat, U8Color};

fn shot() -> Screenshot {
    let red = U8Color::const_rgb(255, 0, 0);
    let green = U8Color::const_rgb(0, 255, 0);
    Screenshot::new(vec![red, green, green, red], PixelSize { width: 2, height: 2 })
}

#[test]
fn pixels_are_read_row_after_row() {
    let shot = shot();
    assert_eq!(shot.get_pixel(1, 0), U8Color::const_rgb(0, 255, 0));
    assert_eq!(shot.get_pixel(1, 1), U8Color::const_rgb(255, 0, 0));
    assert_eq!(shot.get_pixel(0, 2), U8Color::clear());
    let empty = Screenshot::new(vec![], PixelSize { width: 0, height: 0 });
    assert_eq!(empty.get_pixel(0, 0), U8Color::clear());
}

#[test]
fn saved_bytes_are_opaque_rgba() {
    let mut shot = shot();
    shot.data[0].a = 7;
    assert_eq!(
        shot.rgba_bytes(),
        vec![255, 0, 0, 255, 0, 255, 0, 255, 0, 255, 0, 255, 255, 0, 0, 255]
    );
}

#[test]
fn upload_formats() {
    assert_eq!(upload_format(1), (1, TexelFormat::R8Unorm));
    assert_eq!(upload_format(3), (4, TexelFormat::Rgba8Unorm));
    assert_eq!(upload_format(4), (4, TexelFormat::Rgba8Unorm));
    assert_eq!(bytes_per_row(4, 100), 400);
}
