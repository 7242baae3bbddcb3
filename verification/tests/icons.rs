use boundless_tray::icon::{icon_or_error, make_tray_icon, make_window_icon, IconError};

fn png(image: image::DynamicImage) -> Vec<u8> {
    let mut bytes: Vec<u8> = Vec::new();
    image
        .write_to(&mut std::io::Cursor::new(&mut bytes), image::ImageFormat::Png)
        .expect("encode");
    bytes
}

fn sample_rgba() -> Vec<u8> {
    (0..3 * 2 * 4).map(|i| (i * 7 + 3) as u8).collect()
}

fn sample_png() -> Vec<u8> {
    let image = image::RgbaImage::from_raw(3, 2, sample_rgba()).expect("sample");
    png(image::DynamicImage::ImageRgba8(image))
}

#[test]
fn tray_icon_asset_decodes() {
    let icon = make_tray_icon(&sample_png()).expect("tray icon asset should decode");
    assert_eq!((icon.width, icon.height), (3, 2));
    assert_eq!(icon.rgba, sample_rgba());
}

#[test]
fn window_icon_asset_decodes() {
    let icon = make_window_icon(&sample_png()).expect("window icon asset should decode");
    assert_eq!((icon.width, icon.height), (3, 2));
    assert_eq!(icon.rgba, sample_rgba());
}

#[test]
fn images_without_transparency_get_four_bytes_a_pixel() {
    let image = image::RgbImage::from_raw(1, 2, vec![1, 2, 3, 4, 5, 6]).expect("sample");
    let bytes = png(image::DynamicImage::ImageRgb8(image));
    let expected: Vec<u8> = vec![1, 2, 3, 255, 4, 5, 6, 255];
    let tray = make_tray_icon(&bytes).expect("decodes");
    assert_eq!(tray.rgba, expected);
    let window = make_window_icon(&bytes).expect("decodes");
    assert_eq!(window.rgba, expected);
    let deep = image::ImageBuffer::<image::Luma<u16>, Vec<u16>>::from_raw(1, 1, vec![65535])
        .expect("sample");
    let bytes = png(image::DynamicImage::ImageLuma16(deep));
    assert_eq!(make_tray_icon(&bytes).expect("decodes").rgba, vec![255, 255, 255, 255]);
}

#[test]
fn what_is_no_image_is_refused() {
    assert_eq!(make_tray_icon(b"no image").expect_err("refused"), IconError::TrayIcon);
    assert_eq!(make_window_icon(b"no image").expect_err("refused"), IconError::WindowIcon);
    let mut cut = sample_png();
    cut.truncate(20);
    assert_eq!(make_tray_icon(&cut).expect_err("refused"), IconError::TrayIcon);
    assert_eq!(IconError::TrayIcon.message(), "decode tray icon asset");
    assert_eq!(IconError::WindowIcon.message(), "decode window icon asset");
    assert!(icon_or_error(None, IconError::TrayIcon).is_err());
}
