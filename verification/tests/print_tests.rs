use telefax::config::{Config, LabelSize};
use image::ImageFormat;
use std::io::Cursor;
use telefax::print::{build_lp_args, crop_offset, decoded_size, fit_to_label, format_name, printer_result, OutputFormat};

fn test_config() -> Config {
    Config {
        telegram_bot_token: "test".to_string(),
        cups_printer_name: "TestPrinter".to_string(),
        cups_server_host: None,
        allowed_user_ids: vec![],
        allow_guest_printing: true,
        max_copies: 100,
        label: LabelSize {
            width_px: 1200,
            height_px: 1800,
            width_text: "4".to_string(),
            height_text: "6".to_string(),
            width_two_decimals: "4.00".to_string(),
            height_two_decimals: "6.00".to_string(),
        },
        rate_limit_override_start: None,
        rate_limit_override_end: None,
    }
}

#[test]
fn build_lp_args_basic() {
    let config = test_config();
    let args = build_lp_args("MyPrinter", 3, "png", &config, "/tmp/test.png");
    assert_eq!(args[0], "lp");
    assert!(args.contains(&"-d".to_string()));
    assert!(args.contains(&"MyPrinter".to_string()));
    assert!(args.contains(&"-n".to_string()));
    assert!(args.contains(&"3".to_string()));
    assert!(args.contains(&"-o".to_string()));
    assert!(args.contains(&"media=Custom.4x6in".to_string()));
    assert!(args.contains(&"scaling=100".to_string()));
    assert!(args.contains(&"ppi=300".to_string()));
    assert!(args.contains(&"page-left=0".to_string()));
    assert!(args.contains(&"page-right=0".to_string()));
    assert!(args.contains(&"page-top=0".to_string()));
    assert!(args.contains(&"page-bottom=0".to_string()));
    assert!(args.contains(&"page-ranges=1".to_string()));
    assert!(args.contains(&"/tmp/test.png".to_string()));
}

#[test]
fn build_lp_args_with_remote_host() {
    let mut config = test_config();
    config.cups_server_host = Some("cups.remote".to_string());
    let args = build_lp_args("MyPrinter", 1, "jpeg", &config, "/tmp/test.jpg");
    assert!(args.contains(&"-h".to_string()));
    assert!(args.contains(&"cups.remote".to_string()));
}

#[test]
fn build_lp_args_strips_trailing_zeros() {
    let mut config = test_config();
    // label_width_inches = 4.50, label_height_inches = 6.00
    config.label.width_two_decimals = "4.50".to_string();
    config.label.height_two_decimals = "6.00".to_string();
    let args = build_lp_args("P", 1, "png", &config, "/tmp/t.png");
    assert!(args.contains(&"media=Custom.4.50x6in".to_string()));
}

#[test]
fn build_lp_args_exact_order() {
    let mut config = test_config();
    config.cups_server_host = Some("h".to_string());
    config.label.width_two_decimals = "10.00".to_string();
    let args = build_lp_args("P", 12, "png", &config, "/f");
    let expected = vec![
        "lp", "-h", "h", "-d", "P", "-n", "12", "-o", "media=Custom.10x6in", "-o", "scaling=100",
        "-o", "ppi=300", "-o", "page-left=0", "-o", "page-right=0", "-o", "page-top=0", "-o",
        "page-bottom=0", "-o", "page-ranges=1", "/f",
    ];
    assert_eq!(args, expected);
}

#[test]
fn crop_is_centred() {
    assert_eq!(crop_offset(1350, 1200), 75);
    assert_eq!(crop_offset(1201, 1200), 0);
    assert_eq!(crop_offset(1203, 1200), 1);
    assert_eq!(crop_offset(1000, 1200), 0);
}

fn cover_size(width: u32, height: u32, target_w: u32, target_h: u32) -> (u32, u32) {
    let scale = (target_w as f64 / width as f64).max(target_h as f64 / height as f64);
    ((width as f64 * scale).ceil() as u32, (height as f64 * scale).ceil() as u32)
}

/// The image fitted to the test label, as the program fits it.
fn fit(buf: &[u8], config: &Config) -> (Vec<u8>, String) {
    let (w, h) = decoded_size(buf).unwrap();
    let (cw, ch) = cover_size(w, h, config.label.width_px, config.label.height_px);
    let (out, format) = fit_to_label(buf, cw, ch, config.label.width_px, config.label.height_px).unwrap();
    (out, format_name(format))
}

#[test]
fn resize_rgb_produces_jpeg() {
    let mut img = image::RgbImage::new(2000, 3000);
    for pixel in img.pixels_mut() {
        *pixel = image::Rgb([100, 150, 200]);
    }
    let mut buf = Vec::new();
    img.write_to(&mut Cursor::new(&mut buf), ImageFormat::Jpeg).unwrap();

    let config = test_config();
    let (out, fmt) = fit(&buf, &config);
    assert_eq!(fmt, "jpeg");
    assert!(!out.is_empty());
    let result_img = image::load_from_memory(&out).unwrap();
    assert_eq!(result_img.width(), config.label.width_px);
    assert_eq!(result_img.height(), config.label.height_px);
}

#[test]
fn resize_rgba_produces_png() {
    let mut img = image::RgbaImage::new(2000, 3000);
    for pixel in img.pixels_mut() {
        *pixel = image::Rgba([100, 150, 200, 128]);
    }
    let mut buf = Vec::new();
    img.write_to(&mut Cursor::new(&mut buf), ImageFormat::Png).unwrap();

    let config = test_config();
    let (out, fmt) = fit(&buf, &config);
    assert_eq!(fmt, "png");
    assert!(!out.is_empty());
    let result_img = image::load_from_memory(&out).unwrap();
    assert_eq!(result_img.width(), config.label.width_px);
    assert_eq!(result_img.height(), config.label.height_px);
}

#[test]
fn resize_small_image_scaled_up_to_label_size() {
    let img = image::RgbImage::new(100, 100);
    let mut buf = Vec::new();
    img.write_to(&mut Cursor::new(&mut buf), ImageFormat::Png).unwrap();

    let config = test_config();
    let (out, _) = fit(&buf, &config);
    let result_img = image::load_from_memory(&out).unwrap();
    assert_eq!(result_img.width(), config.label.width_px);
    assert_eq!(result_img.height(), config.label.height_px);
}

#[test]
fn resize_large_image_cover_cropped_to_label_size() {
    let mut img = image::RgbImage::new(3000, 4000);
    for pixel in img.pixels_mut() {
        *pixel = image::Rgb([50, 100, 150]);
    }
    let mut buf = Vec::new();
    img.write_to(&mut Cursor::new(&mut buf), ImageFormat::Jpeg).unwrap();

    let config = test_config();
    let (out, fmt) = fit(&buf, &config);
    assert_eq!(fmt, "jpeg");
    let result_img = image::load_from_memory(&out).unwrap();
    assert_eq!(result_img.width(), config.label.width_px);
    assert_eq!(result_img.height(), config.label.height_px);
}

#[test]
fn not_an_image_is_refused() {
    assert_eq!(decoded_size(b"hello"), None);
    assert!(fit_to_label(b"hello", 10, 10, 5, 5).is_none());
}

#[test]
fn greyscale_with_alpha_goes_out_as_png() {
    let img = image::GrayAlphaImage::new(40, 60);
    let mut buf = Vec::new();
    img.write_to(&mut Cursor::new(&mut buf), ImageFormat::Png).unwrap();
    let (out, format) = fit_to_label(&buf, 20, 30, 20, 20).unwrap();
    assert_eq!(format, OutputFormat::Png);
    let result_img = image::load_from_memory(&out).unwrap();
    assert_eq!((result_img.width(), result_img.height()), (20, 20));
    assert_eq!(format_name(OutputFormat::Jpeg), "jpeg");
}

#[test]
fn printer_results() {
    assert_eq!(printer_result(true, Some(0), "request id is P-1\n", "x"), Ok("request id is P-1\n".to_string()));
    assert_eq!(printer_result(false, Some(1), "", "no such printer"), Err("CUPS printing failed (code 1): no such printer".to_string()));
    assert_eq!(printer_result(false, None, "", "killed"), Err("CUPS printing failed (code -1): killed".to_string()));
    assert_eq!(printer_result(false, Some(-2147483648), "", ""), Err("CUPS printing failed (code -2147483648): ".to_string()));
}

#[test]
fn rgb_resize_in_proportion_matches_dynamic_resize() {
    let mut img = image::RgbImage::new(300, 400);
    for (x, y, pixel) in img.enumerate_pixels_mut() {
        *pixel = image::Rgb([(x % 256) as u8, (y % 256) as u8, ((x * y) % 251) as u8]);
    }
    let mut buf = Vec::new();
    img.write_to(&mut Cursor::new(&mut buf), ImageFormat::Jpeg).unwrap();

    let (out, format) = fit_to_label(&buf, 135, 180, 120, 180).unwrap();
    assert_eq!(format, OutputFormat::Jpeg);

    let resized = image::load_from_memory(&buf).unwrap().resize(135, 180, image::imageops::FilterType::Lanczos3);
    let mut rgb = resized.to_rgb8();
    let cropped = image::imageops::crop(&mut rgb, 7, 0, 120, 180).to_image();
    let mut expected = Vec::new();
    cropped.write_to(&mut Cursor::new(&mut expected), ImageFormat::Jpeg).unwrap();
    assert_eq!(out, expected);
}
