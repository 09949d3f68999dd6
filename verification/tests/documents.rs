use std::sync::Arc;

use image::codecs::jpeg::JpegEncoder;
use image::{ExtendedColorType, ImageEncoder};
use scanbro::error::AppError;
use scanbro::images::{decode_preview, is_too_slim, jpeg_part, shown, Pixels, Preview};
use scanbro::ocr::{describe_page, extract_page, OcrEngine};
use scanbro::pdf::{
    decode_pages, encode_pages, page_count, pages_to_pdf, present_pages, EmailFit,
    EMAIL_MAX_BYTES,
};

fn jpeg(width: u32, height: u32) -> Arc<Vec<u8>> {
    let mut pixels = Vec::new();
    for y in 0..height {
        for x in 0..width {
            pixels.push((x * 7 % 256) as u8);
            pixels.push((y * 5 % 256) as u8);
            pixels.push(((x + y) * 3 % 256) as u8);
        }
    }
    let mut out = Vec::new();
    JpegEncoder::new_with_quality(&mut out, 90)
        .write_image(&pixels, width, height, ExtendedColorType::Rgb8)
        .unwrap();
    Arc::new(out)
}

fn size_of(bytes: &[u8]) -> (u32, u32) {
    let image = image::load_from_memory(bytes).unwrap();
    (image.width(), image.height())
}

#[test]
fn a_jpeg_file_is_found_behind_other_bytes() {
    assert_eq!(jpeg_part(&[0xFF, 0xD8, 1]), vec![0xFF, 0xD8, 1]);
    assert_eq!(jpeg_part(&[9, 0xFF, 0xFF, 0xD8, 1]), vec![0xFF, 0xD8, 1]);
    assert_eq!(jpeg_part(&[9, 8, 0xFF]), vec![9, 8, 0xFF]);
    assert_eq!(jpeg_part(&[]), Vec::<u8>::new());
}

#[test]
fn previews_fit_the_square() {
    let p = decode_preview(&jpeg(120, 80)).unwrap();
    assert_eq!((p.width, p.height), (960, 640));
    assert_eq!(p.rgba.len(), 960 * 640 * 4);
    let mut noisy = b"--boundary\r\n".to_vec();
    noisy.extend_from_slice(&jpeg(64, 64));
    let p = decode_preview(&noisy).unwrap();
    assert_eq!((p.width, p.height), (960, 960));
    assert_eq!(p.rgba[3], 255);
}

#[test]
fn what_cannot_be_shown_has_no_preview() {
    assert!(decode_preview(b"").is_none());
    assert!(decode_preview(b"not an image").is_none());
    assert!(decode_preview(&jpeg(2000, 8)).is_none());
}

#[test]
fn slim_pages_have_no_preview() {
    assert!(is_too_slim(&Ok((153_600, 1119))));
    assert!(!is_too_slim(&Ok((153_600, 1120))));
    assert!(is_too_slim(&Ok((1119, 153_600))));
    assert!(!is_too_slim(&Ok((160_000, 1400))));
    assert!(!is_too_slim(&Err("unread".to_string())));
    let mut long = b"P5 153600 16 65535\n".to_vec();
    long.resize(long.len() + 153_600 * 16 * 2, 0xFE);
    assert!(decode_preview(&long).is_none());
    assert!(decode_preview(&jpeg(961, 7)).is_none());
    assert_eq!(decode_preview(&jpeg(960, 8)).unwrap().height, 8);
}

#[test]
fn deep_and_long_pages_have_a_preview() {
    let mut deep = b"P5 1920 1920 65535\n".to_vec();
    deep.resize(deep.len() + 1920 * 1920 * 2, 0xFE);
    let p = decode_preview(&deep).unwrap();
    assert_eq!((p.width, p.height), (960, 960));
    assert_eq!(p.rgba[..4], [254, 254, 254, 255]);
    let mut long = b"P5 16000 140 255\n".to_vec();
    long.resize(long.len() + 16_000 * 140, 0xFE);
    let p = decode_preview(&long).unwrap();
    assert_eq!((p.width, p.height), (960, 8));
}

#[test]
fn small_previews_are_dropped() {
    let p = |w: u32, h: u32| {
        Some(Preview { width: w, height: h, rgba: vec![0; (w * h * 4) as usize] })
    };
    assert!(shown(None).is_none());
    assert!(shown(p(7, 100)).is_none());
    assert!(shown(p(100, 7)).is_none());
    assert_eq!(shown(p(8, 8)).unwrap().rgba.len(), 256);
}

#[test]
fn a_pdf_has_a_page_for_every_image() {
    let pages = vec![jpeg(30, 20), Arc::new(Vec::new()), jpeg(10, 40)];
    let plan = pages_to_pdf(&pages, 300).unwrap();
    assert_eq!(plan.dpi, 300);
    assert_eq!(page_count(&plan), 2);
    let first = &plan.pages[0];
    assert_eq!((first.width, first.height), (30, 20));
    assert_eq!((first.page_id, first.content_id, first.image_id), (3, 4, 5));
    assert_eq!(first.image, pages[0]);
    let second = &plan.pages[1];
    assert_eq!((second.width, second.height), (10, 40));
    assert_eq!((second.page_id, second.content_id, second.image_id), (6, 7, 8));
    assert_eq!(second.image, pages[2]);
    assert_eq!(pages_to_pdf(&pages, 50).unwrap().dpi, 72);
    assert_eq!(present_pages(&pages).len(), 2);
}

#[test]
fn empty_pages_and_low_resolutions_do_not_count() {
    let full = vec![Arc::new(Vec::new()), jpeg(30, 20), Arc::new(Vec::new()), jpeg(10, 40)];
    let some = present_pages(&full);
    let a = pages_to_pdf(&full, 40).unwrap();
    let b = pages_to_pdf(&some, 72).unwrap();
    assert_eq!((a.dpi, b.dpi), (72, 72));
    assert_eq!(format!("{:?}", a.pages), format!("{:?}", b.pages));
    let broken = vec![Arc::new(Vec::new()), Arc::new(b"broken".to_vec())];
    assert_eq!(
        pages_to_pdf(&broken, 40).unwrap_err().message(),
        pages_to_pdf(&present_pages(&broken), 72).unwrap_err().message()
    );
}

#[test]
fn a_pdf_needs_pages_that_can_be_read() {
    assert_eq!(
        pages_to_pdf(&vec![], 300).unwrap_err().message(),
        "PDF error: no scanned pages to save"
    );
    assert_eq!(
        pages_to_pdf(&vec![Arc::new(Vec::new())], 300).unwrap_err().message(),
        "PDF error: no scanned pages to save"
    );
    match pages_to_pdf(&vec![jpeg(8, 8), Arc::new(b"broken".to_vec())], 300) {
        Err(AppError::Image(e)) => assert!(!e.is_empty()),
        other => panic!("{other:?}"),
    }
}

#[test]
fn pages_are_decoded_and_encoded_again() {
    let pages = vec![jpeg(64, 48), Arc::new(Vec::new()), jpeg(16, 16)];
    let pixels: Vec<Pixels> = decode_pages(&pages).unwrap();
    assert_eq!(pixels.len(), 2);
    assert_eq!((pixels[0].width, pixels[0].height), (64, 48));
    assert_eq!(pixels[0].data.len(), 64 * 48 * 3);
    let small = encode_pages(&pixels, &vec![(32, 24), (16, 16)], 60).unwrap();
    assert_eq!(size_of(&small[0]), (32, 24));
    assert_eq!(size_of(&small[1]), (16, 16));
    let rough = encode_pages(&pixels, &vec![(64, 48), (16, 16)], 10).unwrap();
    let fine = encode_pages(&pixels, &vec![(64, 48), (16, 16)], 95).unwrap();
    assert!(rough[0].len() < fine[0].len());
    assert!(small[0].len() < fine[0].len());
}

#[test]
fn undecodable_pages_cannot_be_encoded() {
    match decode_pages(&vec![Arc::new(b"broken".to_vec())]) {
        Err(AppError::Image(e)) => assert!(!e.is_empty()),
        other => panic!("{other:?}"),
    }
    assert_eq!(
        decode_pages(&vec![]).unwrap_err().message(),
        "PDF error: no scanned pages to save"
    );
}

#[test]
fn sizes_that_no_jpeg_file_has_are_refused() {
    let small = Pixels { width: 4, height: 1, data: vec![0; 12] };
    let wide = Pixels { width: 70_000, height: 1, data: vec![0; 210_000] };
    let cases = [(wide, (70_000, 1)), (small, (2_000_000, 3))];
    for (page, size) in cases {
        match encode_pages(&vec![page], &vec![size], 50) {
            Err(AppError::Image(e)) => assert_eq!(
                e,
                format!(
                    "Format error encoding Jpeg:\nInvalid image size ({} x {}) to encode as JPEG: \
                     width and height must be >= 1 and <= 65535",
                    size.0, size.1
                )
            ),
            other => panic!("{other:?}"),
        }
    }
}

#[test]
fn a_small_pdf_is_emailed_as_it_is() {
    assert_eq!(EMAIL_MAX_BYTES, 5_242_880);
    let fit = EmailFit::start(Ok(vec![7; EMAIL_MAX_BYTES])).unwrap();
    assert!(!fit.goes_on());
    assert_eq!(fit.finish().unwrap().len(), EMAIL_MAX_BYTES);
}

#[test]
fn a_pdf_that_fails_fails_the_email() {
    let failed = pages_to_pdf(&vec![], 300).map(|_| Vec::new());
    assert_eq!(
        EmailFit::start(failed).unwrap_err().message(),
        "PDF error: no scanned pages to save"
    );
}

#[test]
fn the_search_for_an_email_lowers_the_quality() {
    let mut fit = EmailFit::start(Ok(vec![0; EMAIL_MAX_BYTES + 9])).unwrap();
    let mut qualities = Vec::new();
    while fit.goes_on() {
        qualities.push(fit.quality);
        fit.offer(vec![0; EMAIL_MAX_BYTES + 5]);
    }
    assert_eq!(qualities, vec![78, 70, 62, 54, 46, 38, 38, 38, 38, 38]);
    assert_eq!(
        fit.finish().unwrap_err().message(),
        "PDF error: Couldn't get this PDF under 5 MB (still 5.0 MB)."
    );
}

#[test]
fn the_shortest_try_is_emailed() {
    let mut fit = EmailFit::start(Ok(vec![0; EMAIL_MAX_BYTES + 9])).unwrap();
    fit.offer(vec![1; EMAIL_MAX_BYTES + 3]);
    fit.offer(vec![2; EMAIL_MAX_BYTES + 30]);
    assert_eq!(fit.best.len(), EMAIL_MAX_BYTES + 3);
    assert!(fit.goes_on());
    fit.offer(vec![3; 100]);
    assert!(!fit.goes_on());
    assert_eq!(fit.finish().unwrap(), vec![3; 100]);
}

#[test]
fn text_is_read_only_with_a_model() {
    assert!(!OcrEngine::new().has_model());
    assert!(!OcrEngine::default().has_model());
    assert!(OcrEngine::with_model(b"weights").has_model());
    let page = jpeg(40, 30);
    assert_eq!(extract_page(&page, false, "FRONT"), "");
    assert_eq!(extract_page(&Arc::new(Vec::new()), true, "FRONT"), "");
    assert_eq!(
        extract_page(&page, true, "FRONT"),
        format!("[FRONT] 40x30  {:.1} KiB — OCR model ready.", page.len() as f32 / 1024.0)
    );
    assert!(extract_page(&Arc::new(b"x".to_vec()), true, "BACK")
        .starts_with("[BACK] decode failed: image decode error: "));
}

#[test]
fn page_texts_tell_size_and_length() {
    assert_eq!(
        describe_page(1536, Ok((2550, 4200)), true, "BACK"),
        "[BACK] 2550x4200  1.5 KiB — OCR model ready."
    );
    assert_eq!(
        describe_page(9, Err("bad".to_string()), true, "FRONT"),
        "[FRONT] decode failed: image decode error: bad"
    );
    assert_eq!(describe_page(0, Ok((1, 1)), true, "FRONT"), "");
    assert_eq!(describe_page(9, Ok((1, 1)), false, "FRONT"), "");
}
