use imgview::decode::load_image;
use imgview::errors::ViewerError;
use imgview::geometry::compute_geometry;

#[test]
fn equal_aspect_ratios_give_unit_scale() {
    // window 1000x800, image 500x400: same aspect ratio.
    let g = compute_geometry(1000, 800, 500, 400, false).unwrap();
    assert_eq!(g.sx_num, g.sx_den);
    assert_eq!(g.sy_num, g.sy_den);
    assert!(!g.mirrored);
}

#[test]
fn wide_image_letterboxes_vertically() {
    // window 100x100, image 200x100: scaleX = 1, scaleY = 1/2.
    let g = compute_geometry(100, 100, 200, 100, false).unwrap();
    assert_eq!(g.sx_num, g.sx_den);
    assert_eq!(g.sy_num * 2, g.sy_den);
}

#[test]
fn tall_window_letterboxes_horizontally() {
    // window 400x800, image 100x100: scaleX = 800*100/(400*100) clamps to 1? No:
    // ws*is = (800/400)*(100/100) = 2, clamped to 1; scaleY = (400/800)*(100/100) = 1/2.
    let g = compute_geometry(400, 800, 100, 100, false).unwrap();
    assert_eq!(g.sx_num, g.sx_den);
    assert_eq!(g.sy_num * 2, g.sy_den);
}

#[test]
fn factors_never_exceed_one() {
    let dims = [1u32, 2, 3, 7, 99, 1000, 4096];
    for &ww in dims.iter() {
        for &wh in dims.iter() {
            for &iw in dims.iter() {
                for &ih in dims.iter() {
                    let g = compute_geometry(ww, wh, iw, ih, false).unwrap();
                    assert!(g.sx_num <= g.sx_den && g.sx_den > 0);
                    assert!(g.sy_num <= g.sy_den && g.sy_den > 0);
                }
            }
        }
    }
}

#[test]
fn mirroring_only_sets_the_flag() {
    let plain = compute_geometry(640, 480, 30, 20, false).unwrap();
    let flipped = compute_geometry(640, 480, 30, 20, true).unwrap();
    assert_eq!(plain.sx_num, flipped.sx_num);
    assert_eq!(plain.sx_den, flipped.sx_den);
    assert_eq!(plain.sy_num, flipped.sy_num);
    assert_eq!(plain.sy_den, flipped.sy_den);
    assert!(!plain.mirrored);
    assert!(flipped.mirrored);
}

#[test]
fn zero_image_dimension_rejected() {
    assert_eq!(
        compute_geometry(100, 100, 0, 50, false),
        Err(ViewerError::InvalidImageDimensions)
    );
    assert_eq!(
        compute_geometry(100, 100, 50, 0, true),
        Err(ViewerError::InvalidImageDimensions)
    );
}

fn png_bytes_2x1() -> Vec<u8> {
    // red pixel, then a semi-transparent green one
    let raw: Vec<u8> = vec![255, 0, 0, 255, 0, 255, 0, 128];
    let img = image::RgbaImage::from_raw(2, 1, raw).unwrap();
    let mut out = std::io::Cursor::new(Vec::new());
    img.write_to(&mut out, image::ImageFormat::Png).unwrap();
    out.into_inner()
}

#[test]
fn decode_round_trips_pixels() {
    let bytes = png_bytes_2x1();
    let img = load_image(&bytes).unwrap();
    assert_eq!(img.width, 2);
    assert_eq!(img.height, 1);
    assert_eq!(img.rgba, vec![255, 0, 0, 255, 0, 255, 0, 128]);
}

#[test]
fn unguessable_bytes_are_a_format_error() {
    let bytes = b"this is not an image at all".to_vec();
    assert!(matches!(load_image(&bytes), Err(ViewerError::FormatGuess)));
}

#[test]
fn corrupt_image_is_a_decode_error() {
    // a valid PNG signature followed by garbage
    let mut bytes: Vec<u8> = vec![137, 80, 78, 71, 13, 10, 26, 10];
    bytes.extend_from_slice(&[1, 2, 3, 4, 5, 6, 7, 8, 9, 10]);
    assert!(matches!(load_image(&bytes), Err(ViewerError::Decode)));
}

#[test]
fn geometry_from_decoded_image() {
    let bytes = png_bytes_2x1();
    let img = load_image(&bytes).unwrap();
    // window 100x100, image 2x1: scaleX = 1, scaleY = 1/2.
    let g = compute_geometry(100, 100, img.width, img.height, false).unwrap();
    assert_eq!(g.sx_num, g.sx_den);
    assert_eq!(g.sy_num * 2, g.sy_den);
}
