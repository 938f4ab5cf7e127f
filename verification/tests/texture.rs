use space_renderer::texture::Texture;
use space_renderer::texture::TextureError;

fn png_of(image: image::DynamicImage) -> Vec<u8> {
    let mut bytes: Vec<u8> = Vec::new();
    image
        .write_to(&mut std::io::Cursor::new(&mut bytes), image::ImageFormat::Png)
        .expect("encoding a small image");
    bytes
}

/// Two by two: red and green above, blue and white below.
fn quad() -> Texture {
    Texture::from_pixels(2, 2, &vec![(255, 0, 0), (0, 255, 0), (0, 0, 255), (255, 255, 255)])
        .expect("four pixels make a two by two texture")
}

#[test]
fn pixels_are_packed_red_first() {
    let t = Texture::from_pixels(3, 1, &vec![(1, 2, 3), (0xAB, 0xCD, 0xEF), (0, 0, 0)]).unwrap();
    assert_eq!((t.width, t.height), (3, 1));
    assert_eq!(t.data, vec![0x010203, 0xABCDEF, 0]);
}

#[test]
fn pixel_count_must_match_the_size() {
    assert!(matches!(
        Texture::from_pixels(2, 2, &vec![(0, 0, 0); 3]),
        Err(TextureError::Dimensions)
    ));
    assert!(matches!(
        Texture::from_pixels(2, 2, &vec![(0, 0, 0); 5]),
        Err(TextureError::Dimensions)
    ));
    assert!(matches!(Texture::from_pixels(0, 2, &vec![]), Err(TextureError::Dimensions)));
    assert!(matches!(Texture::from_pixels(2, 0, &vec![]), Err(TextureError::Dimensions)));
    assert!(Texture::from_pixels(1, 1, &vec![(9, 9, 9)]).is_ok());
}

#[test]
fn nearest_lookup_picks_the_texel_under_the_coordinate() {
    let t = quad();
    assert_eq!(t.sample(0, 0), 0xFF0000);
    assert_eq!(t.sample(4_999, 0), 0xFF0000);
    assert_eq!(t.sample(5_000, 0), 0x00FF00);
    assert_eq!(t.sample(0, 5_000), 0x0000FF);
    assert_eq!(t.sample(9_999, 9_999), 0xFFFFFF);
}

#[test]
fn nearest_lookup_limits_the_coordinates() {
    let t = quad();
    assert_eq!(t.sample(10_000, 10_000), 0xFFFFFF);
    assert_eq!(t.sample(i32::MAX, i32::MIN), 0x00FF00);
    assert_eq!(t.sample(-1, 25_000), 0x0000FF);
}

#[test]
fn bilinear_lookup_at_a_texel_is_the_texel() {
    let t = quad();
    assert_eq!(t.sample_bilinear(0, 0), 0xFF0000);
    assert_eq!(t.sample_bilinear(5_000, 0), 0x00FF00);
    assert_eq!(t.sample_bilinear(0, 5_000), 0x0000FF);
    assert_eq!(t.sample_bilinear(5_000, 5_000), 0xFFFFFF);
}

#[test]
fn bilinear_lookup_blends_and_rounds_down() {
    let t = quad();
    // A quarter of the way along the top row: half red, half green.
    assert_eq!(t.sample_bilinear(2_500, 0), 0x7F7F00);
    // One tenth of a texel from red towards green.
    assert_eq!(t.sample_bilinear(500, 0), 0xE51900);
    // The middle of the four texels.
    assert_eq!(t.sample_bilinear(2_500, 2_500), 0x7F7F7F);
}

#[test]
fn bilinear_lookup_does_not_wrap() {
    let t = quad();
    // Past the last texel the neighbour is the last texel again.
    assert_eq!(t.sample_bilinear(7_500, 0), 0x00FF00);
    assert_eq!(t.sample_bilinear(10_000, 10_000), 0xFFFFFF);
    assert_eq!(t.sample_bilinear(30_000, -4), 0x00FF00);
    assert_eq!(t.sample_bilinear(-30_000, 10_000), 0x0000FF);
}

#[test]
fn bilinear_lookup_in_one_colour_is_that_colour() {
    let t = Texture::from_pixels(3, 2, &vec![(18, 52, 86); 6]).unwrap();
    for u in [-5, 0, 1, 3_333, 5_000, 6_667, 9_999, 10_000, 70_000] {
        for v in [0, 1, 4_999, 5_001, 10_000] {
            assert_eq!(t.sample_bilinear(u, v), 0x123456);
            assert_eq!(t.sample(u, v), 0x123456);
        }
    }
}

#[test]
fn encoded_image_is_decoded_into_packed_texels() {
    let raw: Vec<u8> = vec![255, 0, 0, 0, 255, 0, 0, 0, 255, 10, 20, 30, 1, 2, 3, 4, 5, 6];
    let image = image::RgbImage::from_raw(3, 2, raw).unwrap();
    let t = Texture::load(&png_of(image::DynamicImage::ImageRgb8(image))).unwrap();
    assert_eq!((t.width, t.height), (3, 2));
    assert_eq!(t.data, vec![0xFF0000, 0x00FF00, 0x0000FF, 0x0A141E, 0x010203, 0x040506]);
}

#[test]
fn grey_image_is_decoded_as_rgb() {
    let image = image::GrayImage::from_raw(2, 1, vec![0x40, 0xC8]).unwrap();
    let t = Texture::load(&png_of(image::DynamicImage::ImageLuma8(image))).unwrap();
    assert_eq!((t.width, t.height), (2, 1));
    assert_eq!(t.data, vec![0x404040, 0xC8C8C8]);
}

#[test]
fn transparency_is_dropped() {
    let image = image::RgbaImage::from_raw(1, 2, vec![9, 8, 7, 0, 6, 5, 4, 255]).unwrap();
    let t = Texture::load(&png_of(image::DynamicImage::ImageRgba8(image))).unwrap();
    assert_eq!(t.data, vec![0x090807, 0x060504]);
}

#[test]
fn bytes_that_are_no_image_are_refused() {
    assert!(matches!(Texture::load(b"not an image at all"), Err(TextureError::Decode(_))));
    assert!(matches!(Texture::load(&[]), Err(TextureError::Decode(_))));
    let mut cut = png_of(image::DynamicImage::ImageRgb8(
        image::RgbImage::from_raw(1, 1, vec![1, 2, 3]).unwrap(),
    ));
    cut.truncate(20);
    match Texture::load(&cut) {
        Err(TextureError::Decode(message)) => assert!(!message.is_empty()),
        other => panic!("a cut file decoded: {:?}", other),
    }
}

#[test]
fn decoder_outcome_becomes_texture_or_error() {
    let t = Texture::from_decoded(Ok((2, 1, vec![(1, 2, 3), (4, 5, 6)]))).unwrap();
    assert_eq!((t.width, t.height), (2, 1));
    assert_eq!(t.data, vec![0x010203, 0x040506]);
    assert!(matches!(
        Texture::from_decoded(Ok((2, 2, vec![(1, 2, 3), (4, 5, 6)]))),
        Err(TextureError::Dimensions)
    ));
    assert!(matches!(Texture::from_decoded(Ok((0, 0, vec![]))), Err(TextureError::Dimensions)));
    match Texture::from_decoded(Err("no such format".to_string())) {
        Err(TextureError::Decode(message)) => assert_eq!(message, "no such format"),
        other => panic!("an error became {:?}", other),
    }
}
