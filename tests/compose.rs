use streamduck::compose::{
    checker, draw_background, draw_foreground, text_layers, AnimationCounters, AnimationFrame,
    AssetStore, ImageAsset, TextLayer, TextMasks,
};
use streamduck::renderer::{ButtonText, ButtonTextShadow, TextAlignment};
use streamduck::pixmap::{generate, rotate180, Fill, Pixmap};
use streamduck::renderer::{ButtonBackground, RendererComponent};

fn component(bg: ButtonBackground) -> RendererComponent {
    RendererComponent { background: bg, text: vec![], to_cache: true }
}

fn empty_assets() -> AssetStore {
    AssetStore { entries: vec![] }
}

fn no_counters() -> AnimationCounters {
    AnimationCounters { entries: vec![] }
}

fn all_pixels(p: &Pixmap) -> Vec<(u8, u8, u8, u8)> {
    p.data.chunks(4).map(|c| (c[0], c[1], c[2], c[3])).collect()
}

fn png_base64(w: u32, h: u32, color: [u8; 4]) -> String {
    let img = image::RgbaImage::from_pixel(w, h, image::Rgba(color));
    let mut out = std::io::Cursor::new(Vec::new());
    image::DynamicImage::ImageRgba8(img).write_to(&mut out, image::ImageFormat::Png).unwrap();
    base64::encode(out.into_inner())
}

#[test]
fn solid_background_with_no_text_is_uniform() {
    let missing = checker((72, 72));
    let bg = draw_background(&component(ButtonBackground::Solid((12, 34, 56, 255))), &empty_assets(), &no_counters(), (72, 72), &missing);
    let img = draw_foreground(bg, &vec![]);
    assert_eq!((img.width, img.height), (72, 72));
    assert!(all_pixels(&img).iter().all(|p| *p == (12, 34, 56, 255)));
}

#[test]
fn solid_background_drops_alpha() {
    let missing = checker((8, 8));
    let bg = draw_background(&component(ButtonBackground::Solid((1, 2, 3, 4))), &empty_assets(), &no_counters(), (8, 8), &missing);
    assert!(all_pixels(&bg).iter().all(|p| *p == (1, 2, 3, 255)));
}

#[test]
fn gradient_with_equal_endpoints_equals_solid() {
    let c = (200, 100, 50, 7);
    let missing = checker((16, 9));
    let solid = draw_background(&component(ButtonBackground::Solid(c)), &empty_assets(), &no_counters(), (16, 9), &missing);
    let h = draw_background(&component(ButtonBackground::HorizontalGradient(c, c)), &empty_assets(), &no_counters(), (16, 9), &missing);
    let v = draw_background(&component(ButtonBackground::VerticalGradient(c, c)), &empty_assets(), &no_counters(), (16, 9), &missing);
    assert_eq!(h.data, solid.data);
    assert_eq!(v.data, solid.data);
}

#[test]
fn horizontal_gradient_interpolates_across_width() {
    let img = generate(5, 2, &Fill::Horizontal((0, 0, 0, 0), (200, 100, 40, 0)));
    let px = all_pixels(&img);
    assert_eq!(px[0], (0, 0, 0, 255));
    assert_eq!(px[2], (100, 50, 20, 255));
    assert_eq!(px[4], (200, 100, 40, 255));
    assert_eq!(px[5 + 1], (50, 25, 10, 255));
    let v = generate(2, 3, &Fill::Vertical((0, 0, 0, 0), (100, 100, 100, 0)));
    let pv = all_pixels(&v);
    assert_eq!(pv[0], (0, 0, 0, 255));
    assert_eq!(pv[2], (50, 50, 50, 255));
    assert_eq!(pv[5], (100, 100, 100, 255));
}

#[test]
fn checker_pattern_tiles_sixteen_pixel_squares() {
    let img = checker((32, 32));
    let px = all_pixels(&img);
    let magenta = (255, 0, 255, 255);
    let black = (0, 0, 0, 255);
    assert_eq!(px[0], magenta);
    assert_eq!(px[8], black);
    assert_eq!(px[8 * 32], black);
    assert_eq!(px[8 * 32 + 8], magenta);
    assert_eq!(px[16], magenta);
    assert_eq!(px[31 * 32 + 31], magenta);
}

#[test]
fn new_image_empty_is_placeholder() {
    let missing = checker((72, 72));
    let bg = draw_background(&component(ButtonBackground::NewImage(String::new())), &empty_assets(), &no_counters(), (72, 72), &missing);
    assert_eq!(bg.data, missing.data);
}

#[test]
fn new_image_of_non_image_is_placeholder() {
    let missing = checker((72, 72));
    let blob = base64::encode(b"this is plainly not an image");
    let bg = draw_background(&component(ButtonBackground::NewImage(blob)), &empty_assets(), &no_counters(), (72, 72), &missing);
    assert_eq!(bg.data, missing.data);
}

#[test]
fn new_image_that_is_not_base64_is_placeholder() {
    let missing = checker((72, 72));
    let bg = draw_background(&component(ButtonBackground::NewImage("%%%not base64%%%".to_string())), &empty_assets(), &no_counters(), (72, 72), &missing);
    assert_eq!(bg.data, missing.data);
}

#[test]
fn new_image_valid_png_is_decoded_and_resized() {
    let missing = checker((72, 72));
    let blob = png_base64(4, 4, [0, 128, 255, 255]);
    let bg = draw_background(&component(ButtonBackground::NewImage(blob)), &empty_assets(), &no_counters(), (72, 72), &missing);
    assert_eq!((bg.width, bg.height), (72, 72));
    assert!(all_pixels(&bg).iter().all(|p| *p == (0, 128, 255, 255)));
}

#[test]
fn existing_image_absent_is_placeholder() {
    let missing = checker((72, 72));
    let bg = draw_background(&component(ButtonBackground::ExistingImage("absent".to_string())), &empty_assets(), &no_counters(), (72, 72), &missing);
    assert_eq!(bg.data, missing.data);
}

#[test]
fn existing_single_image_is_resized_to_key() {
    let missing = checker((10, 10));
    let small = generate(2, 2, &Fill::Solid((9, 8, 7, 255)));
    let assets = AssetStore { entries: vec![("logo".to_string(), ImageAsset::Single(small))] };
    let bg = draw_background(&component(ButtonBackground::ExistingImage("logo".to_string())), &assets, &no_counters(), (10, 10), &missing);
    assert_eq!((bg.width, bg.height), (10, 10));
    assert!(all_pixels(&bg).iter().all(|p| *p == (9, 8, 7, 255)));
}

#[test]
fn animated_image_without_counter_is_transparent_black() {
    let missing = checker((4, 4));
    let frame = AnimationFrame { image: generate(4, 4, &Fill::Solid((1, 1, 1, 255))), delay_ms: 100 };
    let assets = AssetStore { entries: vec![("anim".to_string(), ImageAsset::Animated(vec![frame]))] };
    let bg = draw_background(&component(ButtonBackground::ExistingImage("anim".to_string())), &assets, &no_counters(), (4, 4), &missing);
    assert!(all_pixels(&bg).iter().all(|p| *p == (0, 0, 0, 0)));
}

#[test]
fn missing_font_drops_text_but_keeps_background() {
    let missing = checker((6, 6));
    let bg = draw_background(&component(ButtonBackground::Solid((40, 50, 60, 255))), &empty_assets(), &no_counters(), (6, 6), &missing);
    let expected = bg.data.clone();
    let img = draw_foreground(bg, &vec![None, None]);
    assert_eq!(img.data, expected);
}

#[test]
fn text_layer_blends_by_coverage() {
    let bg = generate(2, 1, &Fill::Solid((0, 0, 0, 255)));
    let layer = TextLayer { mask: vec![255, 0], color: (255, 255, 255, 255) };
    let half = TextLayer { mask: vec![0, 255], color: (200, 100, 50, 127) };
    let img = draw_foreground(bg, &vec![Some(layer), None, Some(half)]);
    let px = all_pixels(&img);
    assert_eq!(px[0], (255, 255, 255, 255));
    assert_eq!(px[1], (99, 49, 24, 255));
}

#[test]
fn rotate180_reverses_pixels() {
    let img = Pixmap { width: 3, height: 1, data: vec![1, 1, 1, 1, 2, 2, 2, 2, 3, 3, 3, 3] };
    let r = rotate180(&img);
    assert_eq!(r.data, vec![3, 3, 3, 3, 2, 2, 2, 2, 1, 1, 1, 1]);
}

fn text(color: (u8, u8, u8, u8), shadow: Option<ButtonTextShadow>) -> ButtonText {
    ButtonText {
        text: "a".to_string(),
        font: "f".to_string(),
        scale: (100, 100),
        alignment: TextAlignment::Left,
        padding: 0,
        offset: (0, 0),
        color,
        shadow,
    }
}

#[test]
fn shadows_come_before_their_texts() {
    let texts = vec![
        text((1, 1, 1, 255), Some(ButtonTextShadow { offset: (1, 1), color: (9, 9, 9, 255) })),
        text((2, 2, 2, 255), None),
        text((3, 3, 3, 255), Some(ButtonTextShadow { offset: (1, 1), color: (8, 8, 8, 255) })),
    ];
    let masks = vec![
        Some(TextMasks { text: vec![1], shadow: vec![2] }),
        Some(TextMasks { text: vec![3], shadow: vec![] }),
        None,
    ];
    let layers = text_layers(&texts, &masks);
    assert_eq!(layers.len(), 6);
    let l0 = layers[0].as_ref().unwrap();
    assert_eq!((l0.mask.clone(), l0.color), (vec![2], (9, 9, 9, 255)));
    let l1 = layers[1].as_ref().unwrap();
    assert_eq!((l1.mask.clone(), l1.color), (vec![1], (1, 1, 1, 255)));
    assert!(layers[2].is_none());
    let l3 = layers[3].as_ref().unwrap();
    assert_eq!((l3.mask.clone(), l3.color), (vec![3], (2, 2, 2, 255)));
    assert!(layers[4].is_none());
    assert!(layers[5].is_none());
}
