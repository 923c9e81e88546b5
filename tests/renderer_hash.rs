use streamduck::cache::{frame_hash, hash_renderer, renderer_hash};
use streamduck::renderer::{
    make_true, renderer_key_bytes, ButtonBackground, ButtonText, ButtonTextShadow,
    RendererComponent, TextAlignment,
};

fn sample_text() -> ButtonText {
    ButtonText {
        text: "Hi".to_string(),
        font: "default".to_string(),
        scale: (1500, 1500),
        alignment: TextAlignment::Center,
        padding: 2,
        offset: (0, -1300),
        color: (255, 255, 255, 255),
        shadow: Some(ButtonTextShadow { offset: (1, 1), color: (0, 0, 0, 255) }),
    }
}

fn sample() -> RendererComponent {
    RendererComponent {
        background: ButtonBackground::Solid((10, 20, 30, 255)),
        text: vec![sample_text()],
        to_cache: true,
    }
}

#[test]
fn clone_hashes_like_original() {
    let c = sample();
    let d = c.clone();
    assert_eq!(hash_renderer(&c), hash_renderer(&d));
    assert_eq!(renderer_hash(&c, &vec![1, 2]), renderer_hash(&d, &vec![1, 2]));
    assert_eq!(frame_hash(&c, 3, &vec![]), frame_hash(&d, 3, &vec![]));
}

#[test]
fn to_cache_is_not_hashed() {
    let c = sample();
    let mut d = sample();
    d.to_cache = false;
    assert_eq!(hash_renderer(&c), hash_renderer(&d));
}

#[test]
fn each_field_changes_the_hash() {
    let base = hash_renderer(&sample());
    let mut variants: Vec<RendererComponent> = Vec::new();
    let edits: Vec<fn(&mut ButtonText)> = vec![
        |t| t.text.push('!'),
        |t| t.font = "other".to_string(),
        |t| t.scale.0 += 1,
        |t| t.scale.1 += 1,
        |t| t.alignment = TextAlignment::Left,
        |t| t.padding += 1,
        |t| t.offset.0 += 1,
        |t| t.offset.1 += 1,
        |t| t.color.3 = 0,
        |t| t.shadow = None,
        |t| t.shadow = Some(ButtonTextShadow { offset: (2, 1), color: (0, 0, 0, 255) }),
    ];
    for edit in edits {
        let mut c = sample();
        edit(&mut c.text[0]);
        variants.push(c);
    }
    let mut no_text = sample();
    no_text.text.clear();
    variants.push(no_text);
    for v in &variants {
        assert_ne!(hash_renderer(v), base);
    }
}

#[test]
fn each_background_variant_changes_the_hash() {
    let backgrounds = vec![
        ButtonBackground::Solid((1, 2, 3, 4)),
        ButtonBackground::HorizontalGradient((1, 2, 3, 4), (1, 2, 3, 4)),
        ButtonBackground::VerticalGradient((1, 2, 3, 4), (1, 2, 3, 4)),
        ButtonBackground::ExistingImage("a".to_string()),
        ButtonBackground::NewImage("a".to_string()),
    ];
    let mut hashes: Vec<u64> = Vec::new();
    for b in backgrounds {
        let c = RendererComponent { background: b, text: vec![], to_cache: true };
        hashes.push(hash_renderer(&c));
    }
    for i in 0..hashes.len() {
        for j in (i + 1)..hashes.len() {
            assert_ne!(hashes[i], hashes[j]);
        }
    }
}

#[test]
fn module_bytes_and_frame_index_change_the_hash() {
    let c = sample();
    assert_ne!(renderer_hash(&c, &vec![]), renderer_hash(&c, &vec![0]));
    assert_ne!(frame_hash(&c, 0, &vec![]), frame_hash(&c, 1, &vec![]));
    assert_eq!(renderer_hash(&c, &vec![]), hash_renderer(&c));
}

#[test]
fn key_bytes_layout() {
    let c = RendererComponent {
        background: ButtonBackground::Solid((1, 2, 3, 4)),
        text: vec![],
        to_cache: make_true(),
    };
    assert_eq!(renderer_key_bytes(&c), vec![0, 1, 2, 3, 4, 0, 0, 0, 0, 0, 0, 0, 0]);
    let d = RendererComponent {
        background: ButtonBackground::ExistingImage("ab".to_string()),
        text: vec![],
        to_cache: true,
    };
    assert_eq!(
        renderer_key_bytes(&d),
        vec![3, 2, 0, 0, 0, 0, 0, 0, 0, b'a', b'b', 0, 0, 0, 0, 0, 0, 0, 0]
    );
}

#[test]
fn defaults() {
    let c = RendererComponent::default();
    assert!(matches!(c.background, ButtonBackground::Solid((255, 255, 255, 255))));
    assert!(c.text.is_empty());
    assert!(c.to_cache);
    assert!(matches!(ButtonBackground::default(), ButtonBackground::Solid((0, 0, 0, 0))));
    assert!(make_true());
}
