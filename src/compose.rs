//! Composition of key images: backgrounds, the missing-asset placeholder and
//! text overlays.
use vstd::prelude::*;
use vstd::string::StringSliceAdditionalSpecFns;
use crate::animation::AnimationCounter;
use crate::device::str_eq;
use crate::pixmap::{generate, fill_color, pixel_of, Color, Fill, Pixmap, MAX_PIXELS};
use crate::renderer::{ButtonBackground, ButtonText, RendererComponent};

verus! {

/// One frame of an animated asset.
#[derive(Debug)]
pub struct AnimationFrame {
    pub image: Pixmap,
    pub delay_ms: u32,
}

/// A decoded asset of the image store.
#[derive(Debug)]
pub enum ImageAsset {
    Single(Pixmap),
    Animated(Vec<AnimationFrame>),
}

/// Assets by id. The first entry with an id is the one used.
#[derive(Debug)]
pub struct AssetStore {
    pub entries: Vec<(String, ImageAsset)>,
}

/// Counters of the animated assets seen so far, by asset id.
#[derive(Debug)]
pub struct AnimationCounters {
    pub entries: Vec<(String, AnimationCounter)>,
}

/// Index of the first entry whose id is `id`.
pub open spec fn first_with_id<T>(entries: Seq<(String, T)>, id: Seq<char>) -> Option<int> {
    if exists|i: int|
        0 <= i < entries.len() && #[trigger] entries[i].0@ == id && forall|j: int|
            0 <= j < i ==> #[trigger] entries[j].0@ != id {
        let i = choose|i: int|
            0 <= i < entries.len() && #[trigger] entries[i].0@ == id && forall|j: int|
                0 <= j < i ==> #[trigger] entries[j].0@ != id;
        Some(i)
    } else {
        None
    }
}

proof fn lemma_first_with_id<T>(entries: Seq<(String, T)>, id: Seq<char>, i: int)
    requires
        0 <= i < entries.len(),
        entries[i].0@ == id,
        forall|j: int| 0 <= j < i ==> #[trigger] entries[j].0@ != id,
    ensures
        first_with_id(entries, id) == Some(i),
{
    let k = choose|k: int|
        0 <= k < entries.len() && #[trigger] entries[k].0@ == id && forall|j: int|
            0 <= j < k ==> #[trigger] entries[j].0@ != id;
    if k < i {
        assert(entries[k].0@ != id);
    } else if k > i {
        assert(entries[i].0@ != id);
    }
}

/// A longer list that starts with `s` finds the same first entry for `id`.
pub proof fn lemma_first_with_id_prefix<T>(s: Seq<(String, T)>, t: Seq<(String, T)>, id: Seq<char>)
    requires
        t.len() >= s.len(),
        forall|q: int| 0 <= q < s.len() ==> #[trigger] t[q] == s[q],
        first_with_id(s, id) is Some,
    ensures
        first_with_id(t, id) == first_with_id(s, id),
{
    let j = first_with_id(s, id)->0;
    assert(t[j] == s[j]);
    assert forall|q: int| 0 <= q < j implies #[trigger] t[q].0@ != id by {
        assert(t[q] == s[q]);
    }
    lemma_first_with_id(t, id, j);
}

/// When the first entry for `id` in a longer list lies in its start `s`, it
/// is the first entry for `id` in `s` too.
pub proof fn lemma_first_with_id_shrink<T>(s: Seq<(String, T)>, t: Seq<(String, T)>, id: Seq<char>)
    requires
        t.len() >= s.len(),
        forall|q: int| 0 <= q < s.len() ==> #[trigger] t[q] == s[q],
        first_with_id(t, id) is Some,
        first_with_id(t, id)->0 < s.len(),
    ensures
        first_with_id(s, id) == first_with_id(t, id),
{
    let j = first_with_id(t, id)->0;
    assert(s[j] == t[j]);
    assert forall|q: int| 0 <= q < j implies #[trigger] s[q].0@ != id by {
        assert(s[q] == t[q]);
    }
    lemma_first_with_id(s, id, j);
}

pub(crate) fn find_asset(store: &AssetStore, id: &str) -> (r: Option<usize>)
    ensures
        r is Some ==> first_with_id(store.entries@, id@) == Some(r->0 as int),
        r is None ==> first_with_id(store.entries@, id@) is None,
{
    let mut i: usize = 0;
    while i < store.entries.len()
        invariant
            i <= store.entries@.len(),
            forall|j: int| 0 <= j < i ==> #[trigger] store.entries@[j].0@ != id@,
        decreases store.entries@.len() - i,
    {
        if str_eq(store.entries[i].0.as_str(), id) {
            proof {
                lemma_first_with_id(store.entries@, id@, i as int);
            }
            return Some(i);
        }
        i = i + 1;
    }
    None
}

pub(crate) fn find_counter(counters: &AnimationCounters, id: &str) -> (r: Option<usize>)
    ensures
        r is Some ==> first_with_id(counters.entries@, id@) == Some(r->0 as int),
        r is None ==> first_with_id(counters.entries@, id@) is None,
{
    let mut i: usize = 0;
    while i < counters.entries.len()
        invariant
            i <= counters.entries@.len(),
            forall|j: int| 0 <= j < i ==> #[trigger] counters.entries@[j].0@ != id@,
        decreases counters.entries@.len() - i,
    {
        if str_eq(counters.entries[i].0.as_str(), id) {
            proof {
                lemma_first_with_id(counters.entries@, id@, i as int);
            }
            return Some(i);
        }
        i = i + 1;
    }
    None
}

// ---- outside image work ----

/// The bytes base64 (standard alphabet, padded) decodes a string to, if valid.
pub uninterp spec fn base64_decoded(s: Seq<char>) -> Option<Seq<u8>>;

/// The RGBA image an encoded file decodes to, as width, height and bytes.
pub uninterp spec fn decoded_image(bytes: Seq<u8>) -> Option<(u32, u32, Seq<u8>)>;

/// The image resized to cover `w` by `h` with a triangle filter, then cropped.
pub uninterp spec fn resized_to_fill(img: (u32, u32, Seq<u8>), w: u32, h: u32) -> (u32, u32, Seq<u8>);

/// Relies on `base64::decode` (0.13): the standard alphabet; `Err` on invalid
/// input. It panics only when the input length plus 3 overflows.
#[verifier::external_body]
fn decode_base64(s: &str) -> (r: Option<Vec<u8>>)
    requires
        s.spec_bytes().len() + 3 <= usize::MAX,
    ensures
        (r is Some) == (base64_decoded(s@) is Some),
        r is Some ==> r->0@ == base64_decoded(s@)->0,
{
    base64::decode(s).ok()
}

/// Relies on `image::load_from_memory`: guesses the format from the leading
/// magic bytes (an empty buffer matches none) and decodes; the image is then
/// converted to 8-bit RGBA, four bytes per pixel.
#[verifier::external_body]
fn decode_image(bytes: &Vec<u8>) -> (r: Option<Pixmap>)
    ensures
        (r is Some) == (decoded_image(bytes@) is Some),
        r is Some ==> r->0@ == decoded_image(bytes@)->0,
        r is Some ==> r->0.data@.len() == 4 * (r->0.width as int * r->0.height as int),
        bytes@.len() == 0 ==> r is None,
{
    match image::load_from_memory(bytes.as_slice()) {
        Ok(img) => {
            let rgba = img.to_rgba8();
            Some(Pixmap { width: rgba.width(), height: rgba.height(), data: rgba.into_raw() })
        },
        Err(_) => None,
    }
}

/// Relies on `image::DynamicImage::resize_to_fill` with `FilterType::Triangle`;
/// the result is converted to 8-bit RGBA, four bytes per pixel.
#[verifier::external_body]
fn resize_to_fill(img: &Pixmap, w: u32, h: u32) -> (r: Pixmap)
    requires
        img.data@.len() == 4 * (img.width as int * img.height as int),
        img.width > 0,
        img.height > 0,
        w > 0,
        h > 0,
    ensures
        r@ == resized_to_fill(img@, w, h),
        r.data@.len() == 4 * (r.width as int * r.height as int),
{
    let buf = image::RgbaImage::from_raw(img.width, img.height, img.data.clone()).expect("sized");
    let out = image::DynamicImage::ImageRgba8(buf).resize_to_fill(w, h, image::imageops::FilterType::Triangle).to_rgba8();
    Pixmap { width: out.width(), height: out.height(), data: out.into_raw() }
}

// ---- backgrounds ----

/// The key resolution is usable: non-empty and within the pixel limit.
pub open spec fn size_ok(size: (u32, u32)) -> bool {
    size.0 > 0 && size.1 > 0 && size.0 as int * size.1 as int <= MAX_PIXELS
}

/// The image drawn for `img` at key resolution: the resize, when its result
/// is a well-formed image of the key's size, else the placeholder.
pub open spec fn fitted(img: (u32, u32, Seq<u8>), size: (u32, u32), missing: (u32, u32, Seq<u8>)) -> (u32, u32, Seq<u8>) {
    if img.0 > 0 && img.1 > 0 && img.2.len() == 4 * (img.0 as int * img.1 as int) {
        let r = resized_to_fill(img, size.0, size.1);
        if r.0 == size.0 && r.1 == size.1 && r.2.len() == 4 * (size.0 as int * size.1 as int) {
            r
        } else {
            missing
        }
    } else {
        missing
    }
}

/// What an inline base64 image draws as.
pub open spec fn new_image_view(blob: Seq<char>, size: (u32, u32), missing: (u32, u32, Seq<u8>)) -> (u32, u32, Seq<u8>) {
    match base64_decoded(blob) {
        Some(bytes) => match decoded_image(bytes) {
            Some(img) => fitted(img, size, missing),
            None => missing,
        },
        None => missing,
    }
}

/// Every pixel of `r`, a `size` image, is what fill `f` gives there.
pub open spec fn filled(r: Pixmap, size: (u32, u32), f: Fill) -> bool {
    &&& r.wf()
    &&& r.width == size.0
    &&& r.height == size.1
    &&& forall|x: int, y: int|
        0 <= x < size.0 && 0 <= y < size.1 ==> #[trigger] r.at(x, y) == fill_color(f, size.0 as int, size.1 as int, x, y)
}

pub open spec fn opaque(c: Color) -> Color {
    (c.0, c.1, c.2, 255u8)
}

/// The missing-asset pattern at key resolution; the text on it is drawn as
/// overlays by [`draw_foreground`].
pub fn checker(size: (u32, u32)) -> (r: Pixmap)
    requires
        size_ok(size),
    ensures
        filled(r, size, Fill::Checker),
{
    generate(size.0, size.1, &Fill::Checker)
}

fn fit(img: &Pixmap, size: (u32, u32), missing: &Pixmap) -> (r: Pixmap)
    requires
        size_ok(size),
    ensures
        r@ == fitted(img@, size, missing@),
{
    assert(img.width as int * img.height as int <= 0xffff_ffff * 0xffff_ffff) by (nonlinear_arith)
        requires img.width <= 0xffff_ffff, img.height <= 0xffff_ffff;
    let pixels: u64 = img.width as u64 * img.height as u64;
    if img.width > 0 && img.height > 0 && img.data.len() as u64 / 4 == pixels && img.data.len() % 4 == 0 {
        let out = resize_to_fill(img, size.0, size.1);
        if out.width == size.0 && out.height == size.1 {
            return out;
        }
    }
    missing.duplicate()
}

/// Draws the background of a component at key resolution `size`. Solid and
/// gradient fills are opaque; an asset missing from the store, or an inline
/// image that does not decode, draws as the placeholder `missing`; an
/// animated asset shows its counter's current frame, or transparent black
/// before it has a counter.
pub fn draw_background(
    renderer: &RendererComponent,
    assets: &AssetStore,
    counters: &AnimationCounters,
    size: (u32, u32),
    missing: &Pixmap,
) -> (r: Pixmap)
    requires
        size_ok(size),
        forall|i: int| 0 <= i < counters.entries@.len() ==> (#[trigger] counters.entries@[i]).1.wf(),
    ensures
        match renderer.background {
            ButtonBackground::Solid(c) => filled(r, size, Fill::Solid(opaque(c))),
            ButtonBackground::HorizontalGradient(s, e) => filled(r, size, Fill::Horizontal(s, e)),
            ButtonBackground::VerticalGradient(s, e) => filled(r, size, Fill::Vertical(s, e)),
            ButtonBackground::ExistingImage(id) => match first_with_id(assets.entries@, id@) {
                None => r@ == missing@,
                Some(i) => match assets.entries@[i].1 {
                    ImageAsset::Single(img) => r@ == fitted(img@, size, missing@),
                    ImageAsset::Animated(frames) => match first_with_id(counters.entries@, id@) {
                        Some(j) => {
                            let k = counters.entries@[j].1.spec_index();
                            if k < frames@.len() {
                                r@ == frames@[k].image@
                            } else {
                                filled(r, size, Fill::Solid((0u8, 0u8, 0u8, 0u8)))
                            }
                        },
                        None => filled(r, size, Fill::Solid((0u8, 0u8, 0u8, 0u8))),
                    },
                },
            },
            ButtonBackground::NewImage(blob) => vstd::utf8::encode_utf8(blob@).len() + 3 <= usize::MAX
                ==> r@ == new_image_view(blob@, size, missing@),
        },
{
    match &renderer.background {
        ButtonBackground::Solid(c) => {
            let r = generate(size.0, size.1, &Fill::Solid((c.0, c.1, c.2, 255)));
            assert(filled(r, size, Fill::Solid(opaque(*c))));
            assert(renderer.background == ButtonBackground::Solid(*c));
            r
        },
        ButtonBackground::HorizontalGradient(s, e) => generate(size.0, size.1, &Fill::Horizontal(*s, *e)),
        ButtonBackground::VerticalGradient(s, e) => generate(size.0, size.1, &Fill::Vertical(*s, *e)),
        ButtonBackground::ExistingImage(id) => {
            match find_asset(assets, id.as_str()) {
                None => missing.duplicate(),
                Some(i) => match &assets.entries[i].1 {
                    ImageAsset::Single(img) => fit(img, size, missing),
                    ImageAsset::Animated(frames) => {
                        match find_counter(counters, id.as_str()) {
                            Some(j) => {
                                let k = counters.entries[j].1.get_frame();
                                if k < frames.len() {
                                    frames[k].image.duplicate()
                                } else {
                                    generate(size.0, size.1, &Fill::Solid((0, 0, 0, 0)))
                                }
                            },
                            None => generate(size.0, size.1, &Fill::Solid((0, 0, 0, 0))),
                        }
                    },
                },
            }
        },
        ButtonBackground::NewImage(blob) => {
            let text = blob.as_str();
            let n = text.as_bytes().len();
            if n > usize::MAX - 3 {
                return missing.duplicate();
            }
            assert(text.spec_bytes().len() == n);
            match decode_base64(text) {
                None => missing.duplicate(),
                Some(bytes) => match decode_image(&bytes) {
                    None => missing.duplicate(),
                    Some(img) => fit(&img, size, missing),
                },
            }
        },
    }
}

/// An opaque solid background drawn with no text overlay comes out as that
/// colour at every pixel: `background` is what [`draw_background`] gives for
/// `Solid(c)`, `out` what [`draw_foreground`] gives for it with no layer.
pub proof fn lemma_solid_round_trip(c: Color, size: (u32, u32), background: Pixmap, out: Pixmap)
    requires
        c.3 == 255,
        filled(background, size, Fill::Solid(opaque(c))),
        out@ == background@,
    ensures
        out.wf(),
        forall|x: int, y: int| 0 <= x < size.0 && 0 <= y < size.1 ==> #[trigger] out.at(x, y) == c,
{
    assert forall|x: int, y: int| 0 <= x < size.0 && 0 <= y < size.1 implies #[trigger] out.at(x, y) == c by {
        assert(background.at(x, y) == opaque(c));
    }
}

/// A gradient whose endpoints are equal draws exactly the solid of that
/// colour, at full alpha.
pub proof fn lemma_gradient_equal_endpoints(c: Color, w: int, h: int, x: int, y: int)
    requires
        0 <= x < w,
        0 <= y < h,
    ensures
        fill_color(Fill::Horizontal(c, c), w, h, x, y) == fill_color(Fill::Solid(opaque(c)), w, h, x, y),
        fill_color(Fill::Vertical(c, c), w, h, x, y) == fill_color(Fill::Solid(opaque(c)), w, h, x, y),
{
    lemma_lerp_same(c.0, x, w);
    lemma_lerp_same(c.1, x, w);
    lemma_lerp_same(c.2, x, w);
    lemma_lerp_same(c.0, y, h);
    lemma_lerp_same(c.1, y, h);
    lemma_lerp_same(c.2, y, h);
}

proof fn lemma_lerp_same(s: u8, i: int, n: int)
    requires
        0 <= i < n,
    ensures
        crate::pixmap::lerp(s, s, i, n) == s,
{
    if n > 1 {
        assert(s as int * (n - 1 - i) + s as int * i == s as int * (n - 1)) by (nonlinear_arith);
        assert((s as int * (n - 1)) / (n - 1) == s as int) by (nonlinear_arith)
            requires n > 1;
    }
}

// ---- text overlays ----

/// A rasterised text overlay: per-pixel coverage (0 to 255) at key
/// resolution, and the colour it is drawn in.
#[derive(Debug)]
pub struct TextLayer {
    pub mask: Vec<u8>,
    pub color: Color,
}

/// `c` over `p` with opacity `a` out of 255.
pub open spec fn blend(p: u8, c: u8, a: int) -> u8 {
    ((c as int * a + p as int * (255 - a)) / 255) as u8
}

/// Opacity of a layer at one pixel: its coverage scaled by its colour's alpha.
pub open spec fn layer_alpha(coverage: u8, c: Color) -> int {
    (coverage as int * c.3 as int) / 255
}

pub open spec fn blend_pixel(p: Color, c: Color, coverage: u8) -> Color {
    let a = layer_alpha(coverage, c);
    (blend(p.0, c.0, a), blend(p.1, c.1, a), blend(p.2, c.2, a), blend(p.3, 255u8, a))
}

/// The masks rasterised for one text: the text's own, and the one drawn at
/// its shadow offset.
#[derive(Debug)]
pub struct TextMasks {
    pub text: Vec<u8>,
    pub shadow: Vec<u8>,
}

/// Layer `2 * i` of text `i` is its shadow, layer `2 * i + 1` the text
/// itself; a text whose font is missing (no masks) has neither, and a text
/// without a shadow has no shadow layer.
pub open spec fn text_layers_ok(texts: Seq<ButtonText>, masks: Seq<Option<TextMasks>>, layers: Seq<Option<TextLayer>>) -> bool {
    &&& layers.len() == 2 * texts.len()
    &&& forall|i: int| 0 <= i < texts.len() ==> {
        let sh = #[trigger] layers[2 * i];
        let tx = layers[2 * i + 1];
        &&& (sh is Some) == (masks[i] is Some && texts[i].shadow is Some)
        &&& sh is Some ==> sh->0.mask@ == masks[i]->0.shadow@ && sh->0.color == texts[i].shadow->0.color
        &&& (tx is Some) == (masks[i] is Some)
        &&& tx is Some ==> tx->0.mask@ == masks[i]->0.text@ && tx->0.color == texts[i].color
    }
}

/// Arranges the rasterised masks of a button's texts into layers, in list
/// order, each shadow before its text.
pub fn text_layers(texts: &Vec<ButtonText>, masks: &Vec<Option<TextMasks>>) -> (r: Vec<Option<TextLayer>>)
    requires
        masks@.len() == texts@.len(),
    ensures
        text_layers_ok(texts@, masks@, r@),
{
    let mut out: Vec<Option<TextLayer>> = Vec::new();
    let mut i: usize = 0;
    while i < texts.len()
        invariant
            i <= texts@.len(),
            masks@.len() == texts@.len(),
            text_layers_ok(texts@.take(i as int), masks@, out@),
        decreases texts@.len() - i,
    {
        let t = &texts[i];
        let (shadow, text) = match &masks[i] {
            None => (None, None),
            Some(m) => {
                let shadow = match &t.shadow {
                    Some(sh) => Some(TextLayer { mask: m.shadow.clone(), color: sh.color }),
                    None => None,
                };
                (shadow, Some(TextLayer { mask: m.text.clone(), color: t.color }))
            },
        };
        let ghost before = out@;
        out.push(shadow);
        out.push(text);
        proof {
            let tk = texts@.take(i as int + 1);
            assert forall|q: int| 0 <= q < tk.len() implies {
                let sh = #[trigger] out@[2 * q];
                let tx = out@[2 * q + 1];
                &&& (sh is Some) == (masks@[q] is Some && tk[q].shadow is Some)
                &&& sh is Some ==> sh->0.mask@ == masks@[q]->0.shadow@ && sh->0.color == tk[q].shadow->0.color
                &&& (tx is Some) == (masks@[q] is Some)
                &&& tx is Some ==> tx->0.mask@ == masks@[q]->0.text@ && tx->0.color == tk[q].color
            } by {
                if q < i {
                    assert(out@[2 * q] == before[2 * q]);
                    assert(out@[2 * q + 1] == before[2 * q + 1]);
                    assert(tk[q] == texts@.take(i as int)[q]);
                }
            }
        }
        i = i + 1;
    }
    assert(texts@.take(texts@.len() as int) =~= texts@);
    out
}

/// Pixel `i` after the layers, in order; an absent layer draws nothing.
pub open spec fn composite(p: Color, layers: Seq<Option<TextLayer>>, i: int) -> Color
    decreases layers.len(),
{
    if layers.len() == 0 {
        p
    } else {
        let q = composite(p, layers.drop_last(), i);
        match layers.last() {
            None => q,
            Some(l) => blend_pixel(q, l.color, l.mask@[i]),
        }
    }
}

fn blend_exec(p: u8, c: u8, a: u32) -> (r: u8)
    requires
        a <= 255,
    ensures
        r == blend(p, c, a as int),
{
    assert(c as int * a as int <= 255 * 255) by (nonlinear_arith)
        requires c <= 255, a <= 255;
    assert(p as int * (255 - a as int) <= 255 * 255) by (nonlinear_arith)
        requires p <= 255, a <= 255;
    let v: u32 = (c as u32 * a + p as u32 * (255 - a)) / 255;
    assert(v <= 255) by (nonlinear_arith)
        requires v as int == (c as int * a as int + p as int * (255 - a as int)) / 255, c <= 255, p <= 255, a <= 255;
    v as u8
}

fn apply_layer(data: &Vec<u8>, n: usize, layer: &TextLayer) -> (r: Vec<u8>)
    requires
        data@.len() == 4 * n,
        layer.mask@.len() == n,
    ensures
        r@.len() == 4 * n,
        forall|i: int| 0 <= i < n ==> #[trigger] pixel_of(r@, i) == blend_pixel(pixel_of(data@, i), layer.color, layer.mask@[i]),
{
    let c = layer.color;
    let total = data.len();
    let mut out: Vec<u8> = Vec::new();
    let mut i: usize = 0;
    while i < n
        invariant
            total == data@.len(),
            data@.len() == 4 * n,
            layer.mask@.len() == n,
            c == layer.color,
            i <= n,
            out@.len() == 4 * i,
            forall|j: int| 0 <= j < i ==> #[trigger] pixel_of(out@, j) == blend_pixel(pixel_of(data@, j), c, layer.mask@[j]),
        decreases n - i,
    {
        assert(layer.mask@[i as int] as int * c.3 as int <= 255 * 255) by (nonlinear_arith)
            requires layer.mask@[i as int] <= 255, c.3 <= 255;
        let a: u32 = (layer.mask[i] as u32 * c.3 as u32) / 255;
        let ghost before = out@;
        out.push(blend_exec(data[4 * i], c.0, a));
        out.push(blend_exec(data[4 * i + 1], c.1, a));
        out.push(blend_exec(data[4 * i + 2], c.2, a));
        out.push(blend_exec(data[4 * i + 3], 255, a));
        proof {
            assert(forall|q: int| 0 <= q < before.len() ==> out@[q] == before[q]);
            assert forall|j: int| 0 <= j < i + 1 implies #[trigger] pixel_of(out@, j) == blend_pixel(pixel_of(data@, j), c, layer.mask@[j]) by {
                if j < i {
                    assert(pixel_of(out@, j) == pixel_of(before, j));
                }
            }
        }
        i = i + 1;
    }
    out
}

/// Draws the text overlays of a button over its image, in order. A text whose
/// font is missing has no layer (`None`) and is skipped: with no layer at
/// all, the image is returned unchanged.
pub fn draw_foreground(background: Pixmap, layers: &Vec<Option<TextLayer>>) -> (r: Pixmap)
    requires
        background.wf(),
        forall|j: int| 0 <= j < layers@.len() && (#[trigger] layers@[j]) is Some ==> layers@[j]->0.mask@.len() == background.pixel_count(),
    ensures
        r.wf(),
        r.width == background.width,
        r.height == background.height,
        forall|i: int| 0 <= i < background.pixel_count() ==> #[trigger] r.pixel(i) == composite(background.pixel(i), layers@, i),
        (forall|j: int| 0 <= j < layers@.len() ==> (#[trigger] layers@[j]) is None) ==> r@ == background@,
{
    let n: usize = background.width as usize * background.height as usize;
    let mut data = background.data;
    let ghost bg = data@;
    let mut k: usize = 0;
    while k < layers.len()
        invariant
            n == background.pixel_count(),
            bg == background.data@,
            bg.len() == 4 * n,
            data@.len() == 4 * n,
            k <= layers@.len(),
            forall|j: int| 0 <= j < layers@.len() && (#[trigger] layers@[j]) is Some ==> layers@[j]->0.mask@.len() == n,
            forall|i: int| 0 <= i < n ==> #[trigger] pixel_of(data@, i) == composite(pixel_of(bg, i), layers@.take(k as int), i),
            (forall|j: int| 0 <= j < k ==> (#[trigger] layers@[j]) is None) ==> data@ == bg,
        decreases layers@.len() - k,
    {
        let ghost prev = data@;
        proof {
            assert(layers@.take(k as int + 1).drop_last() =~= layers@.take(k as int));
            assert(layers@.take(k as int + 1).last() == layers@[k as int]);
        }
        match &layers[k] {
            None => {},
            Some(layer) => {
                data = apply_layer(&data, n, layer);
            },
        }
        proof {
            assert forall|i: int| 0 <= i < n implies #[trigger] pixel_of(data@, i) == composite(pixel_of(bg, i), layers@.take(k as int + 1), i) by {
                assert(pixel_of(prev, i) == composite(pixel_of(bg, i), layers@.take(k as int), i));
            }
        }
        k = k + 1;
    }
    proof {
        assert(layers@.take(layers@.len() as int) =~= layers@);
    }
    Pixmap { width: background.width, height: background.height, data }
}

} // verus!
