//! The `renderer` component of a button and the bytes its cache key is made of.
use vstd::prelude::*;
use vstd::string::StringSliceAdditionalSpecFns;
use vstd::utf8::encode_utf8;
use crate::pixmap::Color;

verus! {

/// Where a text overlay is placed horizontally.
#[derive(PartialEq, Eq, Structural, Clone, Copy, Debug, Hash)]
pub enum TextAlignment {
    Left,
    Center,
    Right,
}

/// A shadow drawn under a text overlay.
#[derive(Clone, Copy, Debug, Hash)]
pub struct ButtonTextShadow {
    pub offset: (i32, i32),
    pub color: Color,
}

/// A text overlay. Scale and offset are fixed-point hundredths of a pixel
/// (`round(value * 100)`): two values that round alike are the same overlay.
#[derive(Debug)]
pub struct ButtonText {
    pub text: String,
    pub font: String,
    pub scale: (i32, i32),
    pub alignment: TextAlignment,
    pub padding: u32,
    pub offset: (i32, i32),
    pub color: Color,
    pub shadow: Option<ButtonTextShadow>,
}

impl Clone for ButtonText {
    fn clone(&self) -> (r: Self)
        ensures
            r == *self,
    {
        ButtonText {
            text: self.text.clone(),
            font: self.font.clone(),
            scale: self.scale,
            alignment: self.alignment,
            padding: self.padding,
            offset: self.offset,
            color: self.color,
            shadow: self.shadow,
        }
    }
}

/// The background of a button.
#[derive(Debug)]
pub enum ButtonBackground {
    Solid(Color),
    HorizontalGradient(Color, Color),
    VerticalGradient(Color, Color),
    /// An asset of the image store, by id.
    ExistingImage(String),
    /// An image given inline as base64.
    NewImage(String),
}

impl Clone for ButtonBackground {
    fn clone(&self) -> (r: Self)
        ensures
            r == *self,
    {
        match self {
            ButtonBackground::Solid(c) => ButtonBackground::Solid(*c),
            ButtonBackground::HorizontalGradient(s, e) => ButtonBackground::HorizontalGradient(*s, *e),
            ButtonBackground::VerticalGradient(s, e) => ButtonBackground::VerticalGradient(*s, *e),
            ButtonBackground::ExistingImage(id) => ButtonBackground::ExistingImage(id.clone()),
            ButtonBackground::NewImage(blob) => ButtonBackground::NewImage(blob.clone()),
        }
    }
}

impl Default for ButtonBackground {
    fn default() -> (r: Self)
        ensures
            r == ButtonBackground::Solid((0u8, 0u8, 0u8, 0u8)),
    {
        ButtonBackground::Solid((0, 0, 0, 0))
    }
}

/// The appearance of a button: a background, text overlays drawn in order, and
/// whether renders of it may be cached.
#[derive(Debug)]
pub struct RendererComponent {
    pub background: ButtonBackground,
    pub text: Vec<ButtonText>,
    pub to_cache: bool,
}

/// The value `to_cache` takes when a configuration leaves it out.
pub fn make_true() -> (r: bool)
    ensures
        r,
{
    true
}

/// Two backgrounds of the same variant with the same payload.
pub open spec fn same_background(x: ButtonBackground, y: ButtonBackground) -> bool {
    match (x, y) {
        (ButtonBackground::Solid(c), ButtonBackground::Solid(d)) => c == d,
        (ButtonBackground::HorizontalGradient(s, e), ButtonBackground::HorizontalGradient(s2, e2)) =>
            s == s2 && e == e2,
        (ButtonBackground::VerticalGradient(s, e), ButtonBackground::VerticalGradient(s2, e2)) => s
            == s2 && e == e2,
        (ButtonBackground::ExistingImage(i), ButtonBackground::ExistingImage(j)) => i@ == j@,
        (ButtonBackground::NewImage(i), ButtonBackground::NewImage(j)) => i@ == j@,
        _ => false,
    }
}

/// Two overlays that agree on every field.
pub open spec fn same_text(t: ButtonText, u: ButtonText) -> bool {
    &&& t.text@ == u.text@
    &&& t.font@ == u.font@
    &&& t.scale == u.scale
    &&& t.alignment == u.alignment
    &&& t.padding == u.padding
    &&& t.offset == u.offset
    &&& t.color == u.color
    &&& t.shadow == u.shadow
}

impl RendererComponent {
    /// Two components that draw the same image: all but `to_cache` agree.
    pub open spec fn same_look(&self, other: &RendererComponent) -> bool {
        &&& same_background(self.background, other.background)
        &&& self.text@.len() == other.text@.len()
        &&& forall|i: int| 0 <= i < self.text@.len() ==> same_text(#[trigger] self.text@[i], other.text@[i])
    }
}

impl Clone for RendererComponent {
    fn clone(&self) -> (r: Self)
        ensures
            r.same_look(self),
            r.to_cache == self.to_cache,
    {
        let mut text: Vec<ButtonText> = Vec::new();
        let mut i: usize = 0;
        while i < self.text.len()
            invariant
                i <= self.text@.len(),
                text@ == self.text@.take(i as int),
            decreases self.text@.len() - i,
        {
            text.push(self.text[i].clone());
            proof {
                assert(self.text@.take(i as int + 1) =~= self.text@.take(i as int).push(self.text@[i as int]));
            }
            i = i + 1;
        }
        proof {
            assert(self.text@.take(self.text@.len() as int) =~= self.text@);
        }
        let background = self.background.clone();
        RendererComponent { background, text, to_cache: self.to_cache }
    }
}

impl Default for RendererComponent {
    fn default() -> (r: Self)
        ensures
            r.background == ButtonBackground::Solid((255u8, 255u8, 255u8, 255u8)),
            r.text@.len() == 0,
            r.to_cache,
    {
        RendererComponent {
            background: ButtonBackground::Solid((255, 255, 255, 255)),
            text: Vec::new(),
            to_cache: make_true(),
        }
    }
}

// ---- cache key bytes ----

pub open spec fn u32_bytes(v: u32) -> Seq<u8> {
    seq![v as u8, (v >> 8u32) as u8, (v >> 16u32) as u8, (v >> 24u32) as u8]
}

pub open spec fn u64_bytes(v: u64) -> Seq<u8> {
    u32_bytes(v as u32) + u32_bytes((v >> 32u64) as u32)
}

pub open spec fn i32_bytes(v: i32) -> Seq<u8> {
    u32_bytes(v as u32)
}

pub open spec fn color_bytes(c: Color) -> Seq<u8> {
    seq![c.0, c.1, c.2, c.3]
}

/// A string as the byte length of its UTF-8 form, then that form.
pub open spec fn str_bytes(s: Seq<char>) -> Seq<u8> {
    u64_bytes(encode_utf8(s).len() as u64) + encode_utf8(s)
}

pub open spec fn alignment_byte(a: TextAlignment) -> u8 {
    match a {
        TextAlignment::Left => 0u8,
        TextAlignment::Center => 1u8,
        TextAlignment::Right => 2u8,
    }
}

pub open spec fn shadow_bytes(s: Option<ButtonTextShadow>) -> Seq<u8> {
    match s {
        None => seq![0u8],
        Some(sh) => seq![1u8] + i32_bytes(sh.offset.0) + i32_bytes(sh.offset.1) + color_bytes(
            sh.color,
        ),
    }
}

pub open spec fn text_bytes(t: ButtonText) -> Seq<u8> {
    str_bytes(t.text@) + str_bytes(t.font@) + i32_bytes(t.scale.0) + i32_bytes(t.scale.1)
        + seq![alignment_byte(t.alignment)] + u32_bytes(t.padding) + i32_bytes(t.offset.0)
        + i32_bytes(t.offset.1) + color_bytes(t.color) + shadow_bytes(t.shadow)
}

pub open spec fn texts_bytes(ts: Seq<ButtonText>) -> Seq<u8>
    decreases ts.len(),
{
    if ts.len() == 0 {
        Seq::empty()
    } else {
        text_bytes(ts[0]) + texts_bytes(ts.drop_first())
    }
}

pub open spec fn background_bytes(b: ButtonBackground) -> Seq<u8> {
    match b {
        ButtonBackground::Solid(c) => seq![0u8] + color_bytes(c),
        ButtonBackground::HorizontalGradient(s, e) => seq![1u8] + color_bytes(s) + color_bytes(e),
        ButtonBackground::VerticalGradient(s, e) => seq![2u8] + color_bytes(s) + color_bytes(e),
        ButtonBackground::ExistingImage(id) => seq![3u8] + str_bytes(id@),
        ButtonBackground::NewImage(blob) => seq![4u8] + str_bytes(blob@),
    }
}

/// The bytes a component contributes to its cache key: the background's tag
/// and payload, the number of overlays, then each overlay in order.
/// `to_cache` takes no part.
pub open spec fn renderer_key(c: RendererComponent) -> Seq<u8> {
    background_bytes(c.background) + u64_bytes(c.text@.len() as u64) + texts_bytes(c.text@)
}

proof fn lemma_texts_bytes_append(a: Seq<ButtonText>, b: Seq<ButtonText>)
    ensures
        texts_bytes(a + b) == texts_bytes(a) + texts_bytes(b),
    decreases a.len(),
{
    if a.len() == 0 {
        assert(a + b =~= b);
        assert(texts_bytes(a) + texts_bytes(b) =~= texts_bytes(b));
    } else {
        assert((a + b).drop_first() =~= a.drop_first() + b);
        lemma_texts_bytes_append(a.drop_first(), b);
        assert(texts_bytes(a + b) =~= texts_bytes(a) + texts_bytes(b));
    }
}

fn push_u32(out: &mut Vec<u8>, v: u32)
    ensures
        final(out)@ == old(out)@ + u32_bytes(v),
{
    out.push(v as u8);
    out.push((v >> 8) as u8);
    out.push((v >> 16) as u8);
    out.push((v >> 24) as u8);
    assert(final(out)@ =~= old(out)@ + u32_bytes(v));
}

fn push_u64(out: &mut Vec<u8>, v: u64)
    ensures
        final(out)@ == old(out)@ + u64_bytes(v),
{
    push_u32(out, v as u32);
    push_u32(out, (v >> 32) as u32);
    assert(final(out)@ =~= old(out)@ + u64_bytes(v));
}

fn push_color(out: &mut Vec<u8>, c: Color)
    ensures
        final(out)@ == old(out)@ + color_bytes(c),
{
    out.push(c.0);
    out.push(c.1);
    out.push(c.2);
    out.push(c.3);
    assert(final(out)@ =~= old(out)@ + color_bytes(c));
}

fn push_str(out: &mut Vec<u8>, s: &String)
    ensures
        final(out)@ == old(out)@ + str_bytes(s@),
{
    let bytes = s.as_str().as_bytes();
    push_u64(out, bytes.len() as u64);
    let ghost start = out@;
    let mut i: usize = 0;
    while i < bytes.len()
        invariant
            i <= bytes@.len(),
            bytes@ == encode_utf8(s@),
            out@ == start + bytes@.take(i as int),
        decreases bytes@.len() - i,
    {
        out.push(bytes[i]);
        proof {
            assert(bytes@.take(i as int + 1) =~= bytes@.take(i as int).push(bytes@[i as int]));
        }
        i = i + 1;
    }
    proof {
        assert(bytes@.take(bytes@.len() as int) =~= bytes@);
    }
    assert(final(out)@ =~= old(out)@ + str_bytes(s@));
}

fn push_text(out: &mut Vec<u8>, t: &ButtonText)
    ensures
        final(out)@ == old(out)@ + text_bytes(*t),
{
    push_str(out, &t.text);
    push_str(out, &t.font);
    push_u32(out, t.scale.0 as u32);
    push_u32(out, t.scale.1 as u32);
    out.push(match t.alignment {
        TextAlignment::Left => 0u8,
        TextAlignment::Center => 1u8,
        TextAlignment::Right => 2u8,
    });
    push_u32(out, t.padding);
    push_u32(out, t.offset.0 as u32);
    push_u32(out, t.offset.1 as u32);
    push_color(out, t.color);
    match t.shadow {
        None => out.push(0u8),
        Some(sh) => {
            out.push(1u8);
            push_u32(out, sh.offset.0 as u32);
            push_u32(out, sh.offset.1 as u32);
            push_color(out, sh.color);
        },
    }
    assert(final(out)@ =~= old(out)@ + text_bytes(*t));
}

/// The key bytes of a component, as `renderer_key` states them.
pub fn renderer_key_bytes(c: &RendererComponent) -> (r: Vec<u8>)
    ensures
        r@ == renderer_key(*c),
{
    let mut out: Vec<u8> = Vec::new();
    match &c.background {
        ButtonBackground::Solid(col) => {
            out.push(0u8);
            push_color(&mut out, *col);
        },
        ButtonBackground::HorizontalGradient(s, e) => {
            out.push(1u8);
            push_color(&mut out, *s);
            push_color(&mut out, *e);
        },
        ButtonBackground::VerticalGradient(s, e) => {
            out.push(2u8);
            push_color(&mut out, *s);
            push_color(&mut out, *e);
        },
        ButtonBackground::ExistingImage(id) => {
            out.push(3u8);
            push_str(&mut out, id);
        },
        ButtonBackground::NewImage(blob) => {
            out.push(4u8);
            push_str(&mut out, blob);
        },
    }
    assert(out@ =~= background_bytes(c.background));
    push_u64(&mut out, c.text.len() as u64);
    let ghost head = out@;
    let mut i: usize = 0;
    while i < c.text.len()
        invariant
            i <= c.text@.len(),
            out@ == head + texts_bytes(c.text@.take(i as int)),
        decreases c.text@.len() - i,
    {
        push_text(&mut out, &c.text[i]);
        proof {
            let ts = c.text@;
            assert(ts.take(i as int + 1) =~= ts.take(i as int) + seq![ts[i as int]]);
            lemma_texts_bytes_append(ts.take(i as int), seq![ts[i as int]]);
            let one = seq![ts[i as int]];
            assert(one.drop_first() =~= Seq::<ButtonText>::empty());
            assert(texts_bytes(one.drop_first()) == Seq::<u8>::empty());
            assert(texts_bytes(one) =~= text_bytes(ts[i as int]));
        }
        i = i + 1;
    }
    proof {
        assert(c.text@.take(c.text@.len() as int) =~= c.text@);
    }
    out
}

// ---- the key bytes tell components apart ----

/// Every string of the component has a byte length that fits in 64 bits, and
/// so has its overlay count: true of every value a program can hold.
pub open spec fn key_fits(c: RendererComponent) -> bool {
    &&& c.text@.len() <= u64::MAX
    &&& background_fits(c.background)
    &&& forall|i: int| 0 <= i < c.text@.len() ==> text_fits(#[trigger] c.text@[i])
}

pub open spec fn str_fits(s: Seq<char>) -> bool {
    encode_utf8(s).len() <= u64::MAX
}

pub open spec fn text_fits(t: ButtonText) -> bool {
    str_fits(t.text@) && str_fits(t.font@)
}

pub open spec fn background_fits(b: ButtonBackground) -> bool {
    match b {
        ButtonBackground::ExistingImage(id) => str_fits(id@),
        ButtonBackground::NewImage(blob) => str_fits(blob@),
        _ => true,
    }
}

proof fn lemma_split(x1: Seq<u8>, y1: Seq<u8>, x2: Seq<u8>, y2: Seq<u8>)
    requires
        x1 + y1 == x2 + y2,
        x1.len() == x2.len(),
    ensures
        x1 == x2,
        y1 == y2,
{
    assert(x1 =~= (x1 + y1).subrange(0, x1.len() as int));
    assert(x2 =~= (x2 + y2).subrange(0, x2.len() as int));
    assert(y1 =~= (x1 + y1).subrange(x1.len() as int, (x1 + y1).len() as int));
    assert(y2 =~= (x2 + y2).subrange(x2.len() as int, (x2 + y2).len() as int));
}

proof fn lemma_u32_prefix(a: u32, b: u32, r1: Seq<u8>, r2: Seq<u8>)
    requires
        u32_bytes(a) + r1 == u32_bytes(b) + r2,
    ensures
        a == b,
        r1 == r2,
{
    lemma_split(u32_bytes(a), r1, u32_bytes(b), r2);
    assert(u32_bytes(a)[0] == u32_bytes(b)[0]);
    assert(u32_bytes(a)[1] == u32_bytes(b)[1]);
    assert(u32_bytes(a)[2] == u32_bytes(b)[2]);
    assert(u32_bytes(a)[3] == u32_bytes(b)[3]);
    assert(a == b) by (bit_vector)
        requires
            a as u8 == b as u8,
            (a >> 8u32) as u8 == (b >> 8u32) as u8,
            (a >> 16u32) as u8 == (b >> 16u32) as u8,
            (a >> 24u32) as u8 == (b >> 24u32) as u8,
    ;
}

proof fn lemma_u64_prefix(a: u64, b: u64, r1: Seq<u8>, r2: Seq<u8>)
    requires
        u64_bytes(a) + r1 == u64_bytes(b) + r2,
    ensures
        a == b,
        r1 == r2,
{
    let lo_a = u32_bytes(a as u32);
    let lo_b = u32_bytes(b as u32);
    let hi_a = u32_bytes((a >> 32u64) as u32);
    let hi_b = u32_bytes((b >> 32u64) as u32);
    assert(u64_bytes(a) + r1 =~= lo_a + (hi_a + r1));
    assert(u64_bytes(b) + r2 =~= lo_b + (hi_b + r2));
    lemma_u32_prefix(a as u32, b as u32, hi_a + r1, hi_b + r2);
    lemma_u32_prefix((a >> 32u64) as u32, (b >> 32u64) as u32, r1, r2);
    assert(a == b) by (bit_vector)
        requires
            a as u32 == b as u32,
            (a >> 32u64) as u32 == (b >> 32u64) as u32,
    ;
}

proof fn lemma_i32_prefix(a: i32, b: i32, r1: Seq<u8>, r2: Seq<u8>)
    requires
        i32_bytes(a) + r1 == i32_bytes(b) + r2,
    ensures
        a == b,
        r1 == r2,
{
    lemma_u32_prefix(a as u32, b as u32, r1, r2);
    assert(a == b) by (bit_vector)
        requires
            a as u32 == b as u32,
    ;
}

proof fn lemma_color_prefix(a: Color, b: Color, r1: Seq<u8>, r2: Seq<u8>)
    requires
        color_bytes(a) + r1 == color_bytes(b) + r2,
    ensures
        a == b,
        r1 == r2,
{
    lemma_split(color_bytes(a), r1, color_bytes(b), r2);
    assert(color_bytes(a)[0] == color_bytes(b)[0]);
    assert(color_bytes(a)[1] == color_bytes(b)[1]);
    assert(color_bytes(a)[2] == color_bytes(b)[2]);
    assert(color_bytes(a)[3] == color_bytes(b)[3]);
}

proof fn lemma_byte_prefix(a: u8, b: u8, r1: Seq<u8>, r2: Seq<u8>)
    requires
        seq![a] + r1 == seq![b] + r2,
    ensures
        a == b,
        r1 == r2,
{
    lemma_split(seq![a], r1, seq![b], r2);
    assert(seq![a][0] == seq![b][0]);
}

proof fn lemma_str_prefix(s: Seq<char>, t: Seq<char>, r1: Seq<u8>, r2: Seq<u8>)
    requires
        str_fits(s),
        str_fits(t),
        str_bytes(s) + r1 == str_bytes(t) + r2,
    ensures
        s == t,
        r1 == r2,
{
    let es = encode_utf8(s);
    let et = encode_utf8(t);
    assert(str_bytes(s) + r1 =~= u64_bytes(es.len() as u64) + (es + r1));
    assert(str_bytes(t) + r2 =~= u64_bytes(et.len() as u64) + (et + r2));
    lemma_u64_prefix(es.len() as u64, et.len() as u64, es + r1, et + r2);
    lemma_split(es, r1, et, r2);
    vstd::utf8::encode_utf8_decode_utf8(s);
    vstd::utf8::encode_utf8_decode_utf8(t);
}

proof fn lemma_shadow_prefix(
    a: Option<ButtonTextShadow>,
    b: Option<ButtonTextShadow>,
    r1: Seq<u8>,
    r2: Seq<u8>,
)
    requires
        shadow_bytes(a) + r1 == shadow_bytes(b) + r2,
    ensures
        a == b,
        r1 == r2,
{
    let ta: u8 = if a is Some { 1 } else { 0 };
    let tb: u8 = if b is Some { 1 } else { 0 };
    let pa = shadow_bytes(a).drop_first();
    let pb = shadow_bytes(b).drop_first();
    assert(shadow_bytes(a) + r1 =~= seq![ta] + (pa + r1));
    assert(shadow_bytes(b) + r2 =~= seq![tb] + (pb + r2));
    lemma_byte_prefix(ta, tb, pa + r1, pb + r2);
    if let Some(x) = a {
        let y = b->0;
        assert(pa + r1 =~= i32_bytes(x.offset.0) + (i32_bytes(x.offset.1) + (color_bytes(x.color) + r1)));
        assert(pb + r2 =~= i32_bytes(y.offset.0) + (i32_bytes(y.offset.1) + (color_bytes(y.color) + r2)));
        lemma_i32_prefix(x.offset.0, y.offset.0, i32_bytes(x.offset.1) + (color_bytes(x.color) + r1), i32_bytes(y.offset.1) + (color_bytes(y.color) + r2));
        lemma_i32_prefix(x.offset.1, y.offset.1, color_bytes(x.color) + r1, color_bytes(y.color) + r2);
        lemma_color_prefix(x.color, y.color, r1, r2);
    } else {
        assert(pa + r1 =~= r1);
        assert(pb + r2 =~= r2);
    }
}

proof fn lemma_assoc(x: Seq<u8>, y: Seq<u8>, z: Seq<u8>)
    ensures
        (x + y) + z == x + (y + z),
{
    assert((x + y) + z =~= x + (y + z));
}

/// The key bytes of an overlay, each field followed by the rest of the input.
proof fn lemma_text_bytes_nested(a: ButtonText, r: Seq<u8>)
    ensures
        text_bytes(a) + r == str_bytes(a.text@) + (str_bytes(a.font@) + (i32_bytes(a.scale.0) + (
        i32_bytes(a.scale.1) + (seq![alignment_byte(a.alignment)] + (u32_bytes(a.padding) + (
        i32_bytes(a.offset.0) + (i32_bytes(a.offset.1) + (color_bytes(a.color) + (shadow_bytes(
        a.shadow) + r))))))))),
{
    let a0 = str_bytes(a.text@);
    let a1 = str_bytes(a.font@);
    let a2 = i32_bytes(a.scale.0);
    let a3 = i32_bytes(a.scale.1);
    let a4 = seq![alignment_byte(a.alignment)];
    let a5 = u32_bytes(a.padding);
    let a6 = i32_bytes(a.offset.0);
    let a7 = i32_bytes(a.offset.1);
    let a8 = color_bytes(a.color);
    let a9 = shadow_bytes(a.shadow);
    let t9 = a9 + r;
    let t8 = a8 + t9;
    let t7 = a7 + t8;
    let t6 = a6 + t7;
    let t5 = a5 + t6;
    let t4 = a4 + t5;
    let t3 = a3 + t4;
    let t2 = a2 + t3;
    let t1 = a1 + t2;
    lemma_assoc(a0 + a1 + a2 + a3 + a4 + a5 + a6 + a7 + a8, a9, r);
    lemma_assoc(a0 + a1 + a2 + a3 + a4 + a5 + a6 + a7, a8, t9);
    lemma_assoc(a0 + a1 + a2 + a3 + a4 + a5 + a6, a7, t8);
    lemma_assoc(a0 + a1 + a2 + a3 + a4 + a5, a6, t7);
    lemma_assoc(a0 + a1 + a2 + a3 + a4, a5, t6);
    lemma_assoc(a0 + a1 + a2 + a3, a4, t5);
    lemma_assoc(a0 + a1 + a2, a3, t4);
    lemma_assoc(a0 + a1, a2, t3);
    lemma_assoc(a0, a1, t2);
}

proof fn lemma_text_prefix(a: ButtonText, b: ButtonText, r1: Seq<u8>, r2: Seq<u8>)
    requires
        text_fits(a),
        text_fits(b),
        text_bytes(a) + r1 == text_bytes(b) + r2,
    ensures
        same_text(a, b),
        r1 == r2,
{
    lemma_text_bytes_nested(a, r1);
    lemma_text_bytes_nested(b, r2);
    let q1 = shadow_bytes(a.shadow) + r1;
    let q2 = shadow_bytes(b.shadow) + r2;
    let p1 = color_bytes(a.color) + q1;
    let p2 = color_bytes(b.color) + q2;
    let o1 = i32_bytes(a.offset.1) + p1;
    let o2 = i32_bytes(b.offset.1) + p2;
    let n1 = i32_bytes(a.offset.0) + o1;
    let n2 = i32_bytes(b.offset.0) + o2;
    let m1 = u32_bytes(a.padding) + n1;
    let m2 = u32_bytes(b.padding) + n2;
    let l1 = seq![alignment_byte(a.alignment)] + m1;
    let l2 = seq![alignment_byte(b.alignment)] + m2;
    let k1 = i32_bytes(a.scale.1) + l1;
    let k2 = i32_bytes(b.scale.1) + l2;
    let j1 = i32_bytes(a.scale.0) + k1;
    let j2 = i32_bytes(b.scale.0) + k2;
    lemma_str_prefix(a.text@, b.text@, str_bytes(a.font@) + j1, str_bytes(b.font@) + j2);
    lemma_str_prefix(a.font@, b.font@, j1, j2);
    lemma_i32_prefix(a.scale.0, b.scale.0, k1, k2);
    lemma_i32_prefix(a.scale.1, b.scale.1, l1, l2);
    lemma_byte_prefix(alignment_byte(a.alignment), alignment_byte(b.alignment), m1, m2);
    lemma_u32_prefix(a.padding, b.padding, n1, n2);
    lemma_i32_prefix(a.offset.0, b.offset.0, o1, o2);
    lemma_i32_prefix(a.offset.1, b.offset.1, p1, p2);
    lemma_color_prefix(a.color, b.color, q1, q2);
    lemma_shadow_prefix(a.shadow, b.shadow, r1, r2);
}

proof fn lemma_texts_prefix(a: Seq<ButtonText>, b: Seq<ButtonText>, r1: Seq<u8>, r2: Seq<u8>)
    requires
        a.len() == b.len(),
        forall|i: int| 0 <= i < a.len() ==> text_fits(#[trigger] a[i]),
        forall|i: int| 0 <= i < b.len() ==> text_fits(#[trigger] b[i]),
        texts_bytes(a) + r1 == texts_bytes(b) + r2,
    ensures
        forall|i: int| 0 <= i < a.len() ==> same_text(#[trigger] a[i], b[i]),
        r1 == r2,
    decreases a.len(),
{
    if a.len() == 0 {
        assert(texts_bytes(a) + r1 =~= r1);
        assert(texts_bytes(b) + r2 =~= r2);
    } else {
        let ta = texts_bytes(a.drop_first()) + r1;
        let tb = texts_bytes(b.drop_first()) + r2;
        lemma_assoc(text_bytes(a[0]), texts_bytes(a.drop_first()), r1);
        lemma_assoc(text_bytes(b[0]), texts_bytes(b.drop_first()), r2);
        assert(text_fits(a[0]));
        assert(text_fits(b[0]));
        lemma_text_prefix(a[0], b[0], ta, tb);
        lemma_texts_prefix(a.drop_first(), b.drop_first(), r1, r2);
        assert forall|i: int| 0 <= i < a.len() implies same_text(#[trigger] a[i], b[i]) by {
            if i > 0 {
                assert(a[i] == a.drop_first()[i - 1]);
                assert(b[i] == b.drop_first()[i - 1]);
            }
        }
    }
}

proof fn lemma_background_prefix(a: ButtonBackground, b: ButtonBackground, r1: Seq<u8>, r2: Seq<u8>)
    requires
        background_fits(a),
        background_fits(b),
        background_bytes(a) + r1 == background_bytes(b) + r2,
    ensures
        same_background(a, b),
        r1 == r2,
{
    let pa = background_bytes(a).drop_first();
    let pb = background_bytes(b).drop_first();
    assert(background_bytes(a) + r1 =~= seq![background_bytes(a)[0]] + (pa + r1));
    assert(background_bytes(b) + r2 =~= seq![background_bytes(b)[0]] + (pb + r2));
    lemma_byte_prefix(background_bytes(a)[0], background_bytes(b)[0], pa + r1, pb + r2);
    match (a, b) {
        (ButtonBackground::Solid(c), ButtonBackground::Solid(d)) => {
            assert(pa =~= color_bytes(c));
            assert(pb =~= color_bytes(d));
            lemma_color_prefix(c, d, r1, r2);
        },
        (ButtonBackground::HorizontalGradient(s, e), ButtonBackground::HorizontalGradient(s2, e2)) => {
            assert(pa + r1 =~= color_bytes(s) + (color_bytes(e) + r1));
            assert(pb + r2 =~= color_bytes(s2) + (color_bytes(e2) + r2));
            lemma_color_prefix(s, s2, color_bytes(e) + r1, color_bytes(e2) + r2);
            lemma_color_prefix(e, e2, r1, r2);
        },
        (ButtonBackground::VerticalGradient(s, e), ButtonBackground::VerticalGradient(s2, e2)) => {
            assert(pa + r1 =~= color_bytes(s) + (color_bytes(e) + r1));
            assert(pb + r2 =~= color_bytes(s2) + (color_bytes(e2) + r2));
            lemma_color_prefix(s, s2, color_bytes(e) + r1, color_bytes(e2) + r2);
            lemma_color_prefix(e, e2, r1, r2);
        },
        (ButtonBackground::ExistingImage(i), ButtonBackground::ExistingImage(j)) => {
            assert(pa =~= str_bytes(i@));
            assert(pb =~= str_bytes(j@));
            lemma_str_prefix(i@, j@, r1, r2);
        },
        (ButtonBackground::NewImage(i), ButtonBackground::NewImage(j)) => {
            assert(pa =~= str_bytes(i@));
            assert(pb =~= str_bytes(j@));
            lemma_str_prefix(i@, j@, r1, r2);
        },
        _ => {},
    }
}

/// Components that differ in any field but `to_cache` have different key
/// bytes: the background variant and payload, the number of overlays, and
/// each overlay field by field all reach the key.
pub proof fn lemma_renderer_key_injective(a: RendererComponent, b: RendererComponent)
    requires
        key_fits(a),
        key_fits(b),
        renderer_key(a) == renderer_key(b),
    ensures
        a.same_look(&b),
{
    let ca = u64_bytes(a.text@.len() as u64) + texts_bytes(a.text@);
    let cb = u64_bytes(b.text@.len() as u64) + texts_bytes(b.text@);
    assert(renderer_key(a) =~= background_bytes(a.background) + ca);
    assert(renderer_key(b) =~= background_bytes(b.background) + cb);
    lemma_background_prefix(a.background, b.background, ca, cb);
    assert(ca =~= u64_bytes(a.text@.len() as u64) + (texts_bytes(a.text@) + Seq::empty()));
    assert(cb =~= u64_bytes(b.text@.len() as u64) + (texts_bytes(b.text@) + Seq::empty()));
    lemma_u64_prefix(a.text@.len() as u64, b.text@.len() as u64, texts_bytes(a.text@) + Seq::empty(), texts_bytes(b.text@) + Seq::empty());
    lemma_texts_prefix(a.text@, b.text@, Seq::empty(), Seq::empty());
}

proof fn lemma_texts_bytes_same(a: Seq<ButtonText>, b: Seq<ButtonText>)
    requires
        a.len() == b.len(),
        forall|i: int| 0 <= i < a.len() ==> same_text(#[trigger] a[i], b[i]),
    ensures
        texts_bytes(a) == texts_bytes(b),
    decreases a.len(),
{
    if a.len() > 0 {
        assert(same_text(a[0], b[0]));
        assert forall|i: int| 0 <= i < a.drop_first().len() implies same_text(
            #[trigger] a.drop_first()[i],
            b.drop_first()[i],
        ) by {
            assert(same_text(a[i + 1], b[i + 1]));
        }
        lemma_texts_bytes_same(a.drop_first(), b.drop_first());
    }
}

/// Components that look the same (a clone, or an equal value built anew)
/// have the same key bytes, whatever their `to_cache`.
pub proof fn lemma_renderer_key_same_look(a: RendererComponent, b: RendererComponent)
    requires
        a.same_look(&b),
    ensures
        renderer_key(a) == renderer_key(b),
{
    lemma_texts_bytes_same(a.text@, b.text@);
}

} // verus!
