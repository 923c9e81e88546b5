//! The device thread's decisions: reading input, planning redraws and
//! animated frames against the image cache, and handling commands.
use vstd::prelude::*;
use std::collections::HashMap;
use crate::animation::AnimationCounter;
use crate::cache::{animated_hash, frame_hash, renderer_hash, static_hash};
use crate::compose::{first_with_id, AnimationCounters, AssetStore, ImageAsset};
use crate::input::{InputTranslator, PollOutcome, ReadResult};
use crate::pixmap::{rotate180, rotated, Pixmap};
use crate::renderer::{ButtonBackground, RendererComponent};
use crate::runtime_core::{DeviceThreadCommunication, SDCore};

verus! {

broadcast use vstd::std_specs::hash::group_hash_axioms;

/// The wire format a device takes its key images in.
#[derive(PartialEq, Eq, Structural, Clone, Copy, Debug)]
pub enum ImageMode {
    Bmp,
    Jpeg,
}

/// The bytes the image crate encodes an RGBA image to, in BMP or JPEG.
pub uninterp spec fn encoded_image(img: (u32, u32, Seq<u8>), jpeg: bool) -> Option<Seq<u8>>;

/// Relies on `image::DynamicImage::write_to` with `ImageFormat::Bmp` or
/// `ImageFormat::Jpeg` into an in-memory buffer; `None` when it fails. The BMP
/// encoder multiplies the width by 4 in `u32` unchecked: the pixel limit keeps
/// that product in range.
#[verifier::external_body]
fn encode_image(img: &Pixmap, mode: ImageMode) -> (r: Option<Vec<u8>>)
    requires
        img.wf(),
        img.width > 0,
        img.height > 0,
    ensures
        (r is Some) == (encoded_image(img@, mode == ImageMode::Jpeg) is Some),
        r is Some ==> r->0@ == encoded_image(img@, mode == ImageMode::Jpeg)->0,
{
    let buf = image::RgbaImage::from_raw(img.width, img.height, img.data.clone()).expect("sized");
    let format = match mode {
        ImageMode::Bmp => image::ImageFormat::Bmp,
        ImageMode::Jpeg => image::ImageFormat::Jpeg,
    };
    let mut out = std::io::Cursor::new(Vec::new());
    match image::DynamicImage::ImageRgba8(buf).write_to(&mut out, format) {
        Ok(()) => Some(out.into_inner()),
        Err(_) => None,
    }
}

/// The bytes a device gets for an image: turned, then encoded. An empty
/// image has none.
pub open spec fn device_encoding(img: (u32, u32, Seq<u8>), mode: ImageMode) -> Option<Seq<u8>> {
    if img.0 == 0 || img.1 == 0 {
        None
    } else {
        encoded_image(rotated(img), mode == ImageMode::Jpeg)
    }
}

/// The device's wire form of a composed image: turned by 180 degrees, then
/// encoded in the device's format.
pub fn device_bytes(img: &Pixmap, mode: ImageMode) -> (r: Option<Vec<u8>>)
    requires
        img.wf(),
    ensures
        (r is Some) == (device_encoding(img@, mode) is Some),
        r is Some ==> r->0@ == device_encoding(img@, mode)->0,
{
    if img.width == 0 || img.height == 0 {
        return None;
    }
    let turned = rotate180(img);
    encode_image(&turned, mode)
}

/// What the device thread does to the device.
#[derive(Debug)]
pub enum DeviceOp {
    /// Show encoded bytes on a key.
    WriteImage(u8, Vec<u8>),
    /// Fill a key with black.
    ClearKey(u8),
    SetBrightness(u8),
}

/// How one key is drawn by a full redraw.
#[derive(PartialEq, Eq, Structural, Clone, Copy, Debug)]
pub enum KeyPlan {
    /// No button, or a button without a renderer: fill with black.
    Clear,
    /// The image cached under this hash is written.
    Cached(u64),
    /// The image must be composed, stored under this hash, and written.
    Compose(u64),
    /// An animated background: the animation step draws it.
    Animated,
    /// The key already shows this: nothing is written.
    Unchanged,
}

/// What the device is known to show on a key.
#[derive(PartialEq, Eq, Structural, Clone, Copy, Debug)]
pub enum Shown {
    /// Not known: the next redraw writes the key.
    Unknown,
    /// Filled with black.
    Black,
    /// The static render with this hash.
    Image(u64),
}

/// What `shown` records for key `k`; keys past its end are unknown.
pub open spec fn shown_at(shown: Seq<Shown>, k: int) -> Shown {
    if 0 <= k < shown.len() {
        shown[k]
    } else {
        Shown::Unknown
    }
}

/// What a key shows once plan `p` is carried out, having shown `prev`.
pub open spec fn shown_after(p: KeyPlan, prev: Shown) -> Shown {
    match p {
        KeyPlan::Clear => Shown::Black,
        KeyPlan::Cached(h) => Shown::Image(h),
        KeyPlan::Compose(h) => Shown::Image(h),
        KeyPlan::Animated => Shown::Unknown,
        KeyPlan::Unchanged => prev,
    }
}

/// How one animated key is drawn when its counter moved to a new frame.
#[derive(PartialEq, Eq, Structural, Clone, Copy, Debug)]
pub enum FramePlan {
    /// The encoded frame cached under this hash is written.
    Cached(u64),
    /// Frame `frame` of asset `asset` must be composed, encoded and written;
    /// the result belongs under `hash`.
    Compose { hash: u64, asset: usize, frame: usize },
}

/// The renderer drawn on `key` according to the render map, if any.
pub open spec fn mapped_renderer(core: SDCore, map: Seq<Option<usize>>, key: int) -> Option<RendererComponent> {
    if 0 <= key < map.len() && map[key] is Some && map[key]->0 < core.button_store().len() {
        core.button_store()[map[key]->0 as int].renderer
    } else {
        None
    }
}

/// The render map puts on `key` an animated asset whose counter in
/// `counters` has moved to a frame the asset has: the key is due a write.
pub open spec fn frame_due(
    core: SDCore,
    map: Seq<Option<usize>>,
    assets: Seq<(String, ImageAsset)>,
    counters: Seq<(String, AnimationCounter)>,
    key: int,
) -> bool {
    match mapped_renderer(core, map, key) {
        Some(c) => match c.background {
            ButtonBackground::ExistingImage(name) => match first_with_id(assets, name@) {
                Some(ai) => match assets[ai].1 {
                    ImageAsset::Animated(frames) => {
                        &&& 0 < frames@.len() <= 0xffff_ffff
                        &&& match first_with_id(counters, name@) {
                            Some(j) => counters[j].1.spec_new_frame() && counters[j].1.spec_index() < frames@.len(),
                            None => false,
                        }
                    },
                    ImageAsset::Single(_) => false,
                },
                None => false,
            },
            _ => false,
        },
        None => false,
    }
}

/// The frame the counter of `key`'s asset shows.
pub open spec fn due_frame(
    core: SDCore,
    map: Seq<Option<usize>>,
    counters: Seq<(String, AnimationCounter)>,
    key: int,
) -> int {
    let name = mapped_renderer(core, map, key)->0.background->ExistingImage_0;
    counters[first_with_id(counters, name@)->0].1.spec_index()
}

/// `p` is the frame plan for frame `f` of renderer `c` on a key with module
/// bytes `mb`: the hash is that of the frame; the cached frame is used
/// exactly when caching is allowed and the hash is in `encoded`.
pub open spec fn frame_plan_ok(
    p: FramePlan,
    c: RendererComponent,
    f: int,
    mb: Seq<u8>,
    assets: Seq<(String, ImageAsset)>,
    encoded: Set<u64>,
) -> bool {
    match p {
        FramePlan::Cached(h) => h == animated_hash(c, f as u64, mb) && c.to_cache && encoded.contains(h),
        FramePlan::Compose { hash, asset, frame } => {
            &&& frame == f
            &&& hash == animated_hash(c, frame as u64, mb)
            &&& !(c.to_cache && encoded.contains(hash))
            &&& c.background is ExistingImage
            &&& first_with_id(assets, c.background->ExistingImage_0@) == Some(asset as int)
            &&& assets[asset as int].1 is Animated
            &&& frame < assets[asset as int].1->Animated_0@.len()
        },
    }
}

/// A longer list of counters whose added entries show no new frame has the
/// same keys due, at the same frames.
proof fn lemma_due_stable(
    core: SDCore,
    map: Seq<Option<usize>>,
    assets: Seq<(String, ImageAsset)>,
    start: Seq<(String, AnimationCounter)>,
    cur: Seq<(String, AnimationCounter)>,
    key: int,
)
    requires
        cur.len() >= start.len(),
        forall|q: int| 0 <= q < start.len() ==> #[trigger] cur[q] == start[q],
        forall|q: int| start.len() <= q < cur.len() ==> !(#[trigger] cur[q]).1.spec_new_frame(),
    ensures
        frame_due(core, map, assets, start, key) == frame_due(core, map, assets, cur, key),
        frame_due(core, map, assets, start, key) ==> due_frame(core, map, start, key) == due_frame(core, map, cur, key),
{
    if let Some(c) = mapped_renderer(core, map, key) {
        if let ButtonBackground::ExistingImage(name) = c.background {
            if first_with_id(start, name@) is Some {
                crate::compose::lemma_first_with_id_prefix(start, cur, name@);
            } else if let Some(j) = first_with_id(cur, name@) {
                if j < start.len() {
                    crate::compose::lemma_first_with_id_shrink(start, cur, name@);
                }
                assert(!cur[j].1.spec_new_frame());
            }
        }
    }
}

/// Decoded images of static renders and encoded frames of animated ones,
/// both by content hash.
#[derive(Debug)]
pub struct RenderCache {
    pub decoded: HashMap<u64, Pixmap>,
    pub encoded: HashMap<u64, Vec<u8>>,
}

/// The background is an asset of the store that is animated.
pub open spec fn animated_asset(bg: ButtonBackground, assets: Seq<(String, ImageAsset)>) -> bool {
    match bg {
        ButtonBackground::ExistingImage(id) => match first_with_id(assets, id@) {
            Some(i) => assets[i].1 is Animated,
            None => false,
        },
        _ => false,
    }
}

/// How a full redraw draws `key`, given the hashes already in the cache and
/// what the key shows: nothing is written when it already shows the result.
pub open spec fn key_plan(
    core: SDCore,
    assets: Seq<(String, ImageAsset)>,
    module_bytes: Seq<Vec<u8>>,
    cached: Set<u64>,
    shown: Shown,
    key: u8,
) -> KeyPlan {
    match core.button_on(key) {
        None => if shown == Shown::Black {
            KeyPlan::Unchanged
        } else {
            KeyPlan::Clear
        },
        Some(b) => match b.renderer {
            None => if shown == Shown::Black {
                KeyPlan::Unchanged
            } else {
                KeyPlan::Clear
            },
            Some(c) => if animated_asset(c.background, assets) {
                KeyPlan::Animated
            } else if shown == Shown::Image(static_hash(c, module_bytes[key as int]@)) {
                KeyPlan::Unchanged
            } else if cached.contains(static_hash(c, module_bytes[key as int]@)) {
                KeyPlan::Cached(static_hash(c, module_bytes[key as int]@))
            } else {
                KeyPlan::Compose(static_hash(c, module_bytes[key as int]@))
            },
        },
    }
}

/// The render map entry a redraw leaves for `key`: the id of its button
/// when that button has a renderer.
pub open spec fn map_entry(core: SDCore, key: u8) -> Option<usize> {
    let top = core.screens().last();
    if top.contains_key(key) && core.button_store()[top[key] as int].renderer is Some {
        Some(top[key])
    } else {
        None
    }
}

/// Wait before the next tick, in microseconds: what is left of a tick of
/// `1 / pool_rate` seconds after `elapsed_us`; no wait at rate 0.
pub fn tick_wait_us(pool_rate: u32, elapsed_us: u64) -> (r: u64)
    ensures
        pool_rate == 0 ==> r == 0,
        pool_rate > 0 ==> r == (if 1_000_000int / (pool_rate as int) > elapsed_us {
            1_000_000int / (pool_rate as int) - elapsed_us
        } else {
            0
        }),
{
    if pool_rate == 0 {
        return 0;
    }
    let tick: u64 = 1_000_000 / pool_rate as u64;
    if tick > elapsed_us {
        tick - elapsed_us
    } else {
        0
    }
}

/// State the device thread owns: nothing else touches it.
#[derive(Debug)]
pub struct DeviceThread {
    pub translator: InputTranslator,
    pub counters: AnimationCounters,
    /// For each key, the button last drawn there with a renderer.
    pub render_map: Vec<Option<usize>>,
    pub cache: RenderCache,
    /// The placeholder for assets that cannot be shown.
    pub missing: Pixmap,
    pub mode: ImageMode,
    /// What each key is known to show.
    pub shown: Vec<Shown>,
}

impl DeviceThread {
    pub open spec fn wf(&self) -> bool {
        &&& self.missing.wf()
        &&& forall|i: int| 0 <= i < self.counters.entries@.len() ==> (#[trigger] self.counters.entries@[i]).1.wf()
        &&& forall|h: u64| #[trigger] self.cache.decoded@.contains_key(h) ==> self.cache.decoded@[h].wf()
    }

    /// A thread with empty caches, no counters and nothing drawn yet.
    pub fn new(missing: Pixmap, mode: ImageMode) -> (r: DeviceThread)
        requires
            missing.wf(),
        ensures
            r.wf(),
            r.render_map@.len() == 0,
            r.counters.entries@.len() == 0,
            r.cache.decoded@ == Map::<u64, Pixmap>::empty(),
            r.cache.encoded@ == Map::<u64, Vec<u8>>::empty(),
            r.mode == mode,
            r.shown@.len() == 0,
    {
        DeviceThread {
            translator: InputTranslator::new(),
            counters: AnimationCounters { entries: Vec::new() },
            render_map: Vec::new(),
            cache: RenderCache { decoded: HashMap::new(), encoded: HashMap::new() },
            missing,
            mode,
            shown: Vec::new(),
        }
    }

    /// Records what `key` shows; keys past the record are left alone.
    fn set_shown(&mut self, key: u8, what: Shown)
        ensures
            final(self).shown@ == (if (key as int) < old(self).shown@.len() {
                old(self).shown@.update(key as int, what)
            } else {
                old(self).shown@
            }),
            final(self).translator == old(self).translator,
            final(self).counters == old(self).counters,
            final(self).cache == old(self).cache,
            final(self).render_map == old(self).render_map,
            final(self).missing == old(self).missing,
            final(self).mode == old(self).mode,
    {
        if (key as usize) < self.shown.len() {
            self.shown.set(key as usize, what);
        }
    }

    /// Forgets what `key` shows, after a write to it failed: the next redraw
    /// writes it again.
    pub fn forget(&mut self, key: u8)
        ensures
            final(self).shown@ == (if (key as int) < old(self).shown@.len() {
                old(self).shown@.update(key as int, Shown::Unknown)
            } else {
                old(self).shown@
            }),
            final(self).translator == old(self).translator,
            final(self).counters == old(self).counters,
            final(self).cache == old(self).cache,
            final(self).render_map == old(self).render_map,
            final(self).missing == old(self).missing,
            final(self).mode == old(self).mode,
    {
        self.set_shown(key, Shown::Unknown);
    }

    /// Reads one report: key edges are returned for the key handler; a lost
    /// or failed device closes the core.
    pub fn read_input(&mut self, core: &mut SDCore, read: ReadResult) -> (r: Vec<(u8, bool)>)
        requires
            read is Buttons ==> read->Buttons_0@.len() <= 256,
        ensures
            (read is Hid || read is Other) ==> final(core).closed() && r@.len() == 0,
            (read is NoData) ==> r@.len() == 0 && final(core).closed() == old(core).closed(),
            read is Buttons ==> r@ == crate::input::report_edges(old(self).translator.last(), read->Buttons_0@)
                && final(core).closed() == old(core).closed(),
            final(core).screens() == old(core).screens(),
            final(core).button_store() == old(core).button_store(),
            final(core).key_count == old(core).key_count,
            read is Buttons ==> final(self).translator.last() == read->Buttons_0@,
            !(read is Buttons) ==> final(self).translator.last() == old(self).translator.last(),
            final(self).counters == old(self).counters,
            final(self).cache == old(self).cache,
            final(self).render_map == old(self).render_map,
            final(self).shown == old(self).shown,
            final(self).missing == old(self).missing,
            final(self).mode == old(self).mode,
    {
        match self.translator.poll(read) {
            PollOutcome::Edges(edges) => edges,
            PollOutcome::Idle => Vec::new(),
            PollOutcome::LostConnection => {
                core.close();
                Vec::new()
            },
            PollOutcome::Fatal => {
                core.close();
                Vec::new()
            },
        }
    }

    /// Plans a full redraw of the shown screen: one entry per key, in key
    /// order, and the render map updated to the buttons drawn.
    pub fn redraw(&mut self, core: &SDCore, assets: &AssetStore, module_bytes: &Vec<Vec<u8>>) -> (r: Vec<KeyPlan>)
        requires
            core.wf(),
            module_bytes@.len() >= core.key_count,
        ensures
            r@.len() == core.key_count,
            forall|k: int| 0 <= k < core.key_count ==> #[trigger] r@[k] == key_plan(
                *core,
                assets.entries@,
                module_bytes@,
                old(self).cache.decoded@.dom(),
                shown_at(old(self).shown@, k),
                k as u8,
            ),
            final(self).render_map@.len() == core.key_count,
            forall|k: int| 0 <= k < core.key_count ==> #[trigger] final(self).render_map@[k] == map_entry(*core, k as u8),
            final(self).shown@.len() == core.key_count,
            forall|k: int| 0 <= k < core.key_count ==> #[trigger] final(self).shown@[k] == shown_after(r@[k], shown_at(old(self).shown@, k)),
            final(self).cache == old(self).cache,
            final(self).counters == old(self).counters,
            final(self).translator == old(self).translator,
            final(self).missing == old(self).missing,
            final(self).mode == old(self).mode,
    {
        let screen = core.current_screen();
        let mut plans: Vec<KeyPlan> = Vec::new();
        let mut map: Vec<Option<usize>> = Vec::new();
        let mut shown: Vec<Shown> = Vec::new();
        let mut k: u8 = 0;
        while k < core.key_count
            invariant
                core.wf(),
                module_bytes@.len() >= core.key_count,
                screen@ == core.screens().last(),
                k <= core.key_count,
                plans@.len() == k,
                map@.len() == k,
                shown@.len() == k,
                self.cache == old(self).cache,
                self.shown == old(self).shown,
                forall|j: int| 0 <= j < k ==> #[trigger] plans@[j] == key_plan(
                    *core,
                    assets.entries@,
                    module_bytes@,
                    old(self).cache.decoded@.dom(),
                    shown_at(old(self).shown@, j),
                    j as u8,
                ),
                forall|j: int| 0 <= j < k ==> #[trigger] map@[j] == map_entry(*core, j as u8),
                forall|j: int| 0 <= j < k ==> #[trigger] shown@[j] == shown_after(plans@[j], shown_at(old(self).shown@, j)),
            decreases core.key_count - k,
        {
            proof {
                assert(core.screens().len() > 0);
                let s = core.screens().len() - 1;
                if core.screens()[s].contains_key(k) {
                    assert(core.screens()[s][k] < core.button_store().len());
                }
            }
            let prev = if (k as usize) < self.shown.len() {
                self.shown[k as usize]
            } else {
                Shown::Unknown
            };
            let (plan, entry) = match screen.get(k) {
                None => (if prev == Shown::Black { KeyPlan::Unchanged } else { KeyPlan::Clear }, None),
                Some(id) => {
                    match &core.button(id).renderer {
                        None => (if prev == Shown::Black { KeyPlan::Unchanged } else { KeyPlan::Clear }, None),
                        Some(c) => {
                            if is_animated(&c.background, assets) {
                                (KeyPlan::Animated, Some(id))
                            } else {
                                let h = renderer_hash(c, &module_bytes[k as usize]);
                                if prev == Shown::Image(h) {
                                    (KeyPlan::Unchanged, Some(id))
                                } else if self.cache.decoded.contains_key(&h) {
                                    (KeyPlan::Cached(h), Some(id))
                                } else {
                                    (KeyPlan::Compose(h), Some(id))
                                }
                            }
                        },
                    }
                },
            };
            let next = match plan {
                KeyPlan::Clear => Shown::Black,
                KeyPlan::Cached(h) => Shown::Image(h),
                KeyPlan::Compose(h) => Shown::Image(h),
                KeyPlan::Animated => Shown::Unknown,
                KeyPlan::Unchanged => prev,
            };
            plans.push(plan);
            map.push(entry);
            shown.push(next);
            k = k + 1;
        }
        self.render_map = map;
        self.shown = shown;
        plans
    }

    /// The write for a key whose plan is `Cached(hash)`; none when encoding fails.
    /// A failed encoding leaves the key unknown, so the next redraw tries again.
    pub fn write_cached(&mut self, key: u8, hash: u64) -> (r: Option<DeviceOp>)
        requires
            old(self).wf(),
            old(self).cache.decoded@.contains_key(hash),
        ensures
            final(self).wf(),
            (r is Some) == (device_encoding(old(self).cache.decoded@[hash]@, old(self).mode) is Some),
            r is Some ==> r->0 is WriteImage && r->0->WriteImage_0 == key
                && r->0->WriteImage_1@ == device_encoding(old(self).cache.decoded@[hash]@, old(self).mode)->0,
            r is Some ==> final(self).shown@ == old(self).shown@,
            r is None ==> final(self).shown@ == (if (key as int) < old(self).shown@.len() {
                old(self).shown@.update(key as int, Shown::Unknown)
            } else {
                old(self).shown@
            }),
            final(self).cache == old(self).cache,
            final(self).counters == old(self).counters,
            final(self).render_map == old(self).render_map,
            final(self).missing == old(self).missing,
            final(self).mode == old(self).mode,
    {
        let img = self.cache.decoded.get(&hash).unwrap();
        match device_bytes(img, self.mode) {
            Some(bytes) => Some(DeviceOp::WriteImage(key, bytes)),
            None => {
                self.set_shown(key, Shown::Unknown);
                None
            },
        }
    }

    /// Takes the composed image of a key whose plan is `Compose(hash)`:
    /// stores it under `hash` when the component allows caching, and returns
    /// the write for the key (none when encoding fails).
    pub fn store_composed(&mut self, key: u8, hash: u64, image: Pixmap, to_cache: bool) -> (r: Option<DeviceOp>)
        requires
            old(self).wf(),
            image.wf(),
        ensures
            final(self).wf(),
            to_cache ==> final(self).cache.decoded@ == old(self).cache.decoded@.insert(hash, image),
            !to_cache ==> final(self).cache.decoded@ == old(self).cache.decoded@,
            final(self).cache.encoded@ == old(self).cache.encoded@,
            final(self).counters == old(self).counters,
            final(self).render_map == old(self).render_map,
            final(self).missing == old(self).missing,
            final(self).mode == old(self).mode,
            (r is Some) == (device_encoding(image@, old(self).mode) is Some),
            r is Some ==> r->0 is WriteImage && r->0->WriteImage_0 == key
                && r->0->WriteImage_1@ == device_encoding(image@, old(self).mode)->0,
            r is Some ==> final(self).shown@ == old(self).shown@,
            r is None ==> final(self).shown@ == (if (key as int) < old(self).shown@.len() {
                old(self).shown@.update(key as int, Shown::Unknown)
            } else {
                old(self).shown@
            }),
    {
        let bytes = device_bytes(&image, self.mode);
        if to_cache {
            self.cache.decoded.insert(hash, image);
        }
        match bytes {
            Some(b) => Some(DeviceOp::WriteImage(key, b)),
            None => {
                self.set_shown(key, Shown::Unknown);
                None
            },
        }
    }

    /// Plans the animated keys of the render map whose counter moved to a new
    /// frame, in key order, creating counters for assets seen the first time;
    /// then moves every counter to `now`.
    pub fn process_animations(&mut self, core: &SDCore, assets: &AssetStore, module_bytes: &Vec<Vec<u8>>, now: u64) -> (r: Vec<(u8, FramePlan)>)
        requires
            old(self).wf(),
            old(self).render_map@.len() <= 256,
            module_bytes@.len() >= old(self).render_map@.len(),
        ensures
            final(self).shown == old(self).shown,
            final(self).wf(),
            final(self).render_map == old(self).render_map,
            final(self).cache == old(self).cache,
            final(self).missing == old(self).missing,
            final(self).mode == old(self).mode,
            forall|i: int, j: int| 0 <= i < j < r@.len() ==> (#[trigger] r@[i]).0 < (#[trigger] r@[j]).0,
            forall|i: int| 0 <= i < r@.len() ==> {
                let k = (#[trigger] r@[i]).0 as int;
                &&& frame_due(*core, old(self).render_map@, assets.entries@, old(self).counters.entries@, k)
                &&& frame_plan_ok(r@[i].1, mapped_renderer(*core, old(self).render_map@, k)->0,
                    due_frame(*core, old(self).render_map@, old(self).counters.entries@, k),
                    module_bytes@[k]@, assets.entries@, old(self).cache.encoded@.dom())
            },
            forall|k: int| 0 <= k < old(self).render_map@.len() && #[trigger] frame_due(*core, old(self).render_map@, assets.entries@, old(self).counters.entries@, k)
                ==> exists|i: int| 0 <= i < r@.len() && (#[trigger] r@[i]).0 == k,
            final(self).counters.entries@.len() >= old(self).counters.entries@.len(),
            forall|j: int| 0 <= j < old(self).counters.entries@.len() ==> #[trigger] final(self).counters.entries@[j].0 == old(self).counters.entries@[j].0
                && crate::animation::stepped(old(self).counters.entries@[j].1, final(self).counters.entries@[j].1, now),
    {
        let ghost start_counters = self.counters.entries@;
        let mut out: Vec<(u8, FramePlan)> = Vec::new();
        let n = self.render_map.len();
        let mut k: usize = 0;
        while k < n
            invariant
                self.wf(),
                n == self.render_map@.len(),
                n <= 256,
                module_bytes@.len() >= n,
                k <= n,
                self.render_map == old(self).render_map,
                self.cache == old(self).cache,
                self.shown == old(self).shown,
                self.missing == old(self).missing,
                self.mode == old(self).mode,
                self.counters.entries@.len() >= start_counters.len(),
                forall|j: int| 0 <= j < start_counters.len() ==> #[trigger] self.counters.entries@[j] == start_counters[j],
                forall|j: int| start_counters.len() <= j < self.counters.entries@.len() ==> !(#[trigger] self.counters.entries@[j]).1.spec_new_frame(),
                forall|i: int| 0 <= i < out@.len() ==> (#[trigger] out@[i]).0 < k,
                forall|kk: int| 0 <= kk < k && #[trigger] frame_due(*core, old(self).render_map@, assets.entries@, start_counters, kk)
                    ==> exists|i: int| 0 <= i < out@.len() && (#[trigger] out@[i]).0 == kk,
                forall|i: int, j: int| 0 <= i < j < out@.len() ==> (#[trigger] out@[i]).0 < (#[trigger] out@[j]).0,
                forall|i: int| 0 <= i < out@.len() ==> {
                    let kk = (#[trigger] out@[i]).0 as int;
                    &&& frame_due(*core, old(self).render_map@, assets.entries@, start_counters, kk)
                    &&& frame_plan_ok(out@[i].1, mapped_renderer(*core, old(self).render_map@, kk)->0,
                        due_frame(*core, old(self).render_map@, start_counters, kk),
                        module_bytes@[kk]@, assets.entries@, old(self).cache.encoded@.dom())
                },
            decreases n - k,
        {
            proof {
                lemma_due_stable(*core, old(self).render_map@, assets.entries@, start_counters, self.counters.entries@, k as int);
            }
            let ghost before = out@;
            if let Some(plan) = self.plan_key(core, assets, &module_bytes[k], k, now) {
                out.push((k as u8, plan));
                assert(out@[out@.len() - 1].0 == k);
            }
            proof {
                assert forall|kk: int| 0 <= kk < k + 1 && #[trigger] frame_due(*core, old(self).render_map@, assets.entries@, start_counters, kk)
                    implies exists|i: int| 0 <= i < out@.len() && (#[trigger] out@[i]).0 == kk by {
                    if kk < k {
                        let i = choose|i: int| 0 <= i < before.len() && (#[trigger] before[i]).0 == kk;
                        assert(out@[i] == before[i]);
                    } else {
                        assert(out@[out@.len() - 1].0 == kk);
                    }
                }
            }
            k = k + 1;
        }
        let mut j: usize = 0;
        let ghost mid = self.counters.entries@;
        while j < self.counters.entries.len()
            invariant
                self.wf(),
                j <= self.counters.entries@.len(),
                self.counters.entries@.len() == mid.len(),
                mid.len() >= start_counters.len(),
                forall|q: int| 0 <= q < start_counters.len() ==> #[trigger] mid[q] == start_counters[q],
                forall|q: int| j <= q < mid.len() ==> #[trigger] self.counters.entries@[q] == mid[q],
                forall|q: int| 0 <= q < j ==> #[trigger] self.counters.entries@[q].0 == mid[q].0
                    && crate::animation::stepped(mid[q].1, self.counters.entries@[q].1, now),
                self.render_map == old(self).render_map,
                self.cache == old(self).cache,
                self.shown == old(self).shown,
                self.missing == old(self).missing,
                self.mode == old(self).mode,
            decreases mid.len() - j,
        {
            let mut entry = self.counters.entries.remove(j);
            entry.1.step(now);
            self.counters.entries.insert(j, entry);
            j = j + 1;
        }
        out
    }

    fn plan_key(&mut self, core: &SDCore, assets: &AssetStore, mb: &Vec<u8>, k: usize, now: u64) -> (r: Option<FramePlan>)
        requires
            old(self).wf(),
            k < old(self).render_map@.len(),
        ensures
            final(self).shown == old(self).shown,
            final(self).wf(),
            final(self).render_map == old(self).render_map,
            final(self).cache == old(self).cache,
            final(self).missing == old(self).missing,
            final(self).mode == old(self).mode,
            final(self).counters.entries@.len() >= old(self).counters.entries@.len(),
            forall|j: int| 0 <= j < old(self).counters.entries@.len() ==> #[trigger] final(self).counters.entries@[j] == old(self).counters.entries@[j],
            forall|j: int| old(self).counters.entries@.len() <= j < final(self).counters.entries@.len() ==> !(#[trigger] final(self).counters.entries@[j]).1.spec_new_frame(),
            r is Some ==> mapped_renderer(*core, old(self).render_map@, k as int) is Some
                && frame_plan_ok(r->0, mapped_renderer(*core, old(self).render_map@, k as int)->0,
                    due_frame(*core, old(self).render_map@, old(self).counters.entries@, k as int),
                    mb@, assets.entries@, old(self).cache.encoded@.dom()),
            (r is Some) == frame_due(*core, old(self).render_map@, assets.entries@, old(self).counters.entries@, k as int),
    {
        let id = match self.render_map[k] {
            Some(id) => id,
            None => return None,
        };
        if id >= core.buttons.len() {
            return None;
        }
        let c = match &core.buttons[id].renderer {
            Some(c) => c,
            None => return None,
        };
        let name = match &c.background {
            ButtonBackground::ExistingImage(name) => name,
            _ => return None,
        };
        let ai = match crate::compose::find_asset(assets, name.as_str()) {
            Some(ai) => ai,
            None => return None,
        };
        let frames = match &assets.entries[ai].1 {
            ImageAsset::Animated(frames) => frames,
            ImageAsset::Single(_) => return None,
        };
        if frames.len() == 0 || frames.len() > 0xffff_ffff {
            return None;
        }
        let j = match crate::compose::find_counter(&self.counters, name.as_str()) {
            Some(j) => j,
            None => {
                let mut delays: Vec<u32> = Vec::new();
                let mut q: usize = 0;
                while q < frames.len()
                    invariant
                        q <= frames@.len(),
                        delays@.len() == q,
                    decreases frames@.len() - q,
                {
                    delays.push(frames[q].delay_ms);
                    q = q + 1;
                }
                let counter = AnimationCounter::new(delays, now);
                self.counters.entries.push((name.clone(), counter));
                self.counters.entries.len() - 1
            },
        };
        if !self.counters.entries[j].1.has_new_frame() {
            return None;
        }
        let f = self.counters.entries[j].1.get_frame();
        if f >= frames.len() {
            return None;
        }
        let h = frame_hash(c, f as u64, mb);
        if c.to_cache && self.cache.encoded.contains_key(&h) {
            Some(FramePlan::Cached(h))
        } else {
            Some(FramePlan::Compose { hash: h, asset: ai, frame: f })
        }
    }

    /// Takes the composed frame of a `Compose` plan: turns and encodes it,
    /// stores the bytes under `hash` when the component allows caching, and
    /// returns the write for the key (none when encoding fails).
    pub fn finish_frame(&mut self, key: u8, hash: u64, image: &Pixmap, to_cache: bool) -> (r: Option<DeviceOp>)
        requires
            old(self).wf(),
            image.wf(),
        ensures
            final(self).wf(),
            final(self).cache.decoded == old(self).cache.decoded,
            (to_cache && r is Some) ==> final(self).cache.encoded@.dom() == old(self).cache.encoded@.dom().insert(hash)
                && final(self).cache.encoded@[hash]@ == r->0->WriteImage_1@
                && forall|h: u64| h != hash && #[trigger] old(self).cache.encoded@.contains_key(h) ==> final(self).cache.encoded@[h] == old(self).cache.encoded@[h],
            !(to_cache && r is Some) ==> final(self).cache.encoded@ == old(self).cache.encoded@,
            final(self).counters == old(self).counters,
            final(self).render_map == old(self).render_map,
            final(self).missing == old(self).missing,
            final(self).mode == old(self).mode,
            (r is Some) == (device_encoding(image@, old(self).mode) is Some),
            r is Some ==> r->0 is WriteImage && r->0->WriteImage_0 == key
                && r->0->WriteImage_1@ == device_encoding(image@, old(self).mode)->0,
            final(self).shown@ == (if (key as int) < old(self).shown@.len() {
                old(self).shown@.update(key as int, Shown::Unknown)
            } else {
                old(self).shown@
            }),
    {
        self.set_shown(key, Shown::Unknown);
        match device_bytes(image, self.mode) {
            Some(bytes) => {
                if to_cache {
                    self.cache.encoded.insert(hash, bytes.clone());
                }
                Some(DeviceOp::WriteImage(key, bytes))
            },
            None => None,
        }
    }

    /// The write for a key whose frame plan is `Cached(hash)`.
    pub fn cached_frame(&mut self, key: u8, hash: u64) -> (r: DeviceOp)
        requires
            old(self).wf(),
            old(self).cache.encoded@.contains_key(hash),
        ensures
            final(self).wf(),
            r is WriteImage && r->WriteImage_0 == key && r->WriteImage_1@ == old(self).cache.encoded@[hash]@,
            final(self).shown@ == (if (key as int) < old(self).shown@.len() {
                old(self).shown@.update(key as int, Shown::Unknown)
            } else {
                old(self).shown@
            }),
            final(self).cache == old(self).cache,
            final(self).counters == old(self).counters,
            final(self).render_map == old(self).render_map,
            final(self).missing == old(self).missing,
            final(self).mode == old(self).mode,
    {
        let bytes = self.cache.encoded.get(&hash).unwrap().clone();
        self.set_shown(key, Shown::Unknown);
        DeviceOp::WriteImage(key, bytes)
    }

    /// Handles one command that needs no composition. A redraw is left to
    /// [`DeviceThread::redraw`]: it gives no operation here.
    pub fn process_command(&mut self, command: DeviceThreadCommunication) -> (r: Vec<DeviceOp>)
        requires
            old(self).wf(),
            command is SetButtonImage ==> command->SetButtonImage_1.wf(),
        ensures
            final(self).wf(),
            final(self).cache == old(self).cache,
            final(self).counters == old(self).counters,
            final(self).render_map == old(self).render_map,
            final(self).missing == old(self).missing,
            final(self).mode == old(self).mode,
            (command is Redraw || command is SetBrightness) ==> final(self).shown@ == old(self).shown@,
            command is ClearButtonImage ==> final(self).shown@ == (if (command->ClearButtonImage_0 as int) < old(self).shown@.len() {
                old(self).shown@.update(command->ClearButtonImage_0 as int, Shown::Black)
            } else {
                old(self).shown@
            }),
            command is SetButtonImageRaw ==> final(self).shown@ == (if (command->SetButtonImageRaw_0 as int) < old(self).shown@.len() {
                old(self).shown@.update(command->SetButtonImageRaw_0 as int, Shown::Unknown)
            } else {
                old(self).shown@
            }),
            command is SetButtonImage ==> final(self).shown@ == (if (command->SetButtonImage_0 as int) < old(self).shown@.len() {
                old(self).shown@.update(command->SetButtonImage_0 as int, Shown::Unknown)
            } else {
                old(self).shown@
            }),
            command is Redraw ==> r@.len() == 0,
            command is SetBrightness ==> r@.len() == 1 && r@[0] == DeviceOp::SetBrightness(command->SetBrightness_0),
            command is ClearButtonImage ==> r@.len() == 1 && r@[0] == DeviceOp::ClearKey(command->ClearButtonImage_0),
            command is SetButtonImageRaw ==> r@.len() == 1 && r@[0] == DeviceOp::WriteImage(
                command->SetButtonImageRaw_0,
                command->SetButtonImageRaw_1,
            ),
            command is SetButtonImage ==> r@.len() == (if device_encoding(command->SetButtonImage_1@, old(self).mode) is Some { 1int } else { 0int }),
            command is SetButtonImage ==> forall|i: int| 0 <= i < r@.len() ==> (#[trigger] r@[i]) is WriteImage
                && r@[i]->WriteImage_0 == command->SetButtonImage_0
                && r@[i]->WriteImage_1@ == device_encoding(command->SetButtonImage_1@, old(self).mode)->0,
    {
        match command {
            DeviceThreadCommunication::Redraw => Vec::new(),
            DeviceThreadCommunication::SetBrightness(b) => vec![DeviceOp::SetBrightness(b)],
            DeviceThreadCommunication::ClearButtonImage(k) => {
                self.set_shown(k, Shown::Black);
                vec![DeviceOp::ClearKey(k)]
            },
            DeviceThreadCommunication::SetButtonImageRaw(k, bytes) => {
                self.set_shown(k, Shown::Unknown);
                vec![DeviceOp::WriteImage(k, bytes)]
            },
            DeviceThreadCommunication::SetButtonImage(k, img) => {
                self.set_shown(k, Shown::Unknown);
                match device_bytes(&img, self.mode) {
                    Some(bytes) => vec![DeviceOp::WriteImage(k, bytes)],
                    None => Vec::new(),
                }
            },
        }
    }
}

fn is_animated(bg: &ButtonBackground, assets: &AssetStore) -> (r: bool)
    ensures
        r == animated_asset(*bg, assets.entries@),
{
    match bg {
        ButtonBackground::ExistingImage(id) => match crate::compose::find_asset(assets, id.as_str()) {
            Some(i) => match &assets.entries[i].1 {
                ImageAsset::Animated(_) => true,
                ImageAsset::Single(_) => false,
            },
            None => false,
        },
        _ => false,
    }
}

/// A second redraw with nothing changed writes nothing: once the plans of a
/// redraw are carried out, planning again (with any cache contents) leaves
/// every key unchanged, or to the animation step when it is animated.
/// `shown` is what the key showed before the first redraw.
pub proof fn lemma_redraw_idempotent(
    core: SDCore,
    assets: Seq<(String, ImageAsset)>,
    module_bytes: Seq<Vec<u8>>,
    first_cache: Set<u64>,
    second_cache: Set<u64>,
    shown: Shown,
    key: u8,
)
    ensures
        ({
            let first = key_plan(core, assets, module_bytes, first_cache, shown, key);
            let second = key_plan(core, assets, module_bytes, second_cache, shown_after(first, shown), key);
            second == KeyPlan::Unchanged || (second == KeyPlan::Animated && first == KeyPlan::Animated)
        }),
{
}

/// Two cores that show, on `key`, buttons that look the same (or no renderer
/// on both), with the same module bytes, get the same plan for the key:
/// the same hash, and so the same cached or composed image.
pub proof fn lemma_plan_depends_on_look(
    a: SDCore,
    b: SDCore,
    assets: Seq<(String, ImageAsset)>,
    module_bytes: Seq<Vec<u8>>,
    cached: Set<u64>,
    shown: Shown,
    key: u8,
)
    requires
        (a.button_on(key) is Some && a.button_on(key)->0.renderer is Some) == (b.button_on(key) is Some
            && b.button_on(key)->0.renderer is Some),
        a.button_on(key) is Some && a.button_on(key)->0.renderer is Some ==> a.button_on(key)->0.renderer->0.same_look(
            &b.button_on(key)->0.renderer->0,
        ),
    ensures
        key_plan(a, assets, module_bytes, cached, shown, key) == key_plan(b, assets, module_bytes, cached, shown, key),
{
    if a.button_on(key) is Some && a.button_on(key)->0.renderer is Some {
        let ca = a.button_on(key)->0.renderer->0;
        let cb = b.button_on(key)->0.renderer->0;
        crate::cache::lemma_same_look_same_hash(ca, cb, module_bytes[key as int]@);
        match (ca.background, cb.background) {
            (ButtonBackground::ExistingImage(i), ButtonBackground::ExistingImage(j)) => {
                assert(i@ == j@);
            },
            _ => {},
        }
    }
}

} // verus!
