//! Content hashes of renderer inputs and the per-device image cache.
use vstd::prelude::*;
use std::collections::HashMap;
use crate::pixmap::Pixmap;
use crate::renderer::{renderer_key, renderer_key_bytes, u64_bytes, RendererComponent};

verus! {

broadcast use vstd::std_specs::hash::group_hash_axioms;

/// The 64-bit hash std's default hasher gives for a byte slice.
pub uninterp spec fn default_hash(bytes: Seq<u8>) -> u64;

/// Relies on `BuildHasher::hash_one` over `BuildHasherDefault<DefaultHasher>`:
/// every `DefaultHasher` made by `new`/`default` starts from the same state,
/// so the value depends on the bytes alone.
#[verifier::external_body]
fn hash_of_bytes(bytes: &Vec<u8>) -> (r: u64)
    ensures
        r == default_hash(bytes@),
{
    let builder = std::hash::BuildHasherDefault::<std::collections::hash_map::DefaultHasher>::default();
    std::hash::BuildHasher::hash_one(&builder, bytes.as_slice())
}

/// Cache key of a static render: the component's key bytes, then the bytes
/// the rendering modules contribute, in registration order.
pub open spec fn static_hash(c: RendererComponent, module_bytes: Seq<u8>) -> u64 {
    default_hash(renderer_key(c) + module_bytes)
}

/// Cache key of one frame of an animated background: the component's key
/// bytes, the frame index, then the modules' bytes.
pub open spec fn animated_hash(c: RendererComponent, frame: u64, module_bytes: Seq<u8>) -> u64 {
    default_hash(renderer_key(c) + u64_bytes(frame) + module_bytes)
}

fn append(out: &mut Vec<u8>, more: &Vec<u8>)
    ensures
        final(out)@ == old(out)@ + more@,
{
    let mut i: usize = 0;
    let ghost start = out@;
    while i < more.len()
        invariant
            i <= more@.len(),
            out@ == start + more@.take(i as int),
        decreases more@.len() - i,
    {
        out.push(more[i]);
        proof {
            assert(more@.take(i as int + 1) =~= more@.take(i as int).push(more@[i as int]));
        }
        i = i + 1;
    }
    proof {
        assert(more@.take(more@.len() as int) =~= more@);
    }
}

/// The hash of a component alone, with no module contributions.
pub fn hash_renderer(c: &RendererComponent) -> (r: u64)
    ensures
        r == default_hash(renderer_key(*c)),
{
    let bytes = renderer_key_bytes(c);
    hash_of_bytes(&bytes)
}

/// The cache key of a static render of `c`.
pub fn renderer_hash(c: &RendererComponent, module_bytes: &Vec<u8>) -> (r: u64)
    ensures
        r == static_hash(*c, module_bytes@),
{
    let mut bytes = renderer_key_bytes(c);
    append(&mut bytes, module_bytes);
    hash_of_bytes(&bytes)
}

/// The cache key of frame `frame` of an animated render of `c`.
pub fn frame_hash(c: &RendererComponent, frame: u64, module_bytes: &Vec<u8>) -> (r: u64)
    ensures
        r == animated_hash(*c, frame, module_bytes@),
{
    let mut bytes = renderer_key_bytes(c);
    let mut idx: Vec<u8> = Vec::new();
    idx.push(frame as u8);
    idx.push((frame >> 8) as u8);
    idx.push((frame >> 16) as u8);
    idx.push((frame >> 24) as u8);
    let hi: u64 = frame >> 32;
    idx.push(hi as u8);
    idx.push((hi >> 8) as u8);
    idx.push((hi >> 16) as u8);
    idx.push((hi >> 24) as u8);
    proof {
        let lo = frame as u32;
        let h = (frame >> 32u64) as u32;
        assert((frame >> 8u64) as u8 == (lo >> 8u32) as u8) by (bit_vector)
            requires lo == frame as u32;
        assert((frame >> 16u64) as u8 == (lo >> 16u32) as u8) by (bit_vector)
            requires lo == frame as u32;
        assert((frame >> 24u64) as u8 == (lo >> 24u32) as u8) by (bit_vector)
            requires lo == frame as u32;
        assert(frame as u8 == lo as u8) by (bit_vector)
            requires lo == frame as u32;
        assert(hi as u8 == h as u8) by (bit_vector)
            requires hi == frame >> 32u64, h == (frame >> 32u64) as u32;
        assert((hi >> 8u64) as u8 == (h >> 8u32) as u8) by (bit_vector)
            requires hi == frame >> 32u64, h == (frame >> 32u64) as u32;
        assert((hi >> 16u64) as u8 == (h >> 16u32) as u8) by (bit_vector)
            requires hi == frame >> 32u64, h == (frame >> 32u64) as u32;
        assert((hi >> 24u64) as u8 == (h >> 24u32) as u8) by (bit_vector)
            requires hi == frame >> 32u64, h == (frame >> 32u64) as u32;
        assert(idx@ =~= u64_bytes(frame));
    }
    append(&mut bytes, &idx);
    append(&mut bytes, module_bytes);
    hash_of_bytes(&bytes)
}

/// Components that look the same get the same cache key, whatever their
/// `to_cache`: a clone hashes as the value it was cloned from.
pub proof fn lemma_same_look_same_hash(a: RendererComponent, b: RendererComponent, module_bytes: Seq<u8>)
    requires
        a.same_look(&b),
    ensures
        static_hash(a, module_bytes) == static_hash(b, module_bytes),
        forall|f: u64| animated_hash(a, f, module_bytes) == #[trigger] animated_hash(b, f, module_bytes),
{
    crate::renderer::lemma_renderer_key_same_look(a, b);
}

} // verus!
