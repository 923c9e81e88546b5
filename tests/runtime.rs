use std::collections::HashMap;
use streamduck::compose::{
    checker, draw_background, draw_foreground, AnimationFrame, AssetStore, ImageAsset,
};
use streamduck::input::{edges_to_events, InputEvent, ReadResult};
use streamduck::pixmap::{generate, Fill};
use streamduck::renderer::{ButtonBackground, RendererComponent};
use streamduck::runtime::{tick_wait_us, DeviceOp, DeviceThread, FramePlan, ImageMode, KeyPlan};
use streamduck::runtime_core::{DeviceThreadCommunication, KeyAction, SDCore};
use streamduck::screen::{Button, Screen};

fn solid_button(c: (u8, u8, u8, u8)) -> Button {
    Button {
        renderer: Some(RendererComponent {
            background: ButtonBackground::Solid(c),
            text: vec![],
            to_cache: true,
        }),
        components: vec![],
    }
}

fn six_key_device() -> (SDCore, streamduck::runtime_core::KeyHandler, DeviceThread) {
    let (core, keys) = SDCore::new((72, 72), 6, 60);
    let thread = DeviceThread::new(checker((72, 72)), ImageMode::Bmp);
    (core, keys, thread)
}

fn no_module_bytes(n: usize) -> Vec<Vec<u8>> {
    vec![Vec::new(); n]
}

/// Runs a full redraw the way the device loop does, composing with no
/// modules and no text; returns the device operations in order.
fn run_redraw(core: &SDCore, thread: &mut DeviceThread, assets: &AssetStore) -> Vec<DeviceOp> {
    run_redraw_plans(core, thread, assets).1
}

fn run_redraw_plans(core: &SDCore, thread: &mut DeviceThread, assets: &AssetStore) -> (Vec<KeyPlan>, Vec<DeviceOp>) {
    let plans = thread.redraw(core, assets, &no_module_bytes(core.key_count as usize));
    let mut ops = Vec::new();
    for (k, plan) in plans.iter().enumerate() {
        let key = k as u8;
        match plan {
            KeyPlan::Clear => ops.push(DeviceOp::ClearKey(key)),
            KeyPlan::Cached(h) => ops.extend(thread.write_cached(key, *h)),
            KeyPlan::Compose(h) => {
                let id = core.get_button(key).unwrap();
                let c = core.button(id).renderer.as_ref().unwrap();
                let bg = draw_background(c, assets, &thread.counters, core.image_size, &thread.missing);
                let img = draw_foreground(bg, &vec![]);
                ops.extend(thread.store_composed(key, *h, img, c.to_cache));
            }
            KeyPlan::Animated | KeyPlan::Unchanged => {}
        }
    }
    (plans, ops)
}

#[test]
fn red_button_on_key_three_of_six_key_device() {
    let (mut core, _keys, mut thread) = six_key_device();
    let id = core.add_button(solid_button((255, 0, 0, 255)));
    let mut screen = Screen::new();
    screen.set(3, id);
    assert!(core.push_screen(screen));
    let assets = AssetStore { entries: vec![] };
    let ops = run_redraw(&core, &mut thread, &assets);
    assert_eq!(ops.len(), 6);
    for (k, op) in ops.iter().enumerate() {
        match op {
            DeviceOp::ClearKey(key) => {
                assert_ne!(k, 3);
                assert_eq!(*key as usize, k);
            }
            DeviceOp::WriteImage(key, bytes) => {
                assert_eq!(k, 3);
                assert_eq!(*key, 3);
                let img = image::load_from_memory(bytes).unwrap().to_rgba8();
                assert_eq!(img.dimensions(), (72, 72));
                assert!(img.pixels().all(|p| p.0 == [255, 0, 0, 255]));
            }
            DeviceOp::SetBrightness(_) => panic!("no brightness change expected"),
        }
    }
}

#[test]
fn brightness_command_is_one_update_and_no_redraw() {
    let (mut core, _keys, mut thread) = six_key_device();
    core.take_commands();
    core.send_commands(vec![DeviceThreadCommunication::SetBrightness(50)]);
    let commands = core.take_commands();
    assert_eq!(commands.len(), 1);
    let mut ops = Vec::new();
    for c in commands {
        assert!(!matches!(c, DeviceThreadCommunication::Redraw));
        ops.extend(thread.process_command(c));
    }
    assert_eq!(ops.len(), 1);
    assert!(matches!(ops[0], DeviceOp::SetBrightness(50)));
}

#[test]
fn other_commands_map_to_device_operations() {
    let (_core, _keys, mut thread) = six_key_device();
    assert!(thread.process_command(DeviceThreadCommunication::Redraw).is_empty());
    let clear = thread.process_command(DeviceThreadCommunication::ClearButtonImage(4));
    assert!(matches!(clear[0], DeviceOp::ClearKey(4)));
    let raw = thread.process_command(DeviceThreadCommunication::SetButtonImageRaw(2, vec![9, 9]));
    assert!(matches!(&raw[0], DeviceOp::WriteImage(2, b) if *b == vec![9, 9]));
    let empty = streamduck::pixmap::Pixmap { width: 0, height: 0, data: vec![] };
    assert!(thread.process_command(DeviceThreadCommunication::SetButtonImage(1, empty)).is_empty());
    let img = generate(2, 2, &Fill::Solid((1, 2, 3, 255)));
    let set = thread.process_command(DeviceThreadCommunication::SetButtonImage(1, img));
    match &set[0] {
        DeviceOp::WriteImage(1, bytes) => assert_eq!(&bytes[0..2], b"BM"),
        _ => panic!("expected an image write"),
    }
}

#[test]
fn second_redraw_writes_nothing() {
    let (mut core, _keys, mut thread) = six_key_device();
    assert!(core.set_button(0, solid_button((1, 2, 3, 255))));
    assert!(core.set_button(5, solid_button((4, 5, 6, 255))));
    let assets = AssetStore { entries: vec![] };
    let first_ops = run_redraw(&core, &mut thread, &assets);
    assert_eq!(first_ops.len(), 6);
    let (plans, second_ops) = run_redraw_plans(&core, &mut thread, &assets);
    assert!(plans.iter().all(|p| *p == KeyPlan::Unchanged));
    assert!(second_ops.is_empty());
}

#[test]
fn direct_writes_make_the_next_redraw_rewrite_the_key() {
    let (mut core, _keys, mut thread) = six_key_device();
    assert!(core.set_button(0, solid_button((1, 2, 3, 255))));
    let assets = AssetStore { entries: vec![] };
    run_redraw(&core, &mut thread, &assets);
    thread.process_command(DeviceThreadCommunication::SetButtonImageRaw(0, vec![1]));
    thread.process_command(DeviceThreadCommunication::ClearButtonImage(3));
    thread.forget(4);
    let (plans, _) = run_redraw_plans(&core, &mut thread, &assets);
    assert!(matches!(plans[0], KeyPlan::Cached(_)));
    assert_eq!(plans[1], KeyPlan::Unchanged);
    assert_eq!(plans[3], KeyPlan::Unchanged);
    assert_eq!(plans[4], KeyPlan::Clear);
    assert!(core.clear_button(0));
    let (plans, ops) = run_redraw_plans(&core, &mut thread, &assets);
    assert_eq!(plans[0], KeyPlan::Clear);
    assert_eq!(ops.len(), 1);
}

#[test]
fn same_content_built_differently_writes_same_bytes() {
    let assets = AssetStore { entries: vec![] };
    let (mut a, _ka, mut ta) = six_key_device();
    assert!(a.set_button(2, solid_button((9, 9, 9, 255))));
    let (mut b, _kb, mut tb) = six_key_device();
    assert!(b.set_button(2, solid_button((1, 1, 1, 255))));
    assert!(b.clear_button(2));
    let mut edited = Button::new();
    edited.renderer = Some(RendererComponent {
        background: ButtonBackground::Solid((9, 9, 9, 255)),
        text: vec![],
        to_cache: false,
    });
    assert!(b.set_button(2, edited));
    let (pa, oa) = run_redraw_plans(&a, &mut ta, &assets);
    let (pb, ob) = run_redraw_plans(&b, &mut tb, &assets);
    assert_eq!(pa, pb);
    match (&oa[2], &ob[2]) {
        (DeviceOp::WriteImage(_, x), DeviceOp::WriteImage(_, y)) => assert_eq!(x, y),
        _ => panic!("expected writes"),
    }
}

#[test]
fn undecodable_new_image_renders_placeholder() {
    let (mut core, _keys, mut thread) = six_key_device();
    let b = Button {
        renderer: Some(RendererComponent {
            background: ButtonBackground::NewImage("@@not base64@@".to_string()),
            text: vec![],
            to_cache: true,
        }),
        components: vec![],
    };
    assert!(core.set_button(1, b));
    let assets = AssetStore { entries: vec![] };
    let plans = thread.redraw(&core, &assets, &no_module_bytes(6));
    let c = core.button(core.get_button(1).unwrap()).renderer.as_ref().unwrap();
    let bg = draw_background(c, &assets, &thread.counters, (72, 72), &thread.missing);
    assert_eq!(bg.data, thread.missing.data);
    assert!(matches!(plans[1], KeyPlan::Compose(_)));
}

#[test]
fn animated_background_plays_frames_in_order() {
    let (mut core, _keys, mut thread) = six_key_device();
    let colors = [(255, 0, 0, 255), (0, 255, 0, 255), (0, 0, 255, 255)];
    let delays = [100u32, 200, 100];
    let frames = (0..3)
        .map(|i| AnimationFrame { image: generate(72, 72, &Fill::Solid(colors[i])), delay_ms: delays[i] })
        .collect();
    let assets = AssetStore { entries: vec![("gif".to_string(), ImageAsset::Animated(frames))] };
    let b = Button {
        renderer: Some(RendererComponent {
            background: ButtonBackground::ExistingImage("gif".to_string()),
            text: vec![],
            to_cache: true,
        }),
        components: vec![],
    };
    assert!(core.set_button(0, b));
    let plans = thread.redraw(&core, &assets, &no_module_bytes(6));
    assert_eq!(plans[0], KeyPlan::Animated);
    let mut shown: Vec<(u64, usize)> = Vec::new();
    let mut composed: HashMap<usize, usize> = HashMap::new();
    let mut frame_of: HashMap<u64, usize> = HashMap::new();
    for tick in 0..=120u64 {
        let now = tick * 1000 / 60;
        for (key, plan) in thread.process_animations(&core, &assets, &no_module_bytes(6), now) {
            assert_eq!(key, 0);
            match plan {
                FramePlan::Compose { hash, asset, frame } => {
                    *composed.entry(frame).or_insert(0) += 1;
                    frame_of.insert(hash, frame);
                    let img = match &assets.entries[asset].1 {
                        ImageAsset::Animated(f) => draw_foreground(f[frame].image.duplicate(), &vec![]),
                        _ => panic!("animated asset expected"),
                    };
                    assert!(thread.finish_frame(key, hash, &img, true).is_some());
                    shown.push((now, frame));
                }
                FramePlan::Cached(hash) => {
                    assert!(matches!(thread.cached_frame(key, hash), DeviceOp::WriteImage(0, _)));
                    shown.push((now, frame_of[&hash]));
                }
            }
        }
    }
    assert!(shown.len() >= 9);
    assert_eq!(shown[0].1, 0);
    assert_eq!(shown[1].1, 1);
    assert_eq!(shown[2].1, 2);
    assert_eq!(shown[3].1, 0);
    for w in shown.windows(2) {
        assert_ne!(w[0].1, w[1].1);
    }
    for (t, f) in &shown {
        // The counter picked the frame at the previous tick, from the looped time.
        let tick = (t * 60 + 999) / 1000;
        let picked = ((tick - 1) * 1000 / 60) % 400;
        let expected = if picked < 100 { 0 } else if picked < 300 { 1 } else { 2 };
        assert_eq!(*f, expected, "frame at {} ms", t);
    }
    let gaps: Vec<i64> = shown.windows(2).map(|w| (w[1].0 - w[0].0) as i64).collect();
    assert!((gaps[0] - 100).abs() <= 17);
    assert!((gaps[1] - 200).abs() <= 17);
    assert!((gaps[2] - 100).abs() <= 17);
    assert!(composed.values().all(|n| *n == 1));
    assert_eq!(composed.len(), 3);
}

#[test]
fn simultaneous_presses_reach_key_handler_in_key_order() {
    let (mut core, mut keys, mut thread) = six_key_device();
    let edges = thread.read_input(&mut core, ReadResult::Buttons(vec![0, 0, 0, 0, 0, 0]));
    assert!(edges.is_empty());
    let edges = thread.read_input(&mut core, ReadResult::Buttons(vec![1, 0, 1, 0, 0, 0]));
    assert_eq!(edges, vec![(0, true), (2, true)]);
    let events = edges_to_events(&edges);
    assert_eq!(events.len(), 2);
    assert_eq!((events[0].input, events[0].event), (0, InputEvent::ButtonPressed));
    assert_eq!((events[1].input, events[1].event), (2, InputEvent::ButtonPressed));
    keys.deliver(edges);
    assert_eq!(keys.run_loop(&core), vec![KeyAction::Down(0), KeyAction::Down(2)]);
    assert!(keys.run_loop(&core).is_empty());
}

#[test]
fn disconnect_closes_runtime_and_stops_key_handler() {
    let (mut core, mut keys, mut thread) = six_key_device();
    let none = thread.read_input(&mut core, ReadResult::NoData);
    assert!(none.is_empty());
    assert!(!core.is_closed());
    let edges = thread.read_input(&mut core, ReadResult::Hid);
    assert!(edges.is_empty());
    assert!(core.is_closed());
    keys.deliver(vec![(1, true)]);
    assert!(keys.run_loop(&core).is_empty());
    let (mut other, _k, mut t2) = six_key_device();
    t2.read_input(&mut other, ReadResult::Other);
    assert!(other.is_closed());
}

#[test]
fn tick_wait_is_remaining_budget() {
    assert_eq!(tick_wait_us(60, 0), 16_666);
    assert_eq!(tick_wait_us(60, 6_666), 10_000);
    assert_eq!(tick_wait_us(60, 20_000), 0);
    assert_eq!(tick_wait_us(0, 5), 0);
    assert_eq!(tick_wait_us(200, 1_000), 4_000);
}
