use streamduck::device::{
    buttons_only, description_to_kind, first_of_type, input_layout, kind_to_description, pedal,
    plus, str_eq, DeviceIdentifier, DeviceKind, DeviceMetadata, InputType, KindGeometry,
};
use streamduck::input::{
    contains_text, map_error, map_update, DeviceError, DeviceUpdate, DriverFailure, InputEvent,
    InputPayload, InputTranslator, PollOutcome, ReadResult, LONG_PRESS_MS, SHORT_PRESS_MS,
};
use streamduck::requests::LightUpListener;
use streamduck::runtime_core::DeviceThreadCommunication;

#[test]
fn translator_emits_press_and_release_edges() {
    let mut t = InputTranslator::new();
    assert_eq!(t.translate(vec![0, 1, 0]), vec![(1, true)]);
    assert_eq!(t.translate(vec![1, 1, 0]), vec![(0, true)]);
    assert_eq!(t.translate(vec![0, 0, 0]), vec![(0, false), (1, false)]);
    assert_eq!(t.translate(vec![0, 0, 0, 5]), vec![(3, true)]);
    assert!(t.translate(vec![0, 0, 0, 5]).is_empty());
    assert!(t.translate(vec![0, 0, 0, 7]).is_empty());
    assert_eq!(t.translate(vec![2, 0, 0, 0]), vec![(0, true), (3, false)]);
}

#[test]
fn poll_classifies_reads() {
    let mut t = InputTranslator::new();
    assert!(matches!(t.poll(ReadResult::NoData), PollOutcome::Idle));
    assert!(matches!(t.poll(ReadResult::Hid), PollOutcome::LostConnection));
    assert!(matches!(t.poll(ReadResult::Other), PollOutcome::Fatal));
    match t.poll(ReadResult::Buttons(vec![1])) {
        PollOutcome::Edges(e) => assert_eq!(e, vec![(0, true)]),
        _ => panic!("edges expected"),
    }
}

#[test]
fn touch_and_encoder_updates_expand() {
    let press = map_update(DeviceUpdate::TouchScreenPress(10, 20), 9, 8);
    assert_eq!(
        press,
        vec![
            InputPayload { input: 8, event: InputEvent::XYPanelPress { position: (10, 20) } },
            InputPayload { input: 8, event: InputEvent::XYPanelRelease { position: (10, 20), time_held_ms: SHORT_PRESS_MS } },
        ]
    );
    let long = map_update(DeviceUpdate::TouchScreenLongPress(1, 2), 9, 8);
    assert_eq!(long[1], InputPayload { input: 8, event: InputEvent::XYPanelRelease { position: (1, 2), time_held_ms: LONG_PRESS_MS } });
    assert_eq!(SHORT_PRESS_MS, 200);
    assert_eq!(LONG_PRESS_MS, 1100);
    let swipe = map_update(DeviceUpdate::TouchScreenSwipe((1, 2), (3, 4)), 9, 8);
    assert_eq!(swipe, vec![InputPayload { input: 8, event: InputEvent::XYPanelSwipe { start: (1, 2), end: (3, 4) } }]);
    assert_eq!(map_update(DeviceUpdate::EncoderDown(2), 9, 8)[0], InputPayload { input: 11, event: InputEvent::ButtonPressed });
    assert_eq!(map_update(DeviceUpdate::EncoderUp(0), 9, 8)[0], InputPayload { input: 9, event: InputEvent::ButtonReleased });
    assert_eq!(map_update(DeviceUpdate::EncoderTwist(1, -3), 9, 8)[0], InputPayload { input: 10, event: InputEvent::EndlessKnob(-3) });
    assert_eq!(map_update(DeviceUpdate::ButtonDown(4), 9, 8)[0], InputPayload { input: 4, event: InputEvent::ButtonPressed });
    assert_eq!(map_update(DeviceUpdate::ButtonUp(4), 9, 8)[0], InputPayload { input: 4, event: InputEvent::ButtonReleased });
}

#[test]
fn disconnect_message_is_lost_connection() {
    let lost = DriverFailure::HidApi("hidapi error: device disconnected (code 5)".to_string());
    assert_eq!(map_error(&lost), DeviceError::LostConnection);
    let other = DriverFailure::HidApi("timeout".to_string());
    assert_eq!(map_error(&other), DeviceError::DeviceError);
    assert_eq!(map_error(&DriverFailure::OtherHid), DeviceError::DeviceError);
    assert_eq!(map_error(&DriverFailure::Other), DeviceError::DeviceError);
    assert!(contains_text("abc", ""));
    assert!(contains_text("abc", "bc"));
    assert!(!contains_text("abc", "abcd"));
}

#[test]
fn descriptions_round_trip() {
    let kinds = [
        DeviceKind::Original,
        DeviceKind::OriginalV2,
        DeviceKind::Mini,
        DeviceKind::Xl,
        DeviceKind::XlV2,
        DeviceKind::Mk2,
        DeviceKind::MiniMk2,
        DeviceKind::Pedal,
        DeviceKind::Plus,
    ];
    for k in kinds {
        assert_eq!(description_to_kind(kind_to_description(k)), Some(k));
    }
    assert_eq!(kind_to_description(DeviceKind::Plus), "Stream Deck Plus");
    assert_eq!(description_to_kind("Stream Deck Neo"), None);
    assert!(str_eq("Где", "Где"));
    assert!(!str_eq("Где", "Гдe"));
}

#[test]
fn layouts_follow_geometry() {
    let grid = buttons_only(3, 5, (72, 72));
    assert_eq!(grid.len(), 15);
    assert_eq!((grid[7].x, grid[7].y), (2, 1));
    assert_eq!(grid[7].resolution, Some((72, 72)));
    let pedals = pedal(3);
    assert_eq!(pedals.len(), 3);
    assert_eq!(pedals[2].resolution, None);
    let geo = KindGeometry { rows: 2, columns: 4, key_resolution: (120, 120), lcd_size: Some((800, 100)), encoders: 4 };
    let p = plus(&geo);
    assert_eq!(p.len(), 13);
    assert_eq!(p[8].ty, InputType::XYPanel);
    assert_eq!((p[8].x, p[8].y, p[8].w, p[8].h), (0, 3, 4, 1));
    assert_eq!(p[8].resolution, Some((800, 100)));
    assert_eq!(p[12].ty, InputType::EndlessKnob);
    assert_eq!((p[12].x, p[12].y), (3, 4));
    assert_eq!(first_of_type(&p, InputType::EndlessKnob), Some(9));
    assert_eq!(first_of_type(&p, InputType::XYPanel), Some(8));
    assert_eq!(first_of_type(&grid, InputType::XYPanel), None);
    assert_eq!(input_layout(DeviceKind::Plus, &geo).len(), 13);
    assert_eq!(input_layout(DeviceKind::Pedal, &KindGeometry { rows: 1, columns: 3, key_resolution: (0, 0), lcd_size: None, encoders: 0 }).len(), 3);
    let meta = DeviceMetadata {
        identifier: DeviceIdentifier {
            driver_name: "elgato-streamdeck".to_string(),
            identifier: "AL10J2C00059".to_string(),
            description: "Stream Deck Plus".to_string(),
        },
        layout: p,
    };
    let copy = meta.clone();
    assert_eq!(copy.layout.len(), 13);
    assert_eq!(copy.identifier.identifier, "AL10J2C00059");
}

#[test]
fn light_up_listener_shows_image_while_held() {
    let l = LightUpListener { image: vec![1, 2, 3] };
    let down = InputPayload { input: 4, event: InputEvent::ButtonPressed };
    let up = InputPayload { input: 4, event: InputEvent::ButtonReleased };
    let knob = InputPayload { input: 9, event: InputEvent::EndlessKnob(1) };
    assert!(l.listens_for(&down));
    assert!(!l.listens_for(&knob));
    assert!(matches!(l.invoke(&down), Some(DeviceThreadCommunication::SetButtonImageRaw(4, ref b)) if *b == vec![1, 2, 3]));
    assert!(matches!(l.invoke(&up), Some(DeviceThreadCommunication::ClearButtonImage(4))));
    assert!(l.invoke(&knob).is_none());
}
