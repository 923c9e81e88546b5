use streamduck::renderer::RendererComponent;
use streamduck::requests::{
    AddComponent, AddComponentResult, ClearButton, ClearButtonResult, ClipboardStatusResult,
    CopyButton, CopyButtonResult, GetButton, GetButtonResult, NewButton, NewButtonFromComponent,
    NewButtonFromComponentResult, NewButtonResult, PasteButton, PasteButtonResult,
    RemoveComponent, RemoveComponentResult, SetButton, SetButtonResult,
};
use streamduck::runtime_core::SDCore;
use streamduck::screen::Button;

fn serial() -> String {
    "AL10J2C00059".to_string()
}

#[test]
fn requests_without_device_report_not_found() {
    let get = GetButton { serial_number: serial(), key: 0 };
    assert!(matches!(get.process(None), GetButtonResult::DeviceNotFound));
    let set = SetButton { serial_number: serial(), key: 0, button: Button::new() };
    assert_eq!(set.process(None), SetButtonResult::DeviceNotFound);
    assert_eq!(ClearButton { serial_number: serial(), key: 0 }.process(None), ClearButtonResult::DeviceNotFound);
    assert_eq!(NewButton { serial_number: serial(), key: 0 }.process(None), NewButtonResult::DeviceNotFound);
    let mut clip = None;
    assert_eq!(CopyButton { serial_number: serial(), key: 0 }.process(None, &mut clip), CopyButtonResult::DeviceNotFound);
    assert_eq!(PasteButton { serial_number: serial(), key: 0 }.process(None, &clip), PasteButtonResult::DeviceNotFound);
}

#[test]
fn button_requests_on_a_device() {
    let (mut core, _keys) = SDCore::new((72, 72), 6, 60);
    let get = GetButton { serial_number: serial(), key: 1 };
    assert!(matches!(get.process(Some(&core)), GetButtonResult::NoButton));
    assert_eq!(NewButton { serial_number: serial(), key: 1 }.process(Some(&mut core)), NewButtonResult::Created);
    assert_eq!(NewButton { serial_number: serial(), key: 6 }.process(Some(&mut core)), NewButtonResult::FailedToCreate);
    assert!(matches!(get.process(Some(&core)), GetButtonResult::Button(_)));
    let set = SetButton { serial_number: serial(), key: 9, button: Button::new() };
    assert_eq!(set.process(Some(&mut core)), SetButtonResult::NoScreen);
    let set = SetButton { serial_number: serial(), key: 2, button: Button::new() };
    assert_eq!(set.process(Some(&mut core)), SetButtonResult::ButtonSet);
    let clear = ClearButton { serial_number: serial(), key: 2 };
    assert_eq!(clear.process(Some(&mut core)), ClearButtonResult::Cleared);
    assert_eq!(clear.process(Some(&mut core)), ClearButtonResult::FailedToClear);
}

#[test]
fn component_requests() {
    let (mut core, _keys) = SDCore::new((72, 72), 6, 60);
    let from = NewButtonFromComponent { serial_number: serial(), key: 0, component_name: "renderer".to_string() };
    assert_eq!(from.process(Some(&mut core), None), NewButtonFromComponentResult::ComponentNotFound);
    assert_eq!(from.process(Some(&mut core), Some(RendererComponent::default())), NewButtonFromComponentResult::Created);
    let far = NewButtonFromComponent { serial_number: serial(), key: 7, component_name: "renderer".to_string() };
    assert_eq!(far.process(Some(&mut core), Some(RendererComponent::default())), NewButtonFromComponentResult::FailedToCreate);
    let b = core.button(core.get_button(0).unwrap());
    assert_eq!(b.components, vec!["renderer".to_string()]);
    assert!(b.renderer.is_some());
    let add = AddComponent { serial_number: serial(), key: 0, component_name: "label".to_string() };
    assert_eq!(add.process(Some(&mut core)), AddComponentResult::Added);
    assert_eq!(add.process(Some(&mut core)), AddComponentResult::FailedToAdd);
    let remove = RemoveComponent { serial_number: serial(), key: 0, component_name: "label".to_string() };
    assert_eq!(remove.process(Some(&mut core)), RemoveComponentResult::Removed);
    assert_eq!(remove.process(Some(&mut core)), RemoveComponentResult::FailedToRemove);
    let on_empty = AddComponent { serial_number: serial(), key: 3, component_name: "label".to_string() };
    assert_eq!(on_empty.process(Some(&mut core)), AddComponentResult::FailedToAdd);
}

#[test]
fn copy_and_paste() {
    let (mut core, _keys) = SDCore::new((72, 72), 6, 60);
    let mut clip: Option<Button> = None;
    assert_eq!(ClipboardStatusResult::process(&clip), ClipboardStatusResult::Empty);
    let paste = PasteButton { serial_number: serial(), key: 4 };
    assert_eq!(paste.process(Some(&mut core), &clip), PasteButtonResult::FailedToPaste);
    let copy = CopyButton { serial_number: serial(), key: 1 };
    assert_eq!(copy.process(Some(&core), &mut clip), CopyButtonResult::NoButton);
    let mut b = Button::new();
    b.components.push("label".to_string());
    assert!(core.set_button(1, b));
    assert_eq!(copy.process(Some(&core), &mut clip), CopyButtonResult::Copied);
    assert_eq!(ClipboardStatusResult::process(&clip), ClipboardStatusResult::Full);
    assert_eq!(paste.process(Some(&mut core), &clip), PasteButtonResult::Pasted);
    let pasted = core.button(core.get_button(4).unwrap());
    assert_eq!(pasted.components, vec!["label".to_string()]);
    let far = PasteButton { serial_number: serial(), key: 6 };
    assert_eq!(far.process(Some(&mut core), &clip), PasteButtonResult::FailedToPaste);
}
