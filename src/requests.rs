//! Control requests on the buttons of a device's shown screen, with results
//! that tell "device not found", "failed" and "done" apart.
use vstd::prelude::*;
use crate::input::{InputEvent, InputPayload};
use crate::renderer::RendererComponent;
use crate::runtime_core::{component_index, DeviceThreadCommunication, SDCore};
use crate::screen::Button;

verus! {

/// Asks for the button on a key of the shown screen.
#[derive(Debug)]
pub struct GetButton {
    pub serial_number: String,
    pub key: u8,
}

#[derive(Debug)]
pub enum GetButtonResult {
    DeviceNotFound,
    NoButton,
    Button(Button),
}

impl GetButton {
    /// `core` is the device the serial number names, if one does.
    pub fn process(&self, core: Option<&SDCore>) -> (r: GetButtonResult)
        requires
            core is Some ==> core->0.wf(),
        ensures
            core is None ==> r is DeviceNotFound,
            core is Some ==> (r is NoButton <==> core->0.button_on(self.key) is None),
            r is Button ==> core is Some && core->0.button_on(self.key) is Some
                && r->Button_0.components@ == core->0.button_on(self.key)->0.components@
                && (r->Button_0.renderer is Some) == (core->0.button_on(self.key)->0.renderer is Some)
                && (r->Button_0.renderer is Some ==> r->Button_0.renderer->0.same_look(&core->0.button_on(self.key)->0.renderer->0)),
    {
        match core {
            None => GetButtonResult::DeviceNotFound,
            Some(c) => match c.get_button(self.key) {
                None => GetButtonResult::NoButton,
                Some(id) => GetButtonResult::Button(c.button(id).clone()),
            },
        }
    }
}

/// Puts a button on a key of the shown screen.
#[derive(Debug)]
pub struct SetButton {
    pub serial_number: String,
    pub key: u8,
    pub button: Button,
}

#[derive(PartialEq, Eq, Structural, Clone, Copy, Debug)]
pub enum SetButtonResult {
    /// The key is not one of the device's.
    NoScreen,
    DeviceNotFound,
    ButtonSet,
}

impl SetButton {
    pub fn process(self, core: Option<&mut SDCore>) -> (r: SetButtonResult)
        requires
            core is Some ==> old(core->0).wf(),
        ensures
            core is None ==> r == SetButtonResult::DeviceNotFound,
            core is Some ==> final(core->0).wf(),
            core is Some ==> (r == SetButtonResult::ButtonSet) == (self.key < old(core->0).key_count),
            core is Some ==> (r == SetButtonResult::ButtonSet || r == SetButtonResult::NoScreen),
            (core is Some && r == SetButtonResult::ButtonSet) ==> final(core->0).button_on(self.key) == Some(self.button),
    {
        match core {
            None => SetButtonResult::DeviceNotFound,
            Some(c) => {
                let key = self.key;
                if c.set_button(key, self.button) {
                    SetButtonResult::ButtonSet
                } else {
                    SetButtonResult::NoScreen
                }
            },
        }
    }
}

/// Takes the button off a key of the shown screen.
#[derive(Debug)]
pub struct ClearButton {
    pub serial_number: String,
    pub key: u8,
}

#[derive(PartialEq, Eq, Structural, Clone, Copy, Debug)]
pub enum ClearButtonResult {
    DeviceNotFound,
    /// There was no button on the key.
    FailedToClear,
    Cleared,
}

impl ClearButton {
    pub fn process(&self, core: Option<&mut SDCore>) -> (r: ClearButtonResult)
        requires
            core is Some ==> old(core->0).wf(),
        ensures
            core is None ==> r == ClearButtonResult::DeviceNotFound,
            core is Some ==> final(core->0).wf(),
            core is Some ==> (r == ClearButtonResult::Cleared) == (old(core->0).button_on(self.key) is Some),
            core is Some ==> (r == ClearButtonResult::Cleared || r == ClearButtonResult::FailedToClear),
            (core is Some && r == ClearButtonResult::Cleared) ==> final(core->0).button_on(self.key) is None,
    {
        match core {
            None => ClearButtonResult::DeviceNotFound,
            Some(c) => {
                if c.clear_button(self.key) {
                    ClearButtonResult::Cleared
                } else {
                    ClearButtonResult::FailedToClear
                }
            },
        }
    }
}

/// Puts a new empty button on a key of the shown screen.
#[derive(Debug)]
pub struct NewButton {
    pub serial_number: String,
    pub key: u8,
}

#[derive(PartialEq, Eq, Structural, Clone, Copy, Debug)]
pub enum NewButtonResult {
    DeviceNotFound,
    /// The key is not one of the device's.
    FailedToCreate,
    Created,
}

impl NewButton {
    pub fn process(&self, core: Option<&mut SDCore>) -> (r: NewButtonResult)
        requires
            core is Some ==> old(core->0).wf(),
        ensures
            core is None ==> r == NewButtonResult::DeviceNotFound,
            core is Some ==> final(core->0).wf(),
            core is Some ==> (r == NewButtonResult::Created) == (self.key < old(core->0).key_count),
            core is Some ==> (r == NewButtonResult::Created || r == NewButtonResult::FailedToCreate),
            (core is Some && r == NewButtonResult::Created) ==> final(core->0).button_on(self.key) is Some
                && final(core->0).button_on(self.key)->0.renderer is None
                && final(core->0).button_on(self.key)->0.components@.len() == 0,
    {
        match core {
            None => NewButtonResult::DeviceNotFound,
            Some(c) => {
                if c.set_button(self.key, Button::new()) {
                    NewButtonResult::Created
                } else {
                    NewButtonResult::FailedToCreate
                }
            },
        }
    }
}

/// Puts a new button made from a component's default looks on a key.
#[derive(Debug)]
pub struct NewButtonFromComponent {
    pub serial_number: String,
    pub key: u8,
    pub component_name: String,
}

#[derive(PartialEq, Eq, Structural, Clone, Copy, Debug)]
pub enum NewButtonFromComponentResult {
    DeviceNotFound,
    ComponentNotFound,
    FailedToCreate,
    Created,
}

impl NewButtonFromComponent {
    /// `looks` is the default renderer of the component, when a module
    /// provides the component.
    pub fn process(&self, core: Option<&mut SDCore>, looks: Option<RendererComponent>) -> (r: NewButtonFromComponentResult)
        requires
            core is Some ==> old(core->0).wf(),
        ensures
            core is None ==> r == NewButtonFromComponentResult::DeviceNotFound,
            core is Some ==> final(core->0).wf(),
            (core is Some && looks is None) ==> r == NewButtonFromComponentResult::ComponentNotFound,
            (core is Some && looks is Some) ==> (r == NewButtonFromComponentResult::Created) == (self.key < old(core->0).key_count),
            (core is Some && looks is Some) ==> (r == NewButtonFromComponentResult::Created || r == NewButtonFromComponentResult::FailedToCreate),
            (core is Some && r == NewButtonFromComponentResult::Created) ==> final(core->0).button_on(self.key) is Some
                && final(core->0).button_on(self.key)->0.renderer == looks
                && final(core->0).button_on(self.key)->0.components@.len() == 1
                && final(core->0).button_on(self.key)->0.components@[0]@ == self.component_name@,
    {
        match core {
            None => NewButtonFromComponentResult::DeviceNotFound,
            Some(c) => match looks {
                None => NewButtonFromComponentResult::ComponentNotFound,
                Some(l) => {
                    let mut components: Vec<String> = Vec::new();
                    components.push(self.component_name.clone());
                    let button = Button { renderer: Some(l), components };
                    if c.set_button(self.key, button) {
                        NewButtonFromComponentResult::Created
                    } else {
                        NewButtonFromComponentResult::FailedToCreate
                    }
                },
            },
        }
    }
}

/// Adds a component to the button on a key.
#[derive(Debug)]
pub struct AddComponent {
    pub serial_number: String,
    pub key: u8,
    pub component_name: String,
}

#[derive(PartialEq, Eq, Structural, Clone, Copy, Debug)]
pub enum AddComponentResult {
    DeviceNotFound,
    /// No button on the key, or it has the component already.
    FailedToAdd,
    Added,
}

impl AddComponent {
    pub fn process(&self, core: Option<&mut SDCore>) -> (r: AddComponentResult)
        requires
            core is Some ==> old(core->0).wf(),
        ensures
            core is None ==> r == AddComponentResult::DeviceNotFound,
            core is Some ==> final(core->0).wf(),
            core is Some ==> (r == AddComponentResult::Added) == (old(core->0).button_on(self.key) is Some
                && component_index(old(core->0).button_on(self.key)->0.components@, self.component_name@) is None),
            core is Some ==> (r == AddComponentResult::Added || r == AddComponentResult::FailedToAdd),
    {
        match core {
            None => AddComponentResult::DeviceNotFound,
            Some(c) => {
                if c.add_component(self.key, &self.component_name) {
                    AddComponentResult::Added
                } else {
                    AddComponentResult::FailedToAdd
                }
            },
        }
    }
}

/// Removes a component from the button on a key.
#[derive(Debug)]
pub struct RemoveComponent {
    pub serial_number: String,
    pub key: u8,
    pub component_name: String,
}

#[derive(PartialEq, Eq, Structural, Clone, Copy, Debug)]
pub enum RemoveComponentResult {
    DeviceNotFound,
    /// No button on the key, or it lacks the component.
    FailedToRemove,
    Removed,
}

impl RemoveComponent {
    pub fn process(&self, core: Option<&mut SDCore>) -> (r: RemoveComponentResult)
        requires
            core is Some ==> old(core->0).wf(),
        ensures
            core is None ==> r == RemoveComponentResult::DeviceNotFound,
            core is Some ==> final(core->0).wf(),
            core is Some ==> (r == RemoveComponentResult::Removed) == (old(core->0).button_on(self.key) is Some
                && component_index(old(core->0).button_on(self.key)->0.components@, self.component_name@) is Some),
            core is Some ==> (r == RemoveComponentResult::Removed || r == RemoveComponentResult::FailedToRemove),
    {
        match core {
            None => RemoveComponentResult::DeviceNotFound,
            Some(c) => {
                if c.remove_component(self.key, &self.component_name) {
                    RemoveComponentResult::Removed
                } else {
                    RemoveComponentResult::FailedToRemove
                }
            },
        }
    }
}

/// Whether the clipboard holds a button.
#[derive(PartialEq, Eq, Structural, Clone, Copy, Debug)]
pub enum ClipboardStatusResult {
    Empty,
    Full,
}

impl ClipboardStatusResult {
    pub fn process(clipboard: &Option<Button>) -> (r: ClipboardStatusResult)
        ensures
            (r == ClipboardStatusResult::Full) == (clipboard is Some),
    {
        if clipboard.is_some() {
            ClipboardStatusResult::Full
        } else {
            ClipboardStatusResult::Empty
        }
    }
}

/// Copies the button on a key to the clipboard.
#[derive(Debug)]
pub struct CopyButton {
    pub serial_number: String,
    pub key: u8,
}

#[derive(PartialEq, Eq, Structural, Clone, Copy, Debug)]
pub enum CopyButtonResult {
    DeviceNotFound,
    NoButton,
    Copied,
}

impl CopyButton {
    pub fn process(&self, core: Option<&SDCore>, clipboard: &mut Option<Button>) -> (r: CopyButtonResult)
        requires
            core is Some ==> core->0.wf(),
        ensures
            core is None ==> r == CopyButtonResult::DeviceNotFound,
            core is Some ==> (r == CopyButtonResult::Copied) == (core->0.button_on(self.key) is Some),
            core is Some ==> (r == CopyButtonResult::Copied || r == CopyButtonResult::NoButton),
            r == CopyButtonResult::Copied ==> (*final(clipboard)) is Some
                && (*final(clipboard))->0.components@ == core->0.button_on(self.key)->0.components@
                && ((*final(clipboard))->0.renderer is Some) == (core->0.button_on(self.key)->0.renderer is Some)
                && ((*final(clipboard))->0.renderer is Some ==> (*final(clipboard))->0.renderer->0.same_look(
                    &core->0.button_on(self.key)->0.renderer->0,
                )),
            r != CopyButtonResult::Copied ==> *final(clipboard) == *old(clipboard),
    {
        match core {
            None => CopyButtonResult::DeviceNotFound,
            Some(c) => match c.get_button(self.key) {
                None => CopyButtonResult::NoButton,
                Some(id) => {
                    *clipboard = Some(c.button(id).clone());
                    CopyButtonResult::Copied
                },
            },
        }
    }
}

/// Puts a copy of the clipboard's button on a key.
#[derive(Debug)]
pub struct PasteButton {
    pub serial_number: String,
    pub key: u8,
}

#[derive(PartialEq, Eq, Structural, Clone, Copy, Debug)]
pub enum PasteButtonResult {
    DeviceNotFound,
    /// The clipboard is empty, or the key is not one of the device's.
    FailedToPaste,
    Pasted,
}

impl PasteButton {
    pub fn process(&self, core: Option<&mut SDCore>, clipboard: &Option<Button>) -> (r: PasteButtonResult)
        requires
            core is Some ==> old(core->0).wf(),
        ensures
            core is None ==> r == PasteButtonResult::DeviceNotFound,
            core is Some ==> final(core->0).wf(),
            core is Some ==> (r == PasteButtonResult::Pasted) == (clipboard is Some && self.key < old(core->0).key_count),
            core is Some ==> (r == PasteButtonResult::Pasted || r == PasteButtonResult::FailedToPaste),
            (core is Some && r == PasteButtonResult::Pasted) ==> final(core->0).button_on(self.key) is Some
                && final(core->0).button_on(self.key)->0.components@ == clipboard->0.components@
                && (final(core->0).button_on(self.key)->0.renderer is Some) == (clipboard->0.renderer is Some)
                && (clipboard->0.renderer is Some ==> final(core->0).button_on(self.key)->0.renderer->0.same_look(
                    &clipboard->0.renderer->0,
                )),
    {
        match core {
            None => PasteButtonResult::DeviceNotFound,
            Some(c) => match clipboard {
                None => PasteButtonResult::FailedToPaste,
                Some(b) => {
                    if c.set_button(self.key, b.clone()) {
                        PasteButtonResult::Pasted
                    } else {
                        PasteButtonResult::FailedToPaste
                    }
                },
            },
        }
    }
}

/// Lights a key up with an image while it is held.
#[derive(Debug)]
pub struct LightUpListener {
    /// The encoded image shown on a held key.
    pub image: Vec<u8>,
}

impl LightUpListener {
    /// The listener only cares about key presses and releases.
    pub fn listens_for(&self, payload: &InputPayload) -> (r: bool)
        ensures
            r == (payload.event is ButtonPressed || payload.event is ButtonReleased),
    {
        match payload.event {
            InputEvent::ButtonPressed => true,
            InputEvent::ButtonReleased => true,
            _ => false,
        }
    }

    /// A pressed key gets the image, a released one is cleared; nothing
    /// happens for other events or inputs beyond the key range.
    pub fn invoke(&self, payload: &InputPayload) -> (r: Option<DeviceThreadCommunication>)
        ensures
            (payload.event is ButtonPressed && payload.input < 256) ==> r is Some && r->0 is SetButtonImageRaw
                && r->0->SetButtonImageRaw_0 == payload.input as u8 && r->0->SetButtonImageRaw_1@ == self.image@,
            (payload.event is ButtonReleased && payload.input < 256) ==> r == Some(DeviceThreadCommunication::ClearButtonImage(payload.input as u8)),
            !((payload.event is ButtonPressed || payload.event is ButtonReleased) && payload.input < 256) ==> r is None,
    {
        if payload.input >= 256 {
            return None;
        }
        let key = payload.input as u8;
        match payload.event {
            InputEvent::ButtonPressed => Some(DeviceThreadCommunication::SetButtonImageRaw(key, self.image.clone())),
            InputEvent::ButtonReleased => Some(DeviceThreadCommunication::ClearButtonImage(key)),
            _ => None,
        }
    }
}

} // verus!
