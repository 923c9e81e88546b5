//! The state a device runtime shares with its controllers: the screen stack,
//! the button store, the command queue and the closed flag.
use vstd::prelude::*;
use crate::device::str_eq;
use crate::pixmap::Pixmap;
use crate::screen::{Button, Screen, ScreenStack, StackError};

verus! {

/// A command for the device thread, handled in arrival order.
#[derive(Debug)]
pub enum DeviceThreadCommunication {
    /// Draw the current screen again.
    Redraw,
    SetBrightness(u8),
    /// Encode this image and show it on a key.
    SetButtonImage(u8, Pixmap),
    /// Show already encoded bytes on a key.
    SetButtonImageRaw(u8, Vec<u8>),
    /// Fill a key with black.
    ClearButtonImage(u8),
}

/// Core of one device: what controllers read and change.
#[derive(Debug)]
pub struct SDCore {
    /// The screens; the last is shown.
    pub stack: ScreenStack,
    /// Every button a screen may refer to, by id.
    pub buttons: Vec<Button>,
    /// Pixel size of a key image.
    pub image_size: (u32, u32),
    /// Number of keys of the device.
    pub key_count: u8,
    /// How many times a second the device loop runs.
    pub pool_rate: u32,
    /// Set once the runtime must end.
    pub should_close: bool,
    /// Commands for the device thread, oldest first.
    pub commands: Vec<DeviceThreadCommunication>,
}

/// The screens of a stack hold only keys below `key_count` and ids of the store.
pub open spec fn screens_ok(screens: Seq<Map<u8, usize>>, key_count: u8, n_buttons: int) -> bool {
    forall|s: int, k: u8|
        0 <= s < screens.len() && #[trigger] screens[s].contains_key(k) ==> k < key_count && screens[s][k] < n_buttons
}

/// A screen holds only keys below `key_count` and ids of the store.
pub open spec fn screen_ok(screen: Map<u8, usize>, key_count: u8, n_buttons: int) -> bool {
    forall|k: u8| #[trigger] screen.contains_key(k) ==> k < key_count && screen[k] < n_buttons
}

/// The key handler's instruction for one edge.
#[derive(PartialEq, Eq, Structural, Clone, Copy, Debug)]
pub enum KeyAction {
    Down(u8),
    Up(u8),
}

pub open spec fn edge_action(e: (u8, bool)) -> KeyAction {
    if e.1 {
        KeyAction::Down(e.0)
    } else {
        KeyAction::Up(e.0)
    }
}

impl SDCore {
    pub open spec fn screens(&self) -> Seq<Map<u8, usize>> {
        self.stack@
    }

    pub open spec fn button_store(&self) -> Seq<Button> {
        self.buttons@
    }

    pub open spec fn closed(&self) -> bool {
        self.should_close
    }

    /// Commands queued for the device thread, oldest first.
    pub open spec fn queued(&self) -> Seq<DeviceThreadCommunication> {
        self.commands@
    }

    /// The stack is never empty, and its screens name keys of the device and
    /// buttons of the store.
    pub open spec fn wf(&self) -> bool {
        &&& self.screens().len() > 0
        &&& screens_ok(self.screens(), self.key_count, self.button_store().len() as int)
    }

    /// The button on `key` of the shown screen, if any.
    pub open spec fn button_on(&self, key: u8) -> Option<Button> {
        let top = self.screens().last();
        if top.contains_key(key) {
            Some(self.button_store()[top[key] as int])
        } else {
            None
        }
    }

    /// A core that is already closed, with one empty screen.
    pub fn blank() -> (r: SDCore)
        ensures
            r.wf(),
            r.closed(),
            r.screens() == seq![Map::<u8, usize>::empty()],
            r.key_count == 0,
            r.image_size == (0u32, 0u32),
            r.pool_rate == 0,
            r.queued().len() == 0,
    {
        SDCore {
            stack: ScreenStack::new(),
            buttons: Vec::new(),
            image_size: (0, 0),
            key_count: 0,
            pool_rate: 0,
            should_close: true,
            commands: Vec::new(),
        }
    }

    /// A live core for a connected device, with one empty screen and a first
    /// redraw queued, and the key handler that goes with it.
    pub fn new(image_size: (u32, u32), key_count: u8, pool_rate: u32) -> (r: (SDCore, KeyHandler))
        ensures
            r.0.wf(),
            !r.0.closed(),
            r.0.screens() == seq![Map::<u8, usize>::empty()],
            r.0.button_store().len() == 0,
            r.0.key_count == key_count,
            r.0.image_size == image_size,
            r.0.pool_rate == pool_rate,
            r.0.queued() == seq![DeviceThreadCommunication::Redraw],
            r.1.pending() == Seq::<(u8, bool)>::empty(),
    {
        let mut commands: Vec<DeviceThreadCommunication> = Vec::new();
        commands.push(DeviceThreadCommunication::Redraw);
        let core = SDCore {
            stack: ScreenStack::new(),
            buttons: Vec::new(),
            image_size,
            key_count,
            pool_rate,
            should_close: false,
            commands,
        };
        assert(core.queued() =~= seq![DeviceThreadCommunication::Redraw]);
        (core, KeyHandler::new())
    }

    /// Queues a redraw.
    pub fn mark_for_redraw(&mut self)
        ensures
            final(self).queued() == old(self).queued().push(DeviceThreadCommunication::Redraw),
            final(self).screens() == old(self).screens(),
            final(self).button_store() == old(self).button_store(),
            final(self).closed() == old(self).closed(),
            final(self).key_count == old(self).key_count,
    {
        self.commands.push(DeviceThreadCommunication::Redraw);
    }

    /// Queues commands, in order.
    pub fn send_commands(&mut self, commands: Vec<DeviceThreadCommunication>)
        ensures
            final(self).queued() == old(self).queued() + commands@,
            final(self).screens() == old(self).screens(),
            final(self).button_store() == old(self).button_store(),
            final(self).closed() == old(self).closed(),
            final(self).key_count == old(self).key_count,
    {
        let mut commands = commands;
        self.commands.append(&mut commands);
    }

    /// Hands the queued commands to the device thread, oldest first.
    pub fn take_commands(&mut self) -> (r: Vec<DeviceThreadCommunication>)
        ensures
            r@ == old(self).queued(),
            final(self).queued().len() == 0,
            final(self).screens() == old(self).screens(),
            final(self).button_store() == old(self).button_store(),
            final(self).closed() == old(self).closed(),
            final(self).key_count == old(self).key_count,
    {
        let mut out: Vec<DeviceThreadCommunication> = Vec::new();
        std::mem::swap(&mut self.commands, &mut out);
        out
    }

    /// Whether the core is closed.
    pub fn is_closed(&self) -> (r: bool)
        ensures
            r == self.closed(),
    {
        self.should_close
    }

    /// Closes the core and queues a redraw so the device loop wakes up.
    pub fn close(&mut self)
        ensures
            final(self).closed(),
            final(self).queued() == old(self).queued().push(DeviceThreadCommunication::Redraw),
            final(self).screens() == old(self).screens(),
            final(self).button_store() == old(self).button_store(),
            final(self).key_count == old(self).key_count,
    {
        self.should_close = true;
        self.mark_for_redraw();
    }

    /// The stored button `id`.
    pub fn button(&self, id: usize) -> (r: &Button)
        requires
            id < self.button_store().len(),
        ensures
            *r == self.button_store()[id as int],
    {
        &self.buttons[id]
    }

    /// Number of screens on the stack.
    pub fn stack_len(&self) -> (r: usize)
        requires
            self.wf(),
        ensures
            r == self.screens().len(),
    {
        self.stack.len()
    }

    /// The shown screen.
    pub fn current_screen(&self) -> (r: &Screen)
        requires
            self.wf(),
        ensures
            r@ == self.screens().last(),
    {
        self.stack.current().unwrap()
    }

    /// Adds a button to the store; screens refer to it by the returned id.
    pub fn add_button(&mut self, button: Button) -> (r: usize)
        requires
            old(self).wf(),
        ensures
            final(self).wf(),
            r == old(self).button_store().len(),
            final(self).button_store() == old(self).button_store().push(button),
            final(self).screens() == old(self).screens(),
            final(self).closed() == old(self).closed(),
            final(self).queued() == old(self).queued(),
            final(self).key_count == old(self).key_count,
    {
        let id = self.buttons.len();
        self.buttons.push(button);
        id
    }

    /// Pushes a screen whose keys and button ids are valid, and queues a
    /// redraw; any other screen is refused.
    pub fn push_screen(&mut self, screen: Screen) -> (r: bool)
        requires
            old(self).wf(),
        ensures
            final(self).wf(),
            r == screen_ok(screen@, old(self).key_count, old(self).button_store().len() as int),
            r ==> final(self).screens() == old(self).screens().push(screen@),
            r ==> final(self).queued() == old(self).queued().push(DeviceThreadCommunication::Redraw),
            !r ==> final(self).screens() == old(self).screens() && final(self).queued() == old(self).queued(),
            final(self).button_store() == old(self).button_store(),
            final(self).closed() == old(self).closed(),
            final(self).key_count == old(self).key_count,
    {
        if !self.screen_valid(&screen) {
            return false;
        }
        self.stack.push(screen);
        self.mark_for_redraw();
        true
    }

    fn screen_valid(&self, screen: &Screen) -> (r: bool)
        ensures
            r == screen_ok(screen@, self.key_count, self.button_store().len() as int),
    {
        if !screen.keys_below(self.key_count) {
            return false;
        }
        let mut k: u8 = 0;
        while k < self.key_count
            invariant
                k <= self.key_count,
                forall|j: u8| #[trigger] screen@.contains_key(j) ==> j < self.key_count,
                forall|j: u8| j < k && #[trigger] screen@.contains_key(j) ==> screen@[j] < self.buttons@.len(),
            decreases self.key_count - k,
        {
            match screen.get(k) {
                Some(id) => {
                    if id >= self.buttons.len() {
                        return false;
                    }
                },
                None => {},
            }
            k = k + 1;
        }
        true
    }

    /// Removes the top screen unless it is the only one; queues a redraw when
    /// it did.
    pub fn pop_screen(&mut self) -> (r: Result<(), StackError>)
        requires
            old(self).wf(),
        ensures
            final(self).wf(),
            old(self).screens().len() > 1 ==> r is Ok && final(self).screens() == old(self).screens().drop_last()
                && final(self).queued() == old(self).queued().push(DeviceThreadCommunication::Redraw),
            old(self).screens().len() <= 1 ==> r == Err::<(), StackError>(StackError::LastScreen)
                && final(self).screens() == old(self).screens() && final(self).queued() == old(self).queued(),
            final(self).button_store() == old(self).button_store(),
            final(self).closed() == old(self).closed(),
            final(self).key_count == old(self).key_count,
    {
        let r = self.stack.pop();
        if r.is_ok() {
            self.mark_for_redraw();
        }
        r
    }

    /// Removes the top screen whatever remains (an emptied stack gets a fresh
    /// empty screen), and queues a redraw.
    pub fn forcibly_pop_screen(&mut self)
        requires
            old(self).wf(),
        ensures
            final(self).wf(),
            old(self).screens().len() > 1 ==> final(self).screens() == old(self).screens().drop_last(),
            old(self).screens().len() <= 1 ==> final(self).screens() == seq![Map::<u8, usize>::empty()],
            final(self).queued() == old(self).queued().push(DeviceThreadCommunication::Redraw),
            final(self).button_store() == old(self).button_store(),
            final(self).closed() == old(self).closed(),
            final(self).key_count == old(self).key_count,
    {
        self.stack.forcibly_pop();
        self.mark_for_redraw();
    }

    /// Replaces the top screen with a valid screen and queues a redraw; any
    /// other screen is refused.
    pub fn replace_screen(&mut self, screen: Screen) -> (r: bool)
        requires
            old(self).wf(),
        ensures
            final(self).wf(),
            r == screen_ok(screen@, old(self).key_count, old(self).button_store().len() as int),
            r ==> final(self).screens() == old(self).screens().drop_last().push(screen@),
            r ==> final(self).queued() == old(self).queued().push(DeviceThreadCommunication::Redraw),
            !r ==> final(self).screens() == old(self).screens() && final(self).queued() == old(self).queued(),
            final(self).button_store() == old(self).button_store(),
            final(self).closed() == old(self).closed(),
            final(self).key_count == old(self).key_count,
    {
        if !self.screen_valid(&screen) {
            return false;
        }
        self.stack.replace(screen);
        self.mark_for_redraw();
        true
    }

    /// Makes a valid screen the whole stack and queues a redraw; any other
    /// screen is refused.
    pub fn reset_stack(&mut self, screen: Screen) -> (r: bool)
        requires
            old(self).wf(),
        ensures
            final(self).wf(),
            r == screen_ok(screen@, old(self).key_count, old(self).button_store().len() as int),
            r ==> final(self).screens() == seq![screen@],
            r ==> final(self).queued() == old(self).queued().push(DeviceThreadCommunication::Redraw),
            !r ==> final(self).screens() == old(self).screens() && final(self).queued() == old(self).queued(),
            final(self).button_store() == old(self).button_store(),
            final(self).closed() == old(self).closed(),
            final(self).key_count == old(self).key_count,
    {
        if !self.screen_valid(&screen) {
            return false;
        }
        self.stack.reset(screen);
        self.mark_for_redraw();
        true
    }

    /// Id of the button on `key` of the shown screen.
    pub fn get_button(&self, key: u8) -> (r: Option<usize>)
        requires
            self.wf(),
        ensures
            r == (if self.screens().last().contains_key(key) {
                Some(self.screens().last()[key])
            } else {
                None
            }),
            r is Some ==> r->0 < self.button_store().len(),
    {
        self.stack.get_button(key)
    }

    /// Stores `button` and puts it on `key` of the shown screen, queueing a
    /// redraw; a key the device does not have is refused.
    pub fn set_button(&mut self, key: u8, button: Button) -> (r: bool)
        requires
            old(self).wf(),
        ensures
            final(self).wf(),
            r == (key < old(self).key_count),
            r ==> final(self).button_store() == old(self).button_store().push(button),
            r ==> final(self).screens() == old(self).screens().update(
                old(self).screens().len() - 1,
                old(self).screens().last().insert(key, old(self).button_store().len() as usize),
            ),
            r ==> final(self).queued() == old(self).queued().push(DeviceThreadCommunication::Redraw),
            r ==> final(self).button_on(key) == Some(button),
            !r ==> final(self).screens() == old(self).screens() && final(self).button_store()
                == old(self).button_store() && final(self).queued() == old(self).queued(),
            final(self).closed() == old(self).closed(),
            final(self).key_count == old(self).key_count,
    {
        if key >= self.key_count {
            return false;
        }
        let ghost b = button;
        let id = self.add_button(button);
        self.stack.set_button(key, id);
        self.mark_for_redraw();
        assert(self.screens().last() == old(self).screens().last().insert(key, id));
        assert(self.button_store()[id as int] == b);
        true
    }

    /// Takes the button off `key` of the shown screen, queueing a redraw;
    /// false when there was none.
    pub fn clear_button(&mut self, key: u8) -> (r: bool)
        requires
            old(self).wf(),
        ensures
            final(self).wf(),
            r == old(self).screens().last().contains_key(key),
            r ==> final(self).screens() == old(self).screens().update(
                old(self).screens().len() - 1,
                old(self).screens().last().remove(key),
            ),
            r ==> final(self).queued() == old(self).queued().push(DeviceThreadCommunication::Redraw),
            !r ==> final(self).screens() == old(self).screens() && final(self).queued() == old(self).queued(),
            final(self).button_store() == old(self).button_store(),
            final(self).closed() == old(self).closed(),
            final(self).key_count == old(self).key_count,
    {
        let r = self.stack.clear_button(key);
        if r {
            self.mark_for_redraw();
        } else {
            assert(old(self).screens().last().remove(key) =~= old(self).screens().last());
            assert(self.screens() =~= old(self).screens());
        }
        r
    }

    /// Adds (`add`) or removes component `name` on the stored button `id`,
    /// which every screen holding the id then shows; queues a redraw when it
    /// changed anything.
    fn edit_components(&mut self, id: usize, name: &String, add: bool) -> (r: bool)
        requires
            old(self).wf(),
            id < old(self).button_store().len(),
        ensures
            final(self).wf(),
            final(self).screens() == old(self).screens(),
            final(self).button_store().len() == old(self).button_store().len(),
            forall|j: int| 0 <= j < old(self).button_store().len() && j != id ==> #[trigger] final(self).button_store()[j] == old(self).button_store()[j],
            r == (add != component_index(old(self).button_store()[id as int].components@, name@) is Some),
            r ==> final(self).button_store()[id as int].components@ == (if add {
                old(self).button_store()[id as int].components@.push(*name)
            } else {
                old(self).button_store()[id as int].components@.remove(component_index(old(self).button_store()[id as int].components@, name@)->0)
            }),
            !r ==> final(self).button_store() == old(self).button_store(),
            final(self).button_store()[id as int].renderer == old(self).button_store()[id as int].renderer,
            r ==> final(self).queued() == old(self).queued().push(DeviceThreadCommunication::Redraw),
            !r ==> final(self).queued() == old(self).queued(),
            final(self).closed() == old(self).closed(),
            final(self).key_count == old(self).key_count,
    {
        let found = find_component(&self.buttons[id].components, name);
        match found {
            Some(i) => {
                if add {
                    return false;
                }
                let mut b = self.buttons.remove(id);
                b.components.remove(i);
                self.buttons.insert(id, b);
            },
            None => {
                if !add {
                    return false;
                }
                let mut b = self.buttons.remove(id);
                b.components.push(name.clone());
                self.buttons.insert(id, b);
            },
        }
        proof {
            assert forall|j: int| 0 <= j < old(self).button_store().len() && j != id implies #[trigger] self.buttons@[j] == old(self).button_store()[j] by {}
        }
        self.mark_for_redraw();
        true
    }

    /// Adds component `name` to the button on `key`; false when there is no
    /// button there or it has the component already.
    pub fn add_component(&mut self, key: u8, name: &String) -> (r: bool)
        requires
            old(self).wf(),
        ensures
            final(self).wf(),
            r == (old(self).button_on(key) is Some && component_index(old(self).button_on(key)->0.components@, name@) is None),
            r ==> final(self).button_on(key)->0.components@ == old(self).button_on(key)->0.components@.push(*name),
            !r ==> final(self).button_store() == old(self).button_store(),
            final(self).screens() == old(self).screens(),
            final(self).closed() == old(self).closed(),
    {
        match self.get_button(key) {
            None => false,
            Some(id) => self.edit_components(id, name, true),
        }
    }

    /// Removes component `name` from the button on `key`; false when there is
    /// no button there or it lacks the component.
    pub fn remove_component(&mut self, key: u8, name: &String) -> (r: bool)
        requires
            old(self).wf(),
        ensures
            final(self).wf(),
            r == (old(self).button_on(key) is Some && component_index(old(self).button_on(key)->0.components@, name@) is Some),
            !r ==> final(self).button_store() == old(self).button_store(),
            final(self).screens() == old(self).screens(),
            final(self).closed() == old(self).closed(),
    {
        match self.get_button(key) {
            None => false,
            Some(id) => self.edit_components(id, name, false),
        }
    }
}

/// Position of the first component named `name`.
pub open spec fn component_index(names: Seq<String>, name: Seq<char>) -> Option<int> {
    if exists|i: int| 0 <= i < names.len() && #[trigger] names[i]@ == name && forall|j: int| 0 <= j < i ==> #[trigger] names[j]@ != name {
        Some(choose|i: int| 0 <= i < names.len() && #[trigger] names[i]@ == name && forall|j: int| 0 <= j < i ==> #[trigger] names[j]@ != name)
    } else {
        None
    }
}

fn find_component(names: &Vec<String>, name: &String) -> (r: Option<usize>)
    ensures
        r is Some ==> component_index(names@, name@) == Some(r->0 as int) && r->0 < names@.len(),
        r is None ==> component_index(names@, name@) is None,
{
    let mut i: usize = 0;
    while i < names.len()
        invariant
            i <= names@.len(),
            forall|j: int| 0 <= j < i ==> #[trigger] names@[j]@ != name@,
        decreases names@.len() - i,
    {
        if str_eq(names[i].as_str(), name.as_str()) {
            proof {
                let k = choose|k: int| 0 <= k < names@.len() && #[trigger] names@[k]@ == name@ && forall|j: int| 0 <= j < k ==> #[trigger] names@[j]@ != name@;
                if k < i {
                    assert(names@[k]@ != name@);
                } else if k > i {
                    assert(names@[i as int]@ != name@);
                }
            }
            return Some(i);
        }
        i = i + 1;
    }
    None
}

/// Receives key edges from the device thread and turns them into
/// instructions for button behaviour, in order.
#[derive(Debug)]
pub struct KeyHandler {
    received: Vec<(u8, bool)>,
}

impl KeyHandler {
    pub closed spec fn pending(&self) -> Seq<(u8, bool)> {
        self.received@
    }

    /// A handler with nothing received.
    pub fn new() -> (r: KeyHandler)
        ensures
            r.pending() == Seq::<(u8, bool)>::empty(),
    {
        KeyHandler { received: Vec::new() }
    }

    /// Receives edges, after those already pending.
    pub fn deliver(&mut self, edges: Vec<(u8, bool)>)
        ensures
            final(self).pending() == old(self).pending() + edges@,
    {
        let mut edges = edges;
        self.received.append(&mut edges);
    }

    /// Handles what was received: nothing once the core is closed, else one
    /// instruction per edge, in the order received.
    pub fn run_loop(&mut self, core: &SDCore) -> (r: Vec<KeyAction>)
        ensures
            core.closed() ==> r@.len() == 0 && final(self).pending() == old(self).pending(),
            !core.closed() ==> r@ == old(self).pending().map_values(|e: (u8, bool)| edge_action(e))
                && final(self).pending().len() == 0,
    {
        let mut out: Vec<KeyAction> = Vec::new();
        if core.is_closed() {
            return out;
        }
        let mut i: usize = 0;
        while i < self.received.len()
            invariant
                i <= self.received@.len(),
                self.received@ == old(self).pending(),
                out@ == self.received@.take(i as int).map_values(|e: (u8, bool)| edge_action(e)),
            decreases self.received@.len() - i,
        {
            let (key, down) = self.received[i];
            out.push(if down {
                KeyAction::Down(key)
            } else {
                KeyAction::Up(key)
            });
            proof {
                assert(self.received@.take(i as int + 1) =~= self.received@.take(i as int).push(self.received@[i as int]));
            }
            assert(out@ =~= self.received@.take(i as int + 1).map_values(|e: (u8, bool)| edge_action(e)));
            i = i + 1;
        }
        assert(self.received@.take(self.received@.len() as int) =~= self.received@);
        self.received = Vec::new();
        out
    }
}

} // verus!
