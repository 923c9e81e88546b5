//! Buttons, screens and the screen stack.
use vstd::prelude::*;
use std::collections::HashMap;
use crate::renderer::RendererComponent;

verus! {

broadcast use vstd::std_specs::hash::group_hash_axioms;

/// A bag of components attached to one key slot. The `renderer` component
/// decides its appearance; the others are named by module.
#[derive(Debug)]
pub struct Button {
    pub renderer: Option<RendererComponent>,
    pub components: Vec<String>,
}

impl Clone for Button {
    fn clone(&self) -> (r: Self)
        ensures
            r.renderer is Some == self.renderer is Some,
            r.renderer is Some ==> r.renderer->0.same_look(&self.renderer->0)
                && r.renderer->0.to_cache == self.renderer->0.to_cache,
            r.components@ == self.components@,
    {
        let renderer = match &self.renderer {
            Some(c) => Some(c.clone()),
            None => None,
        };
        let mut components: Vec<String> = Vec::new();
        let mut i: usize = 0;
        while i < self.components.len()
            invariant
                i <= self.components@.len(),
                components@ == self.components@.take(i as int),
            decreases self.components@.len() - i,
        {
            components.push(self.components[i].clone());
            proof {
                assert(self.components@.take(i as int + 1) =~= self.components@.take(i as int).push(self.components@[i as int]));
            }
            i = i + 1;
        }
        proof {
            assert(self.components@.take(self.components@.len() as int) =~= self.components@);
        }
        Button { renderer, components }
    }
}

impl Button {
    /// A button with no components.
    pub fn new() -> (r: Button)
        ensures
            r.renderer is None,
            r.components@.len() == 0,
    {
        Button { renderer: None, components: Vec::new() }
    }
}

/// One level of the UI: which button (by its id in the device's button
/// store) sits on which key. Screens that hold the same id share the button.
#[derive(Debug)]
pub struct Screen {
    pub buttons: HashMap<u8, usize>,
}

impl View for Screen {
    type V = Map<u8, usize>;

    open spec fn view(&self) -> Map<u8, usize> {
        self.buttons@
    }
}

impl Screen {
    /// A screen with no buttons.
    pub fn new() -> (r: Screen)
        ensures
            r@ == Map::<u8, usize>::empty(),
    {
        Screen { buttons: HashMap::new() }
    }

    /// The id of the button on `key`, if any.
    pub fn get(&self, key: u8) -> (r: Option<usize>)
        ensures
            r == (if self@.contains_key(key) {
                Some(self@[key])
            } else {
                None
            }),
    {
        match self.buttons.get(&key) {
            Some(id) => Some(*id),
            None => None,
        }
    }

    /// Puts button `id` on `key`.
    pub fn set(&mut self, key: u8, id: usize)
        ensures
            final(self)@ == old(self)@.insert(key, id),
    {
        self.buttons.insert(key, id);
    }

    /// Takes the button off `key`; tells whether there was one.
    pub fn clear(&mut self, key: u8) -> (r: bool)
        ensures
            r == old(self)@.contains_key(key),
            final(self)@ == old(self)@.remove(key),
    {
        self.buttons.remove(&key).is_some()
    }

    /// Whether every key that holds a button is below `bound`.
    pub fn keys_below(&self, bound: u8) -> (r: bool)
        ensures
            r == (forall|k: u8| #[trigger] self@.contains_key(k) ==> k < bound),
    {
        let mut k: u16 = bound as u16;
        while k < 256
            invariant
                bound <= k <= 256,
                forall|j: u8| bound <= j < k ==> !#[trigger] self@.contains_key(j),
            decreases 256 - k,
        {
            if self.buttons.contains_key(&(k as u8)) {
                assert(self@.contains_key(k as u8) && !((k as u8) < bound));
                return false;
            }
            k = k + 1;
        }
        proof {
            assert forall|j: u8| #[trigger] self@.contains_key(j) implies j < bound by {
                if j >= bound {
                    assert(!self@.contains_key(j));
                }
            }
        }
        true
    }
}

/// Why the stack refused an operation.
#[derive(PartialEq, Eq, Structural, Clone, Copy, Debug)]
pub enum StackError {
    /// The only screen cannot be popped.
    LastScreen,
}

/// The ordered screens of a device; the last one is shown. Never empty.
#[derive(Debug)]
pub struct ScreenStack {
    screens: Vec<Screen>,
}

impl View for ScreenStack {
    type V = Seq<Map<u8, usize>>;

    closed spec fn view(&self) -> Seq<Map<u8, usize>> {
        self.screens@.map_values(|s: Screen| s@)
    }
}

impl ScreenStack {
    /// Well-formed: at least one screen.
    pub open spec fn wf(&self) -> bool {
        self@.len() > 0
    }

    /// A stack holding one empty screen.
    pub fn new() -> (r: ScreenStack)
        ensures
            r@ == seq![Map::<u8, usize>::empty()],
            r.wf(),
    {
        let mut screens: Vec<Screen> = Vec::new();
        screens.push(Screen::new());
        let r = ScreenStack { screens };
        assert(r@ =~= seq![Map::<u8, usize>::empty()]);
        r
    }

    /// Number of screens.
    pub fn len(&self) -> (r: usize)
        requires
            self.wf(),
        ensures
            r == self@.len(),
            r > 0,
    {
        self.screens.len()
    }

    /// The screen on top.
    pub fn current(&self) -> (r: Option<&Screen>)
        requires
            self.wf(),
        ensures
            r is Some,
            r->0@ == self@.last(),
    {
        let n = self.screens.len();
        assert(self.screens@.len() == self@.len());
        Some(&self.screens[n - 1])
    }

    /// Puts `screen` on top.
    pub fn push(&mut self, screen: Screen)
        requires
            old(self).wf(),
        ensures
            final(self)@.len() > 0,
            final(self)@ == old(self)@.push(screen@),
    {
        self.screens.push(screen);
        assert(final(self)@ =~= old(self)@.push(screen@));
    }

    /// Removes the top screen, unless it is the only one.
    pub fn pop(&mut self) -> (r: Result<(), StackError>)
        requires
            old(self).wf(),
        ensures
            final(self)@.len() > 0,
            old(self)@.len() > 1 ==> r is Ok && final(self)@ == old(self)@.drop_last(),
            old(self)@.len() <= 1 ==> r == Err::<(), StackError>(StackError::LastScreen),
            old(self)@.len() <= 1 ==> final(self)@ == old(self)@,
    {
        if self.screens.len() > 1 {
            self.screens.pop();
            assert(final(self)@ =~= old(self)@.drop_last());
            Ok(())
        } else {
            Err(StackError::LastScreen)
        }
    }

    /// Removes the top screen whatever remains; an emptied stack gets a fresh
    /// empty screen.
    pub fn forcibly_pop(&mut self)
        requires
            old(self).wf(),
        ensures
            final(self)@.len() > 0,
            old(self)@.len() > 1 ==> final(self)@ == old(self)@.drop_last(),
            old(self)@.len() <= 1 ==> final(self)@ == seq![Map::<u8, usize>::empty()],
    {
        if self.screens.len() > 1 {
            self.screens.pop();
            assert(final(self)@ =~= old(self)@.drop_last());
        } else {
            let mut screens: Vec<Screen> = Vec::new();
            screens.push(Screen::new());
            self.screens = screens;
            assert(final(self)@ =~= seq![Map::<u8, usize>::empty()]);
        }
    }

    /// Replaces the top screen with `screen`.
    pub fn replace(&mut self, screen: Screen)
        requires
            old(self).wf(),
        ensures
            final(self)@.len() > 0,
            final(self)@ == old(self)@.drop_last().push(screen@),
    {
        self.screens.pop();
        self.screens.push(screen);
        assert(final(self)@ =~= old(self)@.drop_last().push(screen@));
    }

    /// Empties the stack and puts `screen` on it.
    pub fn reset(&mut self, screen: Screen)
        ensures
            final(self)@.len() > 0,
            final(self)@ == seq![screen@],
    {
        let mut screens: Vec<Screen> = Vec::new();
        screens.push(screen);
        self.screens = screens;
        assert(final(self)@ =~= seq![screen@]);
    }

    /// The id of the button on `key` of the top screen.
    pub fn get_button(&self, key: u8) -> (r: Option<usize>)
        requires
            self.wf(),
        ensures
            r == (if self@.last().contains_key(key) {
                Some(self@.last()[key])
            } else {
                None
            }),
    {
        let n = self.screens.len();
        self.screens[n - 1].get(key)
    }

    /// Puts button `id` on `key` of the top screen.
    pub fn set_button(&mut self, key: u8, id: usize)
        requires
            old(self).wf(),
        ensures
            final(self)@.len() > 0,
            final(self)@ == old(self)@.update(
                old(self)@.len() - 1,
                old(self)@.last().insert(key, id),
            ),
    {
        let mut top = self.screens.pop().unwrap();
        top.set(key, id);
        self.screens.push(top);
        assert(final(self)@ =~= old(self)@.update(
            old(self)@.len() - 1,
            old(self)@.last().insert(key, id),
        ));
    }

    /// Takes the button off `key` of the top screen; tells whether there was one.
    pub fn clear_button(&mut self, key: u8) -> (r: bool)
        requires
            old(self).wf(),
        ensures
            final(self)@.len() > 0,
            r == old(self)@.last().contains_key(key),
            final(self)@ == old(self)@.update(old(self)@.len() - 1, old(self)@.last().remove(key)),
    {
        let mut top = self.screens.pop().unwrap();
        let r = top.clear(key);
        self.screens.push(top);
        assert(final(self)@ =~= old(self)@.update(
            old(self)@.len() - 1,
            old(self)@.last().remove(key),
        ));
        r
    }
}

} // verus!
