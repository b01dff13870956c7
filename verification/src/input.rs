//! The state of the keyboard and mouse across frames: what is held down,
//! what was pressed or released during the current frame, and whether any
//! event of each kind came in. Keys are named by their key codes.
use std::collections::HashMap;
use vstd::prelude::*;

verus! {

broadcast use vstd::std_specs::hash::group_hash_axioms;

/// Whether `m` marks `k` as set (`Some(&true)` when looked up).
pub open spec fn is_set<K>(m: Map<K, bool>, k: K) -> bool {
    m.contains_key(k) && m[k]
}

/// The input state, viewed.
pub struct InputView {
    pub kdown: Map<u32, bool>,
    pub kpressed: Map<u32, bool>,
    pub kreleased: Map<u32, bool>,
    pub mdown: Map<usize, bool>,
    pub mpressed: Map<usize, bool>,
    pub mreleased: Map<usize, bool>,
    pub close_request: bool,
    pub mouse_event: bool,
    pub key_event: bool,
}

/// Tracks the input events of each frame.
pub struct AppInput {
    kdown: HashMap<u32, bool>,
    kpressed: HashMap<u32, bool>,
    kreleased: HashMap<u32, bool>,
    mdown: HashMap<usize, bool>,
    mpressed: HashMap<usize, bool>,
    mreleased: HashMap<usize, bool>,
    close_request: bool,
    mouse_event: bool,
    key_event: bool,
}

/// An input event, as the tracker reads it.
#[derive(PartialEq, Eq, Debug, Copy, Clone, Structural)]
pub enum InputEvent {
    KeyDown(u32),
    KeyUp(u32),
    Char,
    MouseMove,
    MouseDown(usize),
    MouseUp(usize),
    CloseRequested,
    Other,
}

/// The state after one event.
pub open spec fn after_event(s: InputView, ev: InputEvent) -> InputView {
    match ev {
        InputEvent::KeyDown(k) => if is_set(s.kdown, k) {
            InputView { key_event: true, ..s }
        } else {
            InputView {
                kpressed: s.kpressed.insert(k, true),
                kdown: s.kdown.insert(k, true),
                key_event: true,
                ..s
            }
        },
        InputEvent::KeyUp(k) => InputView {
            kpressed: s.kpressed.insert(k, false),
            kdown: s.kdown.insert(k, false),
            kreleased: s.kreleased.insert(k, true),
            key_event: true,
            ..s
        },
        InputEvent::Char => InputView { key_event: true, ..s },
        InputEvent::MouseMove => InputView { mouse_event: true, ..s },
        InputEvent::MouseDown(b) => if is_set(s.mdown, b) {
            InputView { mouse_event: true, ..s }
        } else {
            InputView {
                mpressed: s.mpressed.insert(b, true),
                mdown: s.mdown.insert(b, true),
                mouse_event: true,
                ..s
            }
        },
        InputEvent::MouseUp(b) => InputView {
            mpressed: s.mpressed.insert(b, false),
            mdown: s.mdown.insert(b, false),
            mreleased: s.mreleased.insert(b, true),
            mouse_event: true,
            ..s
        },
        InputEvent::CloseRequested => InputView { close_request: true, ..s },
        InputEvent::Other => s,
    }
}

/// The state after the end of a frame: what was pressed or released, the
/// close request and the event marks are forgotten; what is held stays held.
pub open spec fn after_frame(s: InputView) -> InputView {
    InputView {
        kpressed: Map::empty(),
        kreleased: Map::empty(),
        mpressed: Map::empty(),
        mreleased: Map::empty(),
        close_request: false,
        mouse_event: false,
        key_event: false,
        ..s
    }
}

/// Nothing is held, pressed or released, and no event has come in.
pub open spec fn fresh_input(s: InputView) -> bool {
    &&& s.kdown == Map::<u32, bool>::empty()
    &&& s.kpressed == Map::<u32, bool>::empty()
    &&& s.kreleased == Map::<u32, bool>::empty()
    &&& s.mdown == Map::<usize, bool>::empty()
    &&& s.mpressed == Map::<usize, bool>::empty()
    &&& s.mreleased == Map::<usize, bool>::empty()
    &&& !s.close_request
    &&& !s.mouse_event
    &&& !s.key_event
}

impl AppInput {
    /// The state, viewed.
    pub closed spec fn view(&self) -> InputView {
        InputView {
            kdown: self.kdown@,
            kpressed: self.kpressed@,
            kreleased: self.kreleased@,
            mdown: self.mdown@,
            mpressed: self.mpressed@,
            mreleased: self.mreleased@,
            close_request: self.close_request,
            mouse_event: self.mouse_event,
            key_event: self.key_event,
        }
    }

    /// A tracker that has seen no event.
    pub fn new() -> (s: AppInput)
        ensures
            fresh_input(s.view()),
    {
        AppInput {
            kdown: HashMap::new(),
            kpressed: HashMap::new(),
            kreleased: HashMap::new(),
            mdown: HashMap::new(),
            mpressed: HashMap::new(),
            mreleased: HashMap::new(),
            close_request: false,
            mouse_event: false,
            key_event: false,
        }
    }

    fn on_key_down(&mut self, key: u32)
        ensures
            final(self).view() == (if is_set(old(self).view().kdown, key) {
                old(self).view()
            } else {
                InputView {
                    kpressed: old(self).view().kpressed.insert(key, true),
                    kdown: old(self).view().kdown.insert(key, true),
                    ..old(self).view()
                }
            }),
    {
        if !self.key(key) {
            self.kpressed.insert(key, true);
            self.kdown.insert(key, true);
        }
    }

    fn on_key_up(&mut self, key: u32)
        ensures
            final(self).view() == (InputView {
                kpressed: old(self).view().kpressed.insert(key, false),
                kdown: old(self).view().kdown.insert(key, false),
                kreleased: old(self).view().kreleased.insert(key, true),
                ..old(self).view()
            }),
    {
        self.kpressed.insert(key, false);
        self.kdown.insert(key, false);
        self.kreleased.insert(key, true);
    }

    fn on_mouse_down(&mut self, button: usize)
        ensures
            final(self).view() == (if is_set(old(self).view().mdown, button) {
                old(self).view()
            } else {
                InputView {
                    mpressed: old(self).view().mpressed.insert(button, true),
                    mdown: old(self).view().mdown.insert(button, true),
                    ..old(self).view()
                }
            }),
    {
        if !self.mouse_button(button) {
            self.mpressed.insert(button, true);
            self.mdown.insert(button, true);
        }
    }

    fn on_mouse_up(&mut self, button: usize)
        ensures
            final(self).view() == (InputView {
                mpressed: old(self).view().mpressed.insert(button, false),
                mdown: old(self).view().mdown.insert(button, false),
                mreleased: old(self).view().mreleased.insert(button, true),
                ..old(self).view()
            }),
    {
        self.mpressed.insert(button, false);
        self.mdown.insert(button, false);
        self.mreleased.insert(button, true);
    }

    /// Ends a frame.
    pub fn on_frame_end(&mut self)
        ensures
            final(self).view() == after_frame(old(self).view()),
    {
        self.mpressed.clear();
        self.mreleased.clear();
        self.kreleased.clear();
        self.kpressed.clear();
        self.close_request = false;
        self.mouse_event = false;
        self.key_event = false;
    }

    /// Records an event.
    pub fn on_event(&mut self, event: InputEvent)
        ensures
            final(self).view() == after_event(old(self).view(), event),
    {
        match event {
            InputEvent::KeyDown(key) => {
                self.on_key_down(key);
                self.key_event = true;
            },
            InputEvent::KeyUp(key) => {
                self.on_key_up(key);
                self.key_event = true;
            },
            InputEvent::Char => {
                self.key_event = true;
            },
            InputEvent::MouseMove => {
                self.mouse_event = true;
            },
            InputEvent::MouseDown(button) => {
                self.on_mouse_down(button);
                self.mouse_event = true;
            },
            InputEvent::MouseUp(button) => {
                self.on_mouse_up(button);
                self.mouse_event = true;
            },
            InputEvent::CloseRequested => {
                self.close_request = true;
            },
            InputEvent::Other => {},
        }
    }

    /// Whether the key is held down.
    pub fn key(&self, key_code: u32) -> (r: bool)
        ensures
            r == is_set(self.view().kdown, key_code),
    {
        match self.kdown.get(&key_code) {
            Some(v) => *v,
            None => false,
        }
    }

    /// Whether the key was pressed during this frame.
    pub fn key_pressed(&self, key_code: u32) -> (r: bool)
        ensures
            r == is_set(self.view().kpressed, key_code),
    {
        match self.kpressed.get(&key_code) {
            Some(v) => *v,
            None => false,
        }
    }

    /// Whether the key was released during this frame.
    pub fn key_released(&self, key_code: u32) -> (r: bool)
        ensures
            r == is_set(self.view().kreleased, key_code),
    {
        match self.kreleased.get(&key_code) {
            Some(v) => *v,
            None => false,
        }
    }

    /// Whether the mouse button is held down.
    pub fn mouse_button(&self, num: usize) -> (r: bool)
        ensures
            r == is_set(self.view().mdown, num),
    {
        match self.mdown.get(&num) {
            Some(v) => *v,
            None => false,
        }
    }

    /// Whether the mouse button was pressed during this frame.
    pub fn mouse_button_pressed(&self, num: usize) -> (r: bool)
        ensures
            r == is_set(self.view().mpressed, num),
    {
        match self.mpressed.get(&num) {
            Some(v) => *v,
            None => false,
        }
    }

    /// Whether the mouse button was released during this frame.
    pub fn mouse_button_released(&self, num: usize) -> (r: bool)
        ensures
            r == is_set(self.view().mreleased, num),
    {
        match self.mreleased.get(&num) {
            Some(v) => *v,
            None => false,
        }
    }

    /// Whether a mouse event came in during this frame.
    pub fn had_mouse_event(&self) -> (r: bool)
        ensures
            r == self.view().mouse_event,
    {
        self.mouse_event
    }

    /// Whether a keyboard event came in during this frame.
    pub fn had_key_event(&self) -> (r: bool)
        ensures
            r == self.view().key_event,
    {
        self.key_event
    }

    /// Whether the user asked to close the window during this frame.
    pub fn close_requested(&self) -> (r: bool)
        ensures
            r == self.view().close_request,
    {
        self.close_request
    }
}

/// Every key or button pressed during the frame is still held, unless it was
/// released since.
pub open spec fn pressed_are_held(s: InputView) -> bool {
    &&& forall|k: u32| #[trigger] is_set(s.kpressed, k) ==> is_set(s.kdown, k)
    &&& forall|b: usize| #[trigger] is_set(s.mpressed, b) ==> is_set(s.mdown, b)
}

/// A key that was up reads as held and pressed after it goes down; after it
/// goes up it reads as released, and neither held nor pressed.
pub proof fn lemma_key_read_after_event(s: InputView, k: u32)
    ensures
        !is_set(s.kdown, k) ==> is_set(after_event(s, InputEvent::KeyDown(k)).kdown, k) && is_set(
            after_event(s, InputEvent::KeyDown(k)).kpressed,
            k,
        ),
        is_set(after_event(s, InputEvent::KeyUp(k)).kreleased, k),
        !is_set(after_event(s, InputEvent::KeyUp(k)).kdown, k),
        !is_set(after_event(s, InputEvent::KeyUp(k)).kpressed, k),
        after_event(s, InputEvent::KeyDown(k)).key_event,
{
}

/// The end of a frame forgets what was pressed and released and keeps what
/// is held.
pub proof fn lemma_frame_end(s: InputView, k: u32, b: usize)
    ensures
        !is_set(after_frame(s).kpressed, k),
        !is_set(after_frame(s).kreleased, k),
        !is_set(after_frame(s).mpressed, b),
        !is_set(after_frame(s).mreleased, b),
        is_set(after_frame(s).kdown, k) == is_set(s.kdown, k),
        is_set(after_frame(s).mdown, b) == is_set(s.mdown, b),
        !after_frame(s).key_event && !after_frame(s).mouse_event && !after_frame(s).close_request,
{
}

/// What is pressed is held: true of a fresh tracker, and kept by every event
/// and by the end of every frame.
pub proof fn lemma_pressed_are_held(s: InputView, ev: InputEvent)
    ensures
        fresh_input(s) ==> pressed_are_held(s),
        pressed_are_held(s) ==> pressed_are_held(after_event(s, ev)),
        pressed_are_held(s) ==> pressed_are_held(after_frame(s)),
{
    if pressed_are_held(s) {
        let t = after_event(s, ev);
        assert forall|k: u32| #[trigger] is_set(t.kpressed, k) implies is_set(t.kdown, k) by {
            assert(is_set(s.kpressed, k) ==> is_set(s.kdown, k));
        }
        assert forall|b: usize| #[trigger] is_set(t.mpressed, b) implies is_set(t.mdown, b) by {
            assert(is_set(s.mpressed, b) ==> is_set(s.mdown, b));
        }
    }
}

} // verus!
