//! Keyboard and mouse state, updated from input events once per frame.
//!
//! The windowing layer polls its events and hands each one over as an
//! `InputEvent`; the manager keeps, for every key and mouse button seen so
//! far, whether it is down and whether that changed this frame, plus the
//! named keybinds and the mouse's position and wheel.
use vstd::prelude::*;

verus! {

/// A keyboard key, by the windowing layer's key code.
pub type Keycode = i32;

/// A mouse button.
#[derive(Debug, Copy, Clone, PartialEq, Eq, Structural)]
pub enum MouseButton {
    Unknown,
    Left,
    Middle,
    Right,
    X1,
    X2,
}

/// Errors related to input management.
#[derive(Debug)]
pub enum InputError {
    KeycodeNotFound(Keycode),
    KeybindNotFound(String),
    MouseButtonNotFound(MouseButton),
}

/// The current state of a keyboard key or mouse button.
#[derive(Debug, Copy, Clone, PartialEq, Eq, Structural)]
pub struct KeyState {
    /// The key is held down.
    pub down: bool,
    /// The key went down or up since the previous frame.
    pub changed: bool,
}

impl KeyState {
    /// The state after a frame in which the key is `down`.
    pub open spec fn next(self, down: bool) -> KeyState {
        KeyState { down, changed: down != self.down }
    }

    /// Update the state with whether the key is now down.
    pub fn update(&mut self, down: bool)
        ensures
            *final(self) == old(self).next(down),
    {
        self.changed = down != self.down;
        self.down = down;
    }

    /// Is the key currently held down?
    pub fn down(&self) -> (r: bool)
        ensures
            r == self.down,
    {
        self.down
    }

    /// Is the key currently up?
    pub fn up(&self) -> (r: bool)
        ensures
            r == !self.down,
    {
        !self.down
    }

    /// Did the key go from up to down this frame?
    pub fn pressed(&self) -> (r: bool)
        ensures
            r == (self.down && self.changed),
    {
        self.down && self.changed
    }

    /// Did the key go from down to up this frame?
    pub fn released(&self) -> (r: bool)
        ensures
            r == (!self.down && self.changed),
    {
        !self.down && self.changed
    }
}

/// An input event, as the windowing layer reports it.
#[derive(Debug, Copy, Clone, PartialEq, Eq, Structural)]
pub enum InputEvent {
    /// A key went down; the key code is missing for keys the layer does not
    /// know.
    KeyDown(Option<Keycode>),
    /// A key went up.
    KeyUp(Option<Keycode>),
    MouseButtonDown(MouseButton),
    MouseButtonUp(MouseButton),
    /// The wheel moved by this amount; positive is up.
    MouseWheel(i32),
    /// The mouse moved to (`x`, `y`), by (`xrel`, `yrel`).
    MouseMotion { x: i32, y: i32, xrel: i32, yrel: i32 },
    /// Any other event; the manager does not handle it. Holds a token of
    /// the caller's choosing, such as the event's position in a batch, so
    /// that the caller can find the event again when it is passed back.
    Other(usize),
}

/// The keys of an association list are pairwise distinct.
pub open spec fn unique_keys<K, V>(s: Seq<(K, V)>) -> bool {
    forall|i: int, j: int| 0 <= i < s.len() && 0 <= j < s.len() && #[trigger] s[i].0 == #[trigger] s[j].0 ==> i == j
}

/// The map that an association list with distinct keys stands for.
pub open spec fn as_map<K, V>(s: Seq<(K, V)>) -> Map<K, V> {
    Map::new(
        |k: K| exists|i: int| 0 <= i < s.len() && #[trigger] s[i].0 == k,
        |k: K| s[choose|i: int| 0 <= i < s.len() && #[trigger] s[i].0 == k].1,
    )
}

proof fn lemma_as_map_index<K, V>(s: Seq<(K, V)>, i: int)
    requires
        unique_keys(s),
        0 <= i < s.len(),
    ensures
        as_map(s).contains_key(s[i].0),
        as_map(s)[s[i].0] == s[i].1,
{
    let k = s[i].0;
    assert(exists|j: int| 0 <= j < s.len() && #[trigger] s[j].0 == k);
    let j = choose|j: int| 0 <= j < s.len() && #[trigger] s[j].0 == k;
    assert(s[j].0 == s[i].0);
}

proof fn lemma_as_map_update<K, V>(s: Seq<(K, V)>, i: int, v: V)
    requires
        unique_keys(s),
        0 <= i < s.len(),
    ensures
        unique_keys(s.update(i, (s[i].0, v))),
        as_map(s.update(i, (s[i].0, v))) == as_map(s).insert(s[i].0, v),
{
    let t = s.update(i, (s[i].0, v));
    assert forall|a: int, b: int| 0 <= a < t.len() && 0 <= b < t.len() && #[trigger] t[a].0 == #[trigger] t[b].0 implies a == b by {
        assert(s[a].0 == t[a].0 && s[b].0 == t[b].0);
    }
    let m = as_map(s).insert(s[i].0, v);
    assert forall|k: K| #[trigger] as_map(t).contains_key(k) <==> m.contains_key(k) by {
        if as_map(t).contains_key(k) {
            let j = choose|j: int| 0 <= j < t.len() && #[trigger] t[j].0 == k;
            assert(s[j].0 == k);
        }
        if as_map(s).contains_key(k) {
            let j = choose|j: int| 0 <= j < s.len() && #[trigger] s[j].0 == k;
            assert(t[j].0 == k);
        }
        if k == s[i].0 {
            assert(t[i].0 == k);
        }
    }
    assert forall|k: K| #[trigger] as_map(t).contains_key(k) implies as_map(t)[k] == m[k] by {
        let j = choose|j: int| 0 <= j < t.len() && #[trigger] t[j].0 == k;
        lemma_as_map_index(t, j);
        if j != i {
            lemma_as_map_index(s, j);
        }
    }
    assert(as_map(t) =~= m);
}

proof fn lemma_as_map_push<K, V>(s: Seq<(K, V)>, k: K, v: V)
    requires
        unique_keys(s),
        !as_map(s).contains_key(k),
    ensures
        unique_keys(s.push((k, v))),
        as_map(s.push((k, v))) == as_map(s).insert(k, v),
{
    let t = s.push((k, v));
    assert forall|a: int, b: int| 0 <= a < t.len() && 0 <= b < t.len() && #[trigger] t[a].0 == #[trigger] t[b].0 implies a == b by {
        if a < s.len() && b == s.len() {
            assert(s[a].0 == k);
        }
        if b < s.len() && a == s.len() {
            assert(s[b].0 == k);
        }
    }
    let m = as_map(s).insert(k, v);
    assert forall|x: K| #[trigger] as_map(t).contains_key(x) <==> m.contains_key(x) by {
        if as_map(t).contains_key(x) {
            let j = choose|j: int| 0 <= j < t.len() && #[trigger] t[j].0 == x;
            if j < s.len() {
                assert(s[j].0 == x);
            }
        }
        if as_map(s).contains_key(x) {
            let j = choose|j: int| 0 <= j < s.len() && #[trigger] s[j].0 == x;
            assert(t[j].0 == x);
        }
        if x == k {
            assert(t[s.len() as int].0 == k);
        }
    }
    assert forall|x: K| #[trigger] as_map(t).contains_key(x) implies as_map(t)[x] == m[x] by {
        let j = choose|j: int| 0 <= j < t.len() && #[trigger] t[j].0 == x;
        lemma_as_map_index(t, j);
        if j < s.len() {
            lemma_as_map_index(s, j);
        }
    }
    assert(as_map(t) =~= m);
}

proof fn lemma_as_map_remove<K, V>(s: Seq<(K, V)>, i: int)
    requires
        unique_keys(s),
        0 <= i < s.len(),
    ensures
        unique_keys(s.remove(i)),
        as_map(s.remove(i)) == as_map(s).remove(s[i].0),
{
    let t = s.remove(i);
    assert forall|a: int, b: int| 0 <= a < t.len() && 0 <= b < t.len() && #[trigger] t[a].0 == #[trigger] t[b].0 implies a == b by {
        let sa = if a < i { a } else { a + 1 };
        let sb = if b < i { b } else { b + 1 };
        assert(t[a] == s[sa] && t[b] == s[sb]);
    }
    let m = as_map(s).remove(s[i].0);
    assert forall|x: K| #[trigger] as_map(t).contains_key(x) <==> m.contains_key(x) by {
        if as_map(t).contains_key(x) {
            let j = choose|j: int| 0 <= j < t.len() && #[trigger] t[j].0 == x;
            let sj = if j < i { j } else { j + 1 };
            assert(t[j] == s[sj]);
        }
        if m.contains_key(x) {
            let j = choose|j: int| 0 <= j < s.len() && #[trigger] s[j].0 == x;
            if j < i {
                assert(t[j] == s[j]);
            } else {
                assert(j != i);
                assert(t[j - 1] == s[j]);
            }
        }
    }
    assert forall|x: K| #[trigger] as_map(t).contains_key(x) implies as_map(t)[x] == m[x] by {
        let j = choose|j: int| 0 <= j < t.len() && #[trigger] t[j].0 == x;
        lemma_as_map_index(t, j);
        let sj = if j < i { j } else { j + 1 };
        assert(t[j] == s[sj]);
        lemma_as_map_index(s, sj);
    }
    assert(as_map(t) =~= m);
}

/// The input state, as mathematical values.
pub struct InputView {
    pub keys: Map<Keycode, KeyState>,
    pub keybinds: Map<Seq<char>, Keycode>,
    pub buttons: Map<MouseButton, KeyState>,
    pub mouse_position: (i32, i32),
    pub mouse_position_relative: (i32, i32),
    pub mouse_wheel: i32,
}

/// Retrieves and manages input from events.
pub struct InputManager {
    /// Keyboard state, one entry per key seen. Association lists with
    /// distinct keys stand in for hash maps here: starting a frame rewrites
    /// every entry in place, which vstd specifies for no hash-map iterator,
    /// and keybinds are keyed by strings, whose hashing it does not specify.
    key_state: Vec<(Keycode, KeyState)>,
    /// Named keybinds.
    keybinds: Vec<(String, Keycode)>,
    /// Mouse state, one entry per button seen.
    mouse_state: Vec<(MouseButton, KeyState)>,
    mouse_position: (i32, i32),
    mouse_position_relative: (i32, i32),
    mouse_wheel: i32,
}

/// The state of a key at the start of a new frame: unchanged so far.
pub open spec fn carried(s: KeyState) -> KeyState {
    s.next(s.down)
}

/// The states after an event that reports `k` as `down`; a key not seen
/// yet starts as `unseen_down`, unchanged.
pub open spec fn after_event<K>(m: Map<K, KeyState>, k: K, unseen_down: bool, down: bool) -> Map<
    K,
    KeyState,
> {
    let before = if m.contains_key(k) {
        m[k]
    } else {
        KeyState { down: unseen_down, changed: false }
    };
    m.insert(k, before.next(down))
}

/// The manager handles the event, rather than passing it on.
pub open spec fn handled(e: InputEvent) -> bool {
    !(e is Other)
}

/// The input state after one event.
///
/// A key-down event marks its key down, a key-up event marks it up; a key
/// not seen yet counts as having been in the other state. Mouse buttons go
/// down and up in the same way. Key events without a key code change
/// nothing.
pub open spec fn apply_event(v: InputView, e: InputEvent) -> InputView {
    match e {
        InputEvent::KeyDown(Some(k)) => InputView { keys: after_event(v.keys, k, false, true), ..v },
        InputEvent::KeyUp(Some(k)) => InputView { keys: after_event(v.keys, k, true, false), ..v },
        InputEvent::MouseButtonDown(b) => InputView {
            buttons: after_event(v.buttons, b, false, true),
            ..v
        },
        InputEvent::MouseButtonUp(b) => InputView {
            buttons: after_event(v.buttons, b, true, false),
            ..v
        },
        InputEvent::MouseWheel(y) => InputView { mouse_wheel: y, ..v },
        InputEvent::MouseMotion { x, y, xrel, yrel } => InputView {
            mouse_position: (x, y),
            mouse_position_relative: (xrel, yrel),
            ..v
        },
        _ => v,
    }
}

/// The input state at the start of a frame: no key or button has changed
/// yet, and the wheel and relative motion are back to zero.
pub open spec fn frame_start(v: InputView) -> InputView {
    InputView {
        keys: v.keys.map_values(|s: KeyState| carried(s)),
        buttons: v.buttons.map_values(|s: KeyState| carried(s)),
        mouse_position_relative: (0, 0),
        mouse_wheel: 0,
        ..v
    }
}

/// The input state after the events, in order.
pub open spec fn apply_events(v: InputView, es: Seq<InputEvent>) -> InputView
    decreases es.len(),
{
    if es.len() == 0 {
        v
    } else {
        apply_event(apply_events(v, es.drop_last()), es.last())
    }
}

/// The events that the manager passes on, in order.
pub open spec fn passed_on(es: Seq<InputEvent>) -> Seq<InputEvent>
    decreases es.len(),
{
    if es.len() == 0 {
        Seq::empty()
    } else if handled(es.last()) {
        passed_on(es.drop_last())
    } else {
        passed_on(es.drop_last()).push(es.last())
    }
}

/// Position of key `k` in the list, if it is there.
fn find_key(s: &Vec<(Keycode, KeyState)>, k: Keycode) -> (r: Option<usize>)
    requires
        unique_keys(s@),
    ensures
        r matches Some(i) ==> i < s@.len() && s@[i as int].0 == k,
        r is None ==> !as_map(s@).contains_key(k),
{
    let mut i: usize = 0;
    while i < s.len()
        invariant
            0 <= i <= s@.len(),
            forall|j: int| 0 <= j < i ==> (#[trigger] s@[j]).0 != k,
        decreases s@.len() - i,
    {
        if s[i].0 == k {
            return Some(i);
        }
        i = i + 1;
    }
    None
}

/// Position of button `b` in the list, if it is there.
fn find_button(s: &Vec<(MouseButton, KeyState)>, b: MouseButton) -> (r: Option<usize>)
    requires
        unique_keys(s@),
    ensures
        r matches Some(i) ==> i < s@.len() && s@[i as int].0 == b,
        r is None ==> !as_map(s@).contains_key(b),
{
    let mut i: usize = 0;
    while i < s.len()
        invariant
            0 <= i <= s@.len(),
            forall|j: int| 0 <= j < i ==> (#[trigger] s@[j]).0 != b,
        decreases s@.len() - i,
    {
        if s[i].0 == b {
            return Some(i);
        }
        i = i + 1;
    }
    None
}

/// The keybinds with their names as character sequences.
pub open spec fn bind_pairs(s: Seq<(String, Keycode)>) -> Seq<(Seq<char>, Keycode)> {
    s.map_values(|e: (String, Keycode)| (e.0@, e.1))
}

/// Position of the keybind named `name`, if it is there.
fn find_bind(s: &Vec<(String, Keycode)>, name: &String) -> (r: Option<usize>)
    requires
        unique_keys(bind_pairs(s@)),
    ensures
        r matches Some(i) ==> i < s@.len() && s@[i as int].0@ == name@,
        r is None ==> !as_map(bind_pairs(s@)).contains_key(name@),
{
    let mut i: usize = 0;
    while i < s.len()
        invariant
            0 <= i <= s@.len(),
            forall|j: int| 0 <= j < i ==> (#[trigger] s@[j]).0@ != name@,
        decreases s@.len() - i,
    {
        if s[i].0 == *name {
            return Some(i);
        }
        i = i + 1;
    }
    proof {
        assert forall|j: int| 0 <= j < bind_pairs(s@).len() implies #[trigger] bind_pairs(s@)[j].0 != name@ by {
            assert(bind_pairs(s@)[j].0 == s@[j].0@);
        }
    }
    None
}

/// Every entry keeps its state but no longer counts as changed.
fn carry_all<K: Copy>(s: &mut Vec<(K, KeyState)>)
    requires
        unique_keys(old(s)@),
    ensures
        unique_keys(final(s)@),
        as_map(final(s)@) == as_map(old(s)@).map_values(|st: KeyState| carried(st)),
{
    let n = s.len();
    let mut i: usize = 0;
    while i < n
        invariant
            n == s@.len(),
            n == old(s)@.len(),
            0 <= i <= n,
            forall|j: int|
                0 <= j < i ==> #[trigger] s@[j] == (old(s)@[j].0, carried(old(s)@[j].1)),
            forall|j: int| i <= j < n ==> #[trigger] s@[j] == old(s)@[j],
        decreases n - i,
    {
        let (k, mut state) = s[i];
        let down = state.down;
        state.update(down);
        s.set(i, (k, state));
        i = i + 1;
    }
    proof {
        let o = old(s)@;
        let t = s@;
        assert forall|a: int, b: int| 0 <= a < t.len() && 0 <= b < t.len() && #[trigger] t[a].0 == #[trigger] t[b].0 implies a == b by {
            assert(o[a].0 == t[a].0 && o[b].0 == t[b].0);
        }
        let m = as_map(o).map_values(|st: KeyState| carried(st));
        assert forall|x: K| #[trigger] as_map(t).contains_key(x) <==> m.contains_key(x) by {
            if as_map(t).contains_key(x) {
                let j = choose|j: int| 0 <= j < t.len() && #[trigger] t[j].0 == x;
                assert(o[j].0 == x);
            }
            if as_map(o).contains_key(x) {
                let j = choose|j: int| 0 <= j < o.len() && #[trigger] o[j].0 == x;
                assert(t[j].0 == x);
            }
        }
        assert forall|x: K| #[trigger] as_map(t).contains_key(x) implies as_map(t)[x] == m[x] by {
            let j = choose|j: int| 0 <= j < t.len() && #[trigger] t[j].0 == x;
            lemma_as_map_index(t, j);
            lemma_as_map_index(o, j);
        }
        assert(as_map(t) =~= m);
    }
}

/// Moves an entry of an association list to its state after an event.
fn record_event<K: Copy>(s: &mut Vec<(K, KeyState)>, k: K, at: Option<usize>, unseen_down: bool, down: bool)
    requires
        unique_keys(old(s)@),
        at matches Some(i) ==> i < old(s)@.len() && old(s)@[i as int].0 == k,
        at is None ==> !as_map(old(s)@).contains_key(k),
    ensures
        unique_keys(final(s)@),
        as_map(final(s)@) == after_event(as_map(old(s)@), k, unseen_down, down),
{
    match at {
        Some(i) => {
            let mut state = s[i].1;
            proof {
                lemma_as_map_index(s@, i as int);
            }
            state.update(down);
            proof {
                lemma_as_map_update(s@, i as int, state);
            }
            s.set(i, (k, state));
        },
        None => {
            let mut state = KeyState { down: unseen_down, changed: false };
            state.update(down);
            proof {
                lemma_as_map_push(s@, k, state);
            }
            s.push((k, state));
        },
    }
}

impl View for InputManager {
    type V = InputView;

    closed spec fn view(&self) -> InputView {
        InputView {
            keys: as_map(self.key_state@),
            keybinds: as_map(bind_pairs(self.keybinds@)),
            buttons: as_map(self.mouse_state@),
            mouse_position: self.mouse_position,
            mouse_position_relative: self.mouse_position_relative,
            mouse_wheel: self.mouse_wheel,
        }
    }
}

impl Default for InputManager {
    /// Same as `InputManager::new`.
    fn default() -> (r: Self)
        ensures
            r.wf(),
            r@.keys == Map::<Keycode, KeyState>::empty(),
            r@.keybinds == Map::<Seq<char>, Keycode>::empty(),
            r@.buttons == Map::<MouseButton, KeyState>::empty(),
            r@.mouse_position == (0i32, 0i32),
            r@.mouse_position_relative == (0i32, 0i32),
            r@.mouse_wheel == 0,
    {
        InputManager::new()
    }
}

impl InputManager {
    pub closed spec fn wf(&self) -> bool {
        &&& unique_keys(self.key_state@)
        &&& unique_keys(bind_pairs(self.keybinds@))
        &&& unique_keys(self.mouse_state@)
    }

    /// A manager that has seen no event and holds no keybind.
    pub fn new() -> (r: InputManager)
        ensures
            r.wf(),
            r@.keys == Map::<Keycode, KeyState>::empty(),
            r@.keybinds == Map::<Seq<char>, Keycode>::empty(),
            r@.buttons == Map::<MouseButton, KeyState>::empty(),
            r@.mouse_position == (0i32, 0i32),
            r@.mouse_position_relative == (0i32, 0i32),
            r@.mouse_wheel == 0,
    {
        let r = InputManager {
            key_state: Vec::new(),
            keybinds: Vec::new(),
            mouse_state: Vec::new(),
            mouse_position: (0, 0),
            mouse_position_relative: (0, 0),
            mouse_wheel: 0,
        };
        assert(r@.keys =~= Map::<Keycode, KeyState>::empty());
        assert(bind_pairs(r.keybinds@) =~= Seq::empty());
        assert(r@.keybinds =~= Map::<Seq<char>, Keycode>::empty());
        assert(r@.buttons =~= Map::<MouseButton, KeyState>::empty());
        r
    }

    /// Starts a frame: every key and mouse button keeps its state but no
    /// longer counts as changed, and the wheel and relative motion go back
    /// to zero.
    pub fn begin_frame(&mut self)
        requires
            old(self).wf(),
        ensures
            final(self).wf(),
            final(self)@ == frame_start(old(self)@),
    {
        self.mouse_wheel = 0;
        self.mouse_position_relative = (0, 0);
        carry_all(&mut self.key_state);
        carry_all(&mut self.mouse_state);
    }

    /// Applies one event. Returns false for an event that the manager does
    /// not handle, which the caller passes on.
    pub fn handle_event(&mut self, event: InputEvent) -> (r: bool)
        requires
            old(self).wf(),
        ensures
            final(self).wf(),
            final(self)@ == apply_event(old(self)@, event),
            r == handled(event),
    {
        match event {
            InputEvent::KeyDown(Some(k)) => {
                let at = find_key(&self.key_state, k);
                record_event(&mut self.key_state, k, at, false, true);
                true
            },
            InputEvent::KeyUp(Some(k)) => {
                let at = find_key(&self.key_state, k);
                record_event(&mut self.key_state, k, at, true, false);
                true
            },
            InputEvent::KeyDown(None) | InputEvent::KeyUp(None) => true,
            InputEvent::MouseButtonDown(b) => {
                let at = find_button(&self.mouse_state, b);
                record_event(&mut self.mouse_state, b, at, false, true);
                true
            },
            InputEvent::MouseButtonUp(b) => {
                let at = find_button(&self.mouse_state, b);
                record_event(&mut self.mouse_state, b, at, true, false);
                true
            },
            InputEvent::MouseWheel(y) => {
                self.mouse_wheel = y;
                true
            },
            InputEvent::MouseMotion { x, y, xrel, yrel } => {
                self.mouse_position = (x, y);
                self.mouse_position_relative = (xrel, yrel);
                true
            },
            InputEvent::Other(_) => false,
        }
    }

    /// Updates the state with a frame's events, in order, after starting
    /// the frame. Returns the events that the manager does not handle.
    pub fn update(&mut self, events: Vec<InputEvent>) -> (r: Vec<InputEvent>)
        requires
            old(self).wf(),
        ensures
            final(self).wf(),
            final(self)@ == apply_events(frame_start(old(self)@), events@),
            r@ == passed_on(events@),
    {
        self.begin_frame();
        let ghost start = self@;
        let mut passthrough: Vec<InputEvent> = Vec::new();
        let mut i: usize = 0;
        while i < events.len()
            invariant
                0 <= i <= events@.len(),
                self.wf(),
                start == frame_start(old(self)@),
                self@ == apply_events(start, events@.take(i as int)),
                passthrough@ == passed_on(events@.take(i as int)),
            decreases events@.len() - i,
        {
            let e = events[i];
            proof {
                assert(events@.take(i + 1).drop_last() =~= events@.take(i as int));
            }
            if !self.handle_event(e) {
                passthrough.push(e);
            }
            i = i + 1;
        }
        assert(events@.take(events@.len() as int) =~= events@);
        passthrough
    }

    /// The current state of a keyboard key; a key not seen yet is up and
    /// unchanged.
    pub fn key(&self, keycode: Keycode) -> (r: KeyState)
        requires
            self.wf(),
        ensures
            self@.keys.contains_key(keycode) ==> r == self@.keys[keycode],
            !self@.keys.contains_key(keycode) ==> r == (KeyState { down: false, changed: false }),
    {
        match find_key(&self.key_state, keycode) {
            Some(i) => {
                proof {
                    lemma_as_map_index(self.key_state@, i as int);
                }
                self.key_state[i].1
            },
            None => KeyState { down: false, changed: false },
        }
    }

    /// The current state of the key bound to `name`.
    pub fn keybind(&self, name: &str) -> (r: Result<KeyState, InputError>)
        requires
            self.wf(),
        ensures
            !self@.keybinds.contains_key(name@) ==> (r matches Err(InputError::KeybindNotFound(n))
                && n@ == name@),
            self@.keybinds.contains_key(name@) ==> {
                let k = self@.keybinds[name@];
                &&& r is Ok
                &&& self@.keys.contains_key(k) ==> r->Ok_0 == self@.keys[k]
                &&& !self@.keys.contains_key(k) ==> r->Ok_0 == (KeyState { down: false, changed: false })
            },
    {
        let owned = name.to_owned();
        match find_bind(&self.keybinds, &owned) {
            Some(i) => {
                proof {
                    lemma_as_map_index(bind_pairs(self.keybinds@), i as int);
                }
                Ok(self.key(self.keybinds[i].1))
            },
            None => Err(InputError::KeybindNotFound(owned)),
        }
    }

    /// Binds `name` to a key, replacing a binding of the same name.
    pub fn set_keybind(&mut self, name: &str, keycode: Keycode)
        requires
            old(self).wf(),
        ensures
            final(self).wf(),
            final(self)@ == (InputView { keybinds: old(self)@.keybinds.insert(name@, keycode), ..old(self)@ }),
    {
        let owned = name.to_owned();
        match find_bind(&self.keybinds, &owned) {
            Some(i) => {
                proof {
                    let pairs = bind_pairs(self.keybinds@);
                    lemma_as_map_update(pairs, i as int, keycode);
                    assert(bind_pairs(self.keybinds@.update(i as int, (owned, keycode)))
                        =~= pairs.update(i as int, (pairs[i as int].0, keycode)));
                }
                self.keybinds.set(i, (owned, keycode));
            },
            None => {
                proof {
                    lemma_as_map_push(bind_pairs(self.keybinds@), name@, keycode);
                    assert(bind_pairs(self.keybinds@.push((owned, keycode))) =~= bind_pairs(self.keybinds@).push((name@, keycode)));
                }
                self.keybinds.push((owned, keycode));
            },
        }
    }

    /// Removes the binding named `name`, if there is one.
    pub fn clear_keybind(&mut self, name: &str)
        requires
            old(self).wf(),
        ensures
            final(self).wf(),
            final(self)@ == (InputView { keybinds: old(self)@.keybinds.remove(name@), ..old(self)@ }),
    {
        let owned = name.to_owned();
        match find_bind(&self.keybinds, &owned) {
            Some(i) => {
                proof {
                    lemma_as_map_remove(bind_pairs(self.keybinds@), i as int);
                    assert(bind_pairs(self.keybinds@.remove(i as int)) =~= bind_pairs(self.keybinds@).remove(i as int));
                }
                self.keybinds.remove(i);
            },
            None => {
                proof {
                    assert(as_map(bind_pairs(self.keybinds@)).remove(name@) =~= as_map(bind_pairs(self.keybinds@)));
                }
            },
        }
    }

    /// The current state of a mouse button; `MouseButtonNotFound` for a
    /// button not seen yet.
    pub fn button(&self, button: MouseButton) -> (r: Result<KeyState, InputError>)
        requires
            self.wf(),
        ensures
            self@.buttons.contains_key(button) ==> r == Ok::<KeyState, InputError>(self@.buttons[button]),
            !self@.buttons.contains_key(button) ==> r == Err::<KeyState, InputError>(
                InputError::MouseButtonNotFound(button),
            ),
    {
        match find_button(&self.mouse_state, button) {
            Some(i) => {
                proof {
                    lemma_as_map_index(self.mouse_state@, i as int);
                }
                Ok(self.mouse_state[i].1)
            },
            None => Err(InputError::MouseButtonNotFound(button)),
        }
    }

    /// The mouse position in pixels, from the window's top left corner.
    pub fn mouse_position(&self) -> (r: (i32, i32))
        ensures
            r == self@.mouse_position,
    {
        self.mouse_position
    }

    /// How far the mouse moved since the previous frame, in pixels.
    pub fn mouse_position_relative(&self) -> (r: (i32, i32))
        ensures
            r == self@.mouse_position_relative,
    {
        self.mouse_position_relative
    }

    /// The wheel's movement this frame: below 0 scrolling down, above 0 up.
    pub fn mouse_wheel(&self) -> (r: i32)
        ensures
            r == self@.mouse_wheel,
    {
        self.mouse_wheel
    }
}

} // verus!
