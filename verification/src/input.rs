//! Keys bound to controls, and what the keys are doing.
//!
//! A key may move several controls and a control may hang on several keys.
//! Every pairing of a key with a control has a state of its own.

use std::collections::HashMap;
use vstd::prelude::*;

verus! {

broadcast use vstd::std_specs::hash::group_hash_axioms;

/// The code of a physical key, as the host numbers its keys.
#[derive(Clone, Copy, Debug, PartialEq, Eq, Hash, Structural)]
pub struct KeyCode(pub u32);

/// A physical key as the host reports it.
#[derive(Clone, Copy, Debug, PartialEq, Eq, Structural)]
pub enum PhysicalKey {
    Code(KeyCode),
    /// A key for which the host has no code.
    Unidentified,
}

/// Which way a key went.
#[derive(Clone, Copy, Debug, PartialEq, Eq, Structural)]
pub enum ElementState {
    Pressed,
    Released,
}

/// What the game can be told to do.
#[derive(Clone, Copy, Debug, PartialEq, Eq, Hash, Structural)]
pub enum Control {
    MoveUp,
    MoveDown,
    MoveLeft,
    MoveRight,
}

/// What one pairing of a key with a control is doing.
#[derive(Clone, Copy, Debug, PartialEq, Eq, Structural)]
pub enum KeyState {
    /// The key went down since the last update.
    Pressed,
    /// The key went down before the last update and has not come up.
    Held,
    /// The key came up.
    Released,
    /// Nothing has happened to the key yet.
    Inactive,
}

impl KeyState {
    pub open spec fn spec_is_pressed(&self) -> bool {
        *self == KeyState::Pressed || *self == KeyState::Held
    }

    /// Whether the key is down.
    #[verifier::when_used_as_spec(spec_is_pressed)]
    pub fn is_pressed(&self) -> (down: bool)
        ensures
            down == self.spec_is_pressed(),
    {
        match self {
            KeyState::Pressed | KeyState::Held => true,
            KeyState::Released | KeyState::Inactive => false,
        }
    }

    /// The state that an update leaves behind: a key that went down is
    /// from then on held.
    pub open spec fn updated(self) -> KeyState {
        if self == KeyState::Pressed {
            KeyState::Held
        } else {
            self
        }
    }
}

impl Default for KeyState {
    fn default() -> (state: KeyState)
        ensures
            state == KeyState::Inactive,
    {
        KeyState::Inactive
    }
}

/// The state into which a key's going up or down puts its pairings.
pub open spec fn state_after(state: ElementState) -> KeyState {
    match state {
        ElementState::Pressed => KeyState::Pressed,
        ElementState::Released => KeyState::Released,
    }
}

/// One pairing of a key with a control, and what it is doing.
pub struct Binding {
    pub key: KeyCode,
    pub control: Control,
    pub state: KeyState,
}

/// The pairings once `physical_key` has gone the way of `state`: those of
/// the key take the new state, the others keep theirs.
pub open spec fn after_input(
    bindings: Seq<Binding>,
    physical_key: PhysicalKey,
    state: ElementState,
) -> Seq<Binding> {
    Seq::new(
        bindings.len(),
        |i: int|
            Binding {
                key: bindings[i].key,
                control: bindings[i].control,
                state: if physical_key == PhysicalKey::Code(bindings[i].key) {
                    state_after(state)
                } else {
                    bindings[i].state
                },
            },
    )
}

/// The pairings at the end of a frame: keys that went down are from then
/// on held.
pub open spec fn after_update(bindings: Seq<Binding>) -> Seq<Binding> {
    Seq::new(
        bindings.len(),
        |i: int|
            Binding {
                key: bindings[i].key,
                control: bindings[i].control,
                state: bindings[i].state.updated(),
            },
    )
}

/// The pairings with every key let go of.
pub open spec fn after_reset(bindings: Seq<Binding>) -> Seq<Binding> {
    Seq::new(
        bindings.len(),
        |i: int|
            Binding {
                key: bindings[i].key,
                control: bindings[i].control,
                state: KeyState::Inactive,
            },
    )
}

/// The pairings once `key` has been registered for `control`: one more,
/// with nothing having happened to its key, unless the two were paired
/// already.
pub open spec fn after_register(bindings: Seq<Binding>, key: KeyCode, control: Control) -> Seq<
    Binding,
> {
    if is_bound(bindings, key, control) {
        bindings
    } else {
        bindings.push(Binding { key, control, state: KeyState::Inactive })
    }
}

/// Whether `bindings` pairs `key` with `control`.
pub open spec fn is_bound(bindings: Seq<Binding>, key: KeyCode, control: Control) -> bool {
    exists|i: int| 0 <= i < bindings.len() && bindings[i].key == key && bindings[i].control == control
}

/// Whether a pairing of `control` in `bindings` has its key down.
pub open spec fn any_pressed(bindings: Seq<Binding>, control: Control) -> bool {
    exists|i: int|
        0 <= i < bindings.len() && bindings[i].control == control && bindings[i].state.is_pressed()
}

/// The number under which a control's pairings are filed.
pub open spec fn ordinal(control: Control) -> u8 {
    match control {
        Control::MoveUp => 0,
        Control::MoveDown => 1,
        Control::MoveLeft => 2,
        Control::MoveRight => 3,
    }
}

fn ordinal_of(control: Control) -> (n: u8)
    ensures
        n == ordinal(control),
{
    match control {
        Control::MoveUp => 0,
        Control::MoveDown => 1,
        Control::MoveLeft => 2,
        Control::MoveRight => 3,
    }
}

fn lists(list: &Vec<usize>, index: usize) -> (found: bool)
    ensures
        found == list@.contains(index),
{
    let mut i: usize = 0;
    while i < list.len()
        invariant
            i <= list@.len(),
            forall|j: int| 0 <= j < i ==> list@[j] != index,
        decreases list@.len() - i,
    {
        if list[i] == index {
            return true;
        }
        i = i + 1;
    }
    false
}

/// The bindings of keys to controls, and the state of each.
pub struct InputHandler {
    key_map: HashMap<u32, Vec<usize>>,
    key_state: Vec<KeyState>,
    control_map: HashMap<u8, Vec<usize>>,
    pair_count: usize,
    pairs: Ghost<Seq<(KeyCode, Control)>>,
}

impl View for InputHandler {
    type V = Seq<Binding>;

    /// The pairings in the order in which they were registered.
    closed spec fn view(&self) -> Seq<Binding> {
        Seq::new(
            self.pairs@.len(),
            |i: int|
                Binding { key: self.pairs@[i].0, control: self.pairs@[i].1, state: self.key_state@[i] },
        )
    }
}

impl InputHandler {
    /// The two indexes list exactly the pairings, and no pairing occurs
    /// twice.
    pub closed spec fn wf(&self) -> bool {
        &&& self.pair_count == self.pairs@.len()
        &&& self.key_state@.len() == self.pairs@.len()
        &&& forall|i: int, j: int|
            0 <= i < j < self.pairs@.len() ==> self.pairs@[i] != self.pairs@[j]
        &&& forall|k: u32, j: int|
            self.key_map@.contains_key(k) && 0 <= j < self.key_map@[k]@.len() ==> {
                &&& (#[trigger] self.key_map@[k]@[j]) < self.pairs@.len()
                &&& self.pairs@[self.key_map@[k]@[j] as int].0.0 == k
            }
        &&& forall|i: int|
            0 <= i < self.pairs@.len() ==> {
                &&& self.key_map@.contains_key((#[trigger] self.pairs@[i]).0.0)
                &&& self.key_map@[self.pairs@[i].0.0]@.contains(i as usize)
            }
        &&& forall|c: u8, j: int|
            self.control_map@.contains_key(c) && 0 <= j < self.control_map@[c]@.len() ==> {
                &&& (#[trigger] self.control_map@[c]@[j]) < self.pairs@.len()
                &&& ordinal(self.pairs@[self.control_map@[c]@[j] as int].1) == c
            }
        &&& forall|i: int|
            0 <= i < self.pairs@.len() ==> {
                &&& self.control_map@.contains_key(ordinal((#[trigger] self.pairs@[i]).1))
                &&& self.control_map@[ordinal(self.pairs@[i].1)]@.contains(i as usize)
            }
    }

    pub fn new() -> (handler: InputHandler)
        ensures
            handler.wf(),
            handler@ == Seq::<Binding>::empty(),
    {
        let handler = InputHandler {
            key_map: HashMap::new(),
            key_state: Vec::new(),
            control_map: HashMap::new(),
            pair_count: 0,
            pairs: Ghost(Seq::empty()),
        };
        assert(handler@ =~= Seq::<Binding>::empty());
        handler
    }

    /// Whether `key` is paired with `control` already.
    fn has_pair(&self, key: KeyCode, control: Control) -> (found: bool)
        requires
            self.wf(),
        ensures
            found == is_bound(self@, key, control),
    {
        let c = ordinal_of(control);
        match (self.key_map.get(&key.0), self.control_map.get(&c)) {
            (Some(keys), Some(controls)) => {
                let mut n: usize = 0;
                while n < keys.len()
                    invariant
                        self.wf(),
                        c == ordinal(control),
                        n <= keys@.len(),
                        self.key_map@.contains_key(key.0) && self.key_map@[key.0] == *keys,
                        self.control_map@.contains_key(c) && self.control_map@[c] == *controls,
                        forall|j: int| 0 <= j < n ==> !controls@.contains(#[trigger] keys@[j]),
                    decreases keys@.len() - n,
                {
                    if lists(controls, keys[n]) {
                        proof {
                            let i = keys@[n as int] as int;
                            let at = choose|at: int|
                                0 <= at < controls@.len() && controls@[at] == keys@[n as int];
                            assert(self.control_map@[c]@[at] == i);
                            assert(self.key_map@[key.0]@[n as int] == i);
                            assert(self@[i].key == key && self@[i].control == control);
                        }
                        return true;
                    }
                    n = n + 1;
                }
                proof {
                    assert forall|i: int| 0 <= i < self@.len() implies !(self@[i].key == key
                        && self@[i].control == control) by {
                        if self.pairs@[i].0 == key && self.pairs@[i].1 == control {
                            assert(keys@.contains(i as usize));
                            assert(controls@.contains(i as usize));
                            let at = choose|at: int| 0 <= at < keys@.len() && keys@[at] == i as usize;
                            assert(!controls@.contains(keys@[at]));
                        }
                    }
                }
                false
            },
            (None, _) => {
                proof {
                    assert forall|i: int| 0 <= i < self@.len() implies !(self@[i].key == key
                        && self@[i].control == control) by {
                        assert(self.key_map@.contains_key(self.pairs@[i].0.0));
                    }
                }
                false
            },
            (_, None) => {
                proof {
                    assert forall|i: int| 0 <= i < self@.len() implies !(self@[i].key == key
                        && self@[i].control == control) by {
                        assert(self.control_map@.contains_key(ordinal(self.pairs@[i].1)));
                    }
                }
                false
            },
        }
    }

    /// Pairs `key` with `control`, unless they are paired already.
    pub fn register_control(&mut self, key: KeyCode, control: Control)
        requires
            old(self).wf(),
        ensures
            final(self).wf(),
            final(self)@ == after_register(old(self)@, key, control),
    {
        if self.has_pair(key, control) {
            return ;
        }
        let c = ordinal_of(control);
        let ghost before = *self;
        let index = self.pair_count;
        let mut keys: Vec<usize> = match self.key_map.remove(&key.0) {
            Some(keys) => keys,
            None => Vec::new(),
        };
        let ghost old_keys = keys@;
        keys.push(index);
        let ghost new_keys = keys@;
        self.key_map.insert(key.0, keys);
        let mut controls: Vec<usize> = match self.control_map.remove(&c) {
            Some(controls) => controls,
            None => Vec::new(),
        };
        let ghost old_controls = controls@;
        controls.push(index);
        let ghost new_controls = controls@;
        self.control_map.insert(c, controls);
        self.key_state.push(KeyState::default());
        self.pair_count = self.key_state.len();
        self.pairs = Ghost(self.pairs@.push((key, control)));
        proof {
            let pairs = self.pairs@;
            let old_pairs = before.pairs@;
            assert(forall|i: int| 0 <= i < old_pairs.len() ==> pairs[i] == old_pairs[i]);
            assert(pairs[index as int] == (key, control));
            assert forall|i: int, j: int| 0 <= i < j < pairs.len() implies pairs[i]
                != pairs[j] by {
                if j == index {
                    assert(!(before@[i].key == key && before@[i].control == control));
                }
            }
            assert forall|k: u32, j: int|
                self.key_map@.contains_key(k) && 0 <= j < self.key_map@[k]@.len() implies {
                &&& (#[trigger] self.key_map@[k]@[j]) < pairs.len()
                &&& pairs[self.key_map@[k]@[j] as int].0.0 == k
            } by {
                if k == key.0 {
                    if j < old_keys.len() {
                        assert(before.key_map@.contains_key(k));
                        assert(before.key_map@[k]@[j] == new_keys[j]);
                    }
                } else {
                    assert(before.key_map@.contains_key(k));
                    assert(before.key_map@[k]@[j] == self.key_map@[k]@[j]);
                }
            }
            assert forall|i: int| 0 <= i < pairs.len() implies {
                &&& self.key_map@.contains_key((#[trigger] pairs[i]).0.0)
                &&& self.key_map@[pairs[i].0.0]@.contains(i as usize)
            } by {
                if i == index {
                    assert(new_keys[old_keys.len() as int] == index);
                } else {
                    assert(before.key_map@.contains_key(old_pairs[i].0.0));
                    if pairs[i].0.0 == key.0 {
                        let at = choose|at: int|
                            0 <= at < old_keys.len() && old_keys[at] == i as usize;
                        assert(new_keys[at] == i as usize);
                    }
                }
            }
            assert forall|n: u8, j: int|
                self.control_map@.contains_key(n) && 0 <= j < self.control_map@[n]@.len() implies {
                &&& (#[trigger] self.control_map@[n]@[j]) < pairs.len()
                &&& ordinal(pairs[self.control_map@[n]@[j] as int].1) == n
            } by {
                if n == c {
                    if j < old_controls.len() {
                        assert(before.control_map@.contains_key(n));
                        assert(before.control_map@[n]@[j] == new_controls[j]);
                    }
                } else {
                    assert(before.control_map@.contains_key(n));
                    assert(before.control_map@[n]@[j] == self.control_map@[n]@[j]);
                }
            }
            assert forall|i: int| 0 <= i < pairs.len() implies {
                &&& self.control_map@.contains_key(ordinal((#[trigger] pairs[i]).1))
                &&& self.control_map@[ordinal(pairs[i].1)]@.contains(i as usize)
            } by {
                if i == index {
                    assert(new_controls[old_controls.len() as int] == index);
                } else {
                    assert(before.control_map@.contains_key(ordinal(old_pairs[i].1)));
                    if ordinal(pairs[i].1) == c {
                        let at = choose|at: int|
                            0 <= at < old_controls.len() && old_controls[at] == i as usize;
                        assert(new_controls[at] == i as usize);
                    }
                }
            }
            assert(self@ =~= before@.push(Binding { key, control, state: KeyState::Inactive }));
        }
    }

    /// Records that a key went down or came up: every pairing of that key
    /// takes the new state.
    pub fn handle_input(&mut self, physical_key: PhysicalKey, state: ElementState)
        requires
            old(self).wf(),
        ensures
            final(self).wf(),
            final(self)@ == after_input(old(self)@, physical_key, state),
    {
        if let PhysicalKey::Code(key) = physical_key {
            let ghost before = *self;
            let new_state = match state {
                ElementState::Pressed => KeyState::Pressed,
                ElementState::Released => KeyState::Released,
            };
            match self.key_map.get(&key.0) {
                Some(indices) => {
                    let mut n: usize = 0;
                    while n < indices.len()
                        invariant
                            before.wf(),
                            before.key_map@.contains_key(key.0),
                            before.key_map@[key.0] == *indices,
                            n <= indices@.len(),
                            self.key_state@.len() == before.key_state@.len(),
                            self.key_map == before.key_map,
                            self.control_map == before.control_map,
                            self.pair_count == before.pair_count,
                            self.pairs == before.pairs,
                            forall|i: int|
                                0 <= i < self.key_state@.len() ==> #[trigger] self.key_state@[i] == (
                                if exists|j: int| 0 <= j < n && indices@[j] == i {
                                    new_state
                                } else {
                                    before.key_state@[i]
                                }),
                        decreases indices@.len() - n,
                    {
                        let index = indices[n];
                        let ghost states = self.key_state@;
                        assert(before.key_map@[key.0]@[n as int] < before.pairs@.len());
                        self.key_state.set(index, new_state);
                        n = n + 1;
                        proof {
                            assert forall|i: int| 0 <= i < self.key_state@.len() implies #[trigger]
                                self.key_state@[i] == (if exists|j: int|
                                0 <= j < n && indices@[j] == i {
                                new_state
                            } else {
                                before.key_state@[i]
                            }) by {
                                if i == index {
                                    assert(indices@[n - 1] == i);
                                } else if exists|j: int| 0 <= j < n - 1 && indices@[j] == i {
                                    let j = choose|j: int| 0 <= j < n - 1 && indices@[j] == i;
                                    assert(0 <= j < n && indices@[j] == i);
                                } else {
                                    assert(states[i] == before.key_state@[i]);
                                }
                            }
                        }
                    }
                    proof {
                        assert forall|i: int| 0 <= i < before@.len() implies #[trigger] self.key_state@[i]
                            == (if before.pairs@[i].0 == key {
                            new_state
                        } else {
                            before.key_state@[i]
                        }) by {
                            if before.pairs@[i].0 == key {
                                assert(before.key_map@[before.pairs@[i].0.0]@.contains(i as usize));
                                let j = choose|j: int|
                                    0 <= j < indices@.len() && indices@[j] == i as usize;
                                assert(0 <= j < n && indices@[j] == i);
                            } else if exists|j: int| 0 <= j < n && indices@[j] == i {
                                let j = choose|j: int| 0 <= j < n && indices@[j] == i;
                                assert(before.pairs@[before.key_map@[key.0]@[j] as int].0.0 == key.0);
                            }
                        }
                        assert(self@ =~= after_input(before@, physical_key, state));
                    }
                },
                None => {
                    proof {
                        assert forall|i: int| 0 <= i < before@.len() implies before.pairs@[i].0
                            != key by {
                            assert(before.key_map@.contains_key(before.pairs@[i].0.0));
                        }
                        assert(self@ =~= after_input(before@, physical_key, state));
                    }
                },
            }
        } else {
            assert(self@ =~= after_input(old(self)@, physical_key, state));
        }
    }

    /// Ends a frame: a key that went down during it is from now on held.
    pub fn update(&mut self)
        requires
            old(self).wf(),
        ensures
            final(self).wf(),
            final(self)@ == after_update(old(self)@),
    {
        let ghost before = self.key_state@;
        let mut n: usize = 0;
        while n < self.key_state.len()
            invariant
                n <= self.key_state@.len(),
                self.key_state@.len() == before.len(),
                self.key_map == old(self).key_map,
                self.control_map == old(self).control_map,
                self.pair_count == old(self).pair_count,
                self.pairs == old(self).pairs,
                forall|i: int| 0 <= i < n ==> #[trigger] self.key_state@[i] == before[i].updated(),
                forall|i: int| n <= i < before.len() ==> #[trigger] self.key_state@[i] == before[i],
            decreases self.key_state@.len() - n,
        {
            match self.key_state[n] {
                KeyState::Pressed => { self.key_state.set(n, KeyState::Held); },
                _ => {},
            }
            n = n + 1;
        }
        assert(self@ =~= after_update(old(self)@));
    }

    /// Whether a key of `control` is down.
    pub fn is_pressed(&self, control: Control) -> (down: bool)
        requires
            self.wf(),
        ensures
            down == any_pressed(self@, control),
    {
        let c = ordinal_of(control);
        match self.control_map.get(&c) {
            Some(indices) => {
                let mut result = false;
                let mut n: usize = 0;
                while n < indices.len()
                    invariant
                        self.wf(),
                        c == ordinal(control),
                        self.control_map@.contains_key(c),
                        self.control_map@[c] == *indices,
                        n <= indices@.len(),
                        result == exists|j: int|
                            0 <= j < n && self.key_state@[indices@[j] as int].is_pressed(),
                    decreases indices@.len() - n,
                {
                    assert(self.control_map@[c]@[n as int] < self.pairs@.len());
                    let down = self.key_state[indices[n]].is_pressed();
                    let ghost so_far = result;
                    result = result || down;
                    n = n + 1;
                    proof {
                        if so_far {
                            let j = choose|j: int|
                                0 <= j < n - 1 && self.key_state@[indices@[j] as int].is_pressed();
                            assert(0 <= j < n && self.key_state@[indices@[j] as int].is_pressed());
                        } else if down {
                            assert(self.key_state@[indices@[n - 1] as int].is_pressed());
                        } else {
                            assert forall|j: int| 0 <= j < n implies !self.key_state@[indices@[j] as int].is_pressed() by {
                                if j < n - 1 {
                                }
                            }
                        }
                    }
                }
                proof {
                    if result {
                        let j = choose|j: int|
                            0 <= j < n && self.key_state@[indices@[j] as int].is_pressed();
                        let i = indices@[j] as int;
                        assert(self.control_map@[c]@[j] == i);
                        assert(self@[i].control == control && self@[i].state.is_pressed());
                    } else {
                        assert forall|i: int| 0 <= i < self@.len() implies !(self@[i].control
                            == control && self@[i].state.is_pressed()) by {
                            if self.pairs@[i].1 == control {
                                assert(self.control_map@[ordinal(self.pairs@[i].1)]@.contains(
                                    i as usize,
                                ));
                                let j = choose|j: int|
                                    0 <= j < indices@.len() && indices@[j] == i as usize;
                                assert(!self.key_state@[indices@[j] as int].is_pressed());
                            }
                        }
                    }
                }
                result
            },
            None => {
                proof {
                    assert forall|i: int| 0 <= i < self@.len() implies self@[i].control
                        != control by {
                        assert(self.control_map@.contains_key(ordinal(self.pairs@[i].1)));
                    }
                }
                false
            },
        }
    }

    /// Forgets what the keys were doing: nothing has happened to any of
    /// them.
    pub fn reset_states(&mut self)
        requires
            old(self).wf(),
        ensures
            final(self).wf(),
            final(self)@ == after_reset(old(self)@),
    {
        let mut n: usize = 0;
        while n < self.key_state.len()
            invariant
                n <= self.key_state@.len(),
                self.key_state@.len() == old(self).key_state@.len(),
                self.key_map == old(self).key_map,
                self.control_map == old(self).control_map,
                self.pair_count == old(self).pair_count,
                self.pairs == old(self).pairs,
                forall|i: int| 0 <= i < n ==> #[trigger] self.key_state@[i] == KeyState::Inactive,
            decreases self.key_state@.len() - n,
        {
            self.key_state.set(n, KeyState::default());
            n = n + 1;
        }
        assert(self@ =~= after_reset(old(self)@));
    }
}

/// A key that goes down moves every control it is paired with, and a
/// control stays moved over the ends of frames until a key of its own comes
/// up.
pub proof fn lemma_key_down_moves_its_controls(bindings: Seq<Binding>, key: KeyCode, control: Control)
    requires
        is_bound(bindings, key, control),
    ensures
        any_pressed(after_input(bindings, PhysicalKey::Code(key), ElementState::Pressed), control),
        any_pressed(
            after_update(after_input(bindings, PhysicalKey::Code(key), ElementState::Pressed)),
            control,
        ),
{
    let i = choose|i: int|
        0 <= i < bindings.len() && bindings[i].key == key && bindings[i].control == control;
    let down = after_input(bindings, PhysicalKey::Code(key), ElementState::Pressed);
    assert(down[i].control == control && down[i].state.is_pressed());
    let held = after_update(down);
    assert(held[i].control == control && held[i].state.is_pressed());
}

/// After a reset no control is moved, whatever the keys were doing.
pub proof fn lemma_reset_moves_nothing(bindings: Seq<Binding>, control: Control)
    ensures
        !any_pressed(after_reset(bindings), control),
{
}

/// Registering a pairing twice is registering it once.
pub proof fn lemma_register_twice(bindings: Seq<Binding>, key: KeyCode, control: Control)
    ensures
        after_register(after_register(bindings, key, control), key, control) == after_register(
            bindings,
            key,
            control,
        ),
        is_bound(after_register(bindings, key, control), key, control),
{
    let once = after_register(bindings, key, control);
    if !is_bound(bindings, key, control) {
        let last = bindings.len() as int;
        assert(once[last].key == key && once[last].control == control);
    }
}

} // verus!
