//! Which keys are held down, and for how many frames.

use std::collections::HashMap;
use vstd::prelude::*;
use vstd::std_specs::iter::IteratorSpec;

verus! {

broadcast use vstd::std_specs::hash::group_hash_axioms;

/// How long a key has been down.
#[derive(Clone, Copy, Debug, PartialEq, Eq)]
pub struct KeyState {
    /// The number of frames since the key went down; `1` in the frame in
    /// which it did.
    pub ticks: u32,
}

/// What the keyboard reported in a frame: a key, by its code, and whether
/// it went down or up. An event for a key without a code has none.
#[derive(Clone, Copy, Debug, PartialEq, Eq)]
pub struct KeyboardInput {
    pub virtual_keycode: Option<u32>,
    pub pressed: bool,
}

/// The keys that are down, each with its state.
#[derive(Debug)]
pub struct KeyboardState {
    keys_down: HashMap<u32, KeyState>,
}

/// The keys after `input`: a key that goes down is held from now on, with
/// no frame counted yet, unless it is held already; a key that goes up is
/// held no longer.
pub open spec fn after_input(keys: Map<u32, KeyState>, input: Option<KeyboardInput>) -> Map<
    u32,
    KeyState,
> {
    match input {
        Some(KeyboardInput { virtual_keycode: Some(key), pressed }) => if pressed {
            if keys.contains_key(key) {
                keys
            } else {
                keys.insert(key, KeyState { ticks: 0 })
            }
        } else {
            keys.remove(key)
        },
        _ => keys,
    }
}

/// The keys one frame later: each has been down for one frame more.
pub open spec fn after_tick(keys: Map<u32, KeyState>) -> Map<u32, KeyState> {
    keys.map_values(|state: KeyState| KeyState { ticks: (state.ticks + 1) as u32 })
}

/// Whether every key can be held for one frame more.
pub open spec fn all_can_tick(keys: Map<u32, KeyState>) -> bool {
    forall|key: u32| keys.contains_key(key) ==> (#[trigger] keys[key]).ticks < u32::MAX
}

impl View for KeyboardState {
    type V = Map<u32, KeyState>;

    closed spec fn view(&self) -> Map<u32, KeyState> {
        self.keys_down@
    }
}

/// The keys of a map, each once, in the order in which the map hands them
/// out.
fn keys_of(keys: &HashMap<u32, KeyState>) -> (list: Vec<u32>)
    ensures
        list@.no_duplicates(),
        forall|key: u32| list@.contains(key) <==> keys@.contains_key(key),
{
    broadcast use vstd::std_specs::hash::axiom_spec_keys_iter;

    let mut list: Vec<u32> = Vec::new();
    proof {
        let all = keys.keys().remaining();
        assert forall|j: int| 0 <= j < all.len() implies keys@.contains_key(*#[trigger] all[j]) by {
            assert(all.unref()[j] == *all[j]);
            assert(all.unref().to_set().contains(all.unref()[j]));
        }
    }
    for key in it: keys.keys()
        invariant
            list@.len() == it.index(),
            forall|j: int| 0 <= j < it.index() ==> list@[j] == *it.seq()[j],
            it.seq().unref().to_set() == keys@.dom(),
            it.seq().no_duplicates(),
            forall|j: int| 0 <= j < it.seq().len() ==> keys@.contains_key(*#[trigger] it.seq()[j]),
            forall|key: u32|
                keys@.contains_key(key) ==> exists|j: int|
                    0 <= j < it.seq().len() && *#[trigger] it.seq()[j] == key,
    {
        list.push(*key);
    }
    list
}

impl KeyboardState {
    /// A keyboard on which no key is down.
    pub fn new() -> (state: KeyboardState)
        ensures
            state@ == Map::<u32, KeyState>::empty(),
    {
        KeyboardState { keys_down: HashMap::new() }
    }

    /// The state of `key`, if it is down.
    pub fn get_down(&self, key: u32) -> (state: Option<&KeyState>)
        ensures
            match state {
                Some(s) => self@.contains_key(key) && self@[key] == *s,
                None => !self@.contains_key(key),
            },
    {
        self.keys_down.get(&key)
    }

    /// Whether `key` is down.
    pub fn is_down(&self, key: u32) -> (down: bool)
        ensures
            down == self@.contains_key(key),
    {
        self.get_down(key).is_some()
    }

    /// Whether `key` went down in the frame before this one.
    pub fn was_just_pressed(&self, key: u32) -> (just: bool)
        ensures
            just == (self@.contains_key(key) && self@[key].ticks == 1),
    {
        match self.get_down(key) {
            Some(state) => state.ticks == 1,
            None => false,
        }
    }

    /// Whether every key can be held for one frame more.
    pub open spec fn can_tick(&self) -> bool {
        all_can_tick(self@)
    }

    /// Whether `update` may be called: no key has been down for as many
    /// frames as 32 bits can count.
    pub fn can_update(&self) -> (ok: bool)
        ensures
            ok == self.can_tick(),
    {
        let list: Vec<u32> = keys_of(&self.keys_down);
        let mut i: usize = 0;
        while i < list.len()
            invariant
                i <= list@.len(),
                forall|key: u32| list@.contains(key) <==> self@.contains_key(key),
                forall|j: int| 0 <= j < i ==> (#[trigger] self@[list@[j]]).ticks < u32::MAX,
            decreases list@.len() - i,
        {
            assert(list@.contains(list@[i as int]));
            match self.keys_down.get(&list[i]) {
                Some(state) => {
                    if state.ticks == u32::MAX {
                        return false;
                    }
                },
                None => {},
            }
            i = i + 1;
        }
        proof {
            assert forall|key: u32| self@.contains_key(key) implies (#[trigger] self@[key]).ticks
                < u32::MAX by {
                assert(list@.contains(key));
                let j = choose|j: int| 0 <= j < list@.len() && list@[j] == key;
                assert(self@[list@[j]].ticks < u32::MAX);
            }
        }
        true
    }

    /// Takes in what the keyboard reported in a frame, and then counts the
    /// frame for every key that is down.
    pub fn update(&mut self, input: Option<KeyboardInput>)
        requires
            old(self).can_tick(),
        ensures
            final(self)@ == after_tick(after_input(old(self)@, input)),
    {
        match input {
            Some(KeyboardInput { virtual_keycode: Some(key), pressed }) => {
                if pressed {
                    if !self.keys_down.contains_key(&key) {
                        self.keys_down.insert(key, KeyState { ticks: 0 });
                    }
                } else {
                    self.keys_down.remove(&key);
                }
            },
            _ => {},
        }
        let ghost held = self.keys_down@;
        assert(held == after_input(old(self)@, input));
        assert(all_can_tick(held)) by {
            assert forall|key: u32| held.contains_key(key) implies (#[trigger] held[key]).ticks
                < u32::MAX by {
                assert(old(self)@.contains_key(key) ==> old(self)@[key].ticks < u32::MAX);
            }
        }
        let list: Vec<u32> = keys_of(&self.keys_down);
        let mut i: usize = 0;
        while i < list.len()
            invariant
                i <= list@.len(),
                list@.no_duplicates(),
                all_can_tick(held),
                forall|key: u32| list@.contains(key) <==> held.contains_key(key),
                self.keys_down@.dom() == held.dom(),
                forall|j: int|
                    0 <= j < i ==> (#[trigger] self.keys_down@[list@[j]]).ticks == held[list@[j]].ticks
                        + 1,
                forall|j: int|
                    i <= j < list@.len() ==> (#[trigger] self.keys_down@[list@[j]])
                        == held[list@[j]],
            decreases list@.len() - i,
        {
            let key: u32 = list[i];
            let ghost before = self.keys_down@;
            assert(list@.contains(key));
            assert(before[list@[i as int]] == held[key]);
            assert(held[key].ticks < u32::MAX);
            let ticks: u32 = match self.keys_down.get(&key) {
                Some(state) => state.ticks,
                None => 0,
            };
            self.keys_down.insert(key, KeyState { ticks: ticks + 1 });
            proof {
                assert(self.keys_down@.dom() =~= held.dom());
                assert forall|j: int| 0 <= j < i + 1 implies (
                #[trigger] self.keys_down@[list@[j]]).ticks == held[list@[j]].ticks + 1 by {
                    if j < i {
                        assert(list@[j] != list@[i as int]);
                        assert(before[list@[j]].ticks == held[list@[j]].ticks + 1);
                    }
                }
                assert forall|j: int| i + 1 <= j < list@.len() implies (
                #[trigger] self.keys_down@[list@[j]]) == held[list@[j]] by {
                    assert(list@[j] != list@[i as int]);
                    assert(before[list@[j]] == held[list@[j]]);
                }
            }
            i = i + 1;
        }
        proof {
            let now = self.keys_down@;
            let want = after_tick(held);
            assert forall|key: u32| now.contains_key(key) implies now[key] == want[key] by {
                assert(list@.contains(key));
                let j = choose|j: int| 0 <= j < list@.len() && list@[j] == key;
                assert(now[list@[j]].ticks == held[list@[j]].ticks + 1);
            }
            assert(now =~= want);
        }
    }
}

impl Default for KeyboardState {
    fn default() -> (state: KeyboardState)
        ensures
            state@ == Map::<u32, KeyState>::empty(),
    {
        KeyboardState::new()
    }
}

} // verus!
