//! Per-frame key state: which keys are held, and which were pressed,
//! auto-repeated or released since the frame began. Keys are plain
//! numeric codes; the windowing collaborator turns its own key events
//! into these and calls `press`/`release`, and `clear` opens each new
//! frame.

use vstd::prelude::*;

verus! {

/// The key sets, each a duplicate-free vector viewed as a set of key
/// codes.
pub struct KeyStates {
    pub pressed: Vec<u32>,
    pub just_pressed: Vec<u32>,
    pub just_repeated: Vec<u32>,
    pub just_released: Vec<u32>,
}

/// A duplicate-free key vector.
pub open spec fn spec_keyset_wf(v: Seq<u32>) -> bool {
    forall|i: int, j: int| 0 <= i < j < v.len() ==> v[i] != v[j]
}

impl KeyStates {
    pub open spec fn wf(self) -> bool {
        &&& spec_keyset_wf(self.pressed@)
        &&& spec_keyset_wf(self.just_pressed@)
        &&& spec_keyset_wf(self.just_repeated@)
        &&& spec_keyset_wf(self.just_released@)
    }

    pub open spec fn pressed_set(self) -> Set<u32> {
        self.pressed@.to_set()
    }

    pub open spec fn just_pressed_set(self) -> Set<u32> {
        self.just_pressed@.to_set()
    }

    pub open spec fn just_repeated_set(self) -> Set<u32> {
        self.just_repeated@.to_set()
    }

    pub open spec fn just_released_set(self) -> Set<u32> {
        self.just_released@.to_set()
    }

    pub fn new() -> (ks: KeyStates)
        ensures
            ks.wf(),
            ks.pressed_set() == Set::<u32>::empty(),
            ks.just_pressed_set() == Set::<u32>::empty(),
            ks.just_repeated_set() == Set::<u32>::empty(),
            ks.just_released_set() == Set::<u32>::empty(),
    {
        let ks = KeyStates {
            pressed: Vec::new(),
            just_pressed: Vec::new(),
            just_repeated: Vec::new(),
            just_released: Vec::new(),
        };
        proof {
            assert(ks.pressed@.to_set() =~= Set::<u32>::empty());
            assert(ks.just_pressed@.to_set() =~= Set::<u32>::empty());
            assert(ks.just_repeated@.to_set() =~= Set::<u32>::empty());
            assert(ks.just_released@.to_set() =~= Set::<u32>::empty());
        }
        ks
    }

    /// Open a new frame: the per-frame sets empty, the held set kept.
    pub fn clear(&mut self)
        requires
            old(self).wf(),
        ensures
            final(self).wf(),
            final(self).pressed == old(self).pressed,
            final(self).just_pressed_set() == Set::<u32>::empty(),
            final(self).just_repeated_set() == Set::<u32>::empty(),
            final(self).just_released_set() == Set::<u32>::empty(),
    {
        self.just_pressed.clear();
        self.just_released.clear();
        self.just_repeated.clear();
        proof {
            assert(self.just_pressed@.to_set() =~= Set::<u32>::empty());
            assert(self.just_repeated@.to_set() =~= Set::<u32>::empty());
            assert(self.just_released@.to_set() =~= Set::<u32>::empty());
        }
    }

    /// A key-down event: the key joins the held set; if it was not held
    /// it also joins the just-pressed set, and it always joins the
    /// just-repeated set.
    pub fn press(&mut self, key: u32)
        requires
            old(self).wf(),
        ensures
            final(self).wf(),
            final(self).pressed_set() == old(self).pressed_set().insert(key),
            old(self).pressed_set().contains(key) ==> final(self).just_pressed_set() == old(
                self,
            ).just_pressed_set(),
            !old(self).pressed_set().contains(key) ==> final(self).just_pressed_set() == old(
                self,
            ).just_pressed_set().insert(key),
            final(self).just_repeated_set() == old(self).just_repeated_set().insert(key),
            final(self).just_released == old(self).just_released,
    {
        let was_held = keyset_contains(&self.pressed, key);
        keyset_insert(&mut self.pressed, key);
        if !was_held {
            keyset_insert(&mut self.just_pressed, key);
        }
        keyset_insert(&mut self.just_repeated, key);
    }

    /// A key-up event: the key leaves the held set; if it was held, it
    /// is also dropped from the just-released set.
    pub fn release(&mut self, key: u32)
        requires
            old(self).wf(),
        ensures
            final(self).wf(),
            final(self).pressed_set() == old(self).pressed_set().remove(key),
            old(self).pressed_set().contains(key) ==> final(self).just_released_set() == old(
                self,
            ).just_released_set().remove(key),
            !old(self).pressed_set().contains(key) ==> final(self).just_released == old(
                self,
            ).just_released,
            final(self).just_pressed == old(self).just_pressed,
            final(self).just_repeated == old(self).just_repeated,
    {
        let was_held = keyset_contains(&self.pressed, key);
        keyset_remove(&mut self.pressed, key);
        if was_held {
            keyset_remove(&mut self.just_released, key);
        } else {
            proof {
                assert(self.pressed@.to_set() =~= old(self).pressed@.to_set().remove(key));
            }
        }
    }

    pub fn is_just_repeated(&self, key: u32) -> (b: bool)
        ensures
            b == self.just_repeated_set().contains(key),
    {
        keyset_contains(&self.just_repeated, key)
    }

    pub fn is_just_pressed(&self, key: u32) -> (b: bool)
        ensures
            b == self.just_pressed_set().contains(key),
    {
        keyset_contains(&self.just_pressed, key)
    }

    pub fn is_just_pressed_any(&self) -> (b: bool)
        ensures
            b == (self.just_pressed@.len() > 0),
    {
        self.just_pressed.len() > 0
    }
}

impl Default for KeyStates {
    fn default() -> (ks: KeyStates)
        ensures
            ks.wf(),
            ks.pressed@.len() == 0,
            ks.just_pressed@.len() == 0,
            ks.just_repeated@.len() == 0,
            ks.just_released@.len() == 0,
    {
        KeyStates {
            pressed: Vec::new(),
            just_pressed: Vec::new(),
            just_repeated: Vec::new(),
            just_released: Vec::new(),
        }
    }
}

/// Whether a key vector holds a key.
fn keyset_contains(v: &Vec<u32>, key: u32) -> (b: bool)
    ensures
        b == v@.to_set().contains(key),
{
    let mut i: usize = 0;
    while i < v.len()
        invariant
            i <= v@.len(),
            forall|j: int| 0 <= j < i ==> v@[j] != key,
        decreases v@.len() - i,
    {
        if v[i] == key {
            proof {
                assert(v@.to_set().contains(key));
            }
            return true;
        }
        i += 1;
    }
    proof {
        if v@.to_set().contains(key) {
            let j = choose|j: int| 0 <= j < v@.len() && v@[j] == key;
        }
    }
    false
}

/// Add a key to a duplicate-free key vector.
fn keyset_insert(v: &mut Vec<u32>, key: u32)
    requires
        spec_keyset_wf(old(v)@),
    ensures
        spec_keyset_wf(final(v)@),
        final(v)@.to_set() == old(v)@.to_set().insert(key),
{
    if !keyset_contains(v, key) {
        v.push(key);
        proof {
            assert(v@.to_set() =~= old(v)@.to_set().insert(key)) by {
                assert(v@ =~= old(v)@.push(key));
                assert forall|x: u32| v@.to_set().contains(x) implies old(
                    v,
                )@.to_set().insert(key).contains(x) by {
                    let j = choose|j: int| 0 <= j < v@.len() && v@[j] == x;
                    if j < old(v)@.len() {
                        assert(old(v)@.to_set().contains(x));
                    }
                }
                assert forall|x: u32| old(v)@.to_set().insert(key).contains(x) implies
                    v@.to_set().contains(x) by {
                    if x == key {
                        assert(v@[v@.len() - 1] == key);
                    } else {
                        let j = choose|j: int| 0 <= j < old(v)@.len() && old(v)@[j] == x;
                        assert(v@[j] == x);
                    }
                }
            }
        }
    } else {
        proof {
            assert(v@.to_set() =~= v@.to_set().insert(key));
        }
    }
}

/// Drop a key from a duplicate-free key vector.
fn keyset_remove(v: &mut Vec<u32>, key: u32)
    requires
        spec_keyset_wf(old(v)@),
    ensures
        spec_keyset_wf(final(v)@),
        final(v)@.to_set() == old(v)@.to_set().remove(key),
{
    let n = v.len();
    let mut i: usize = 0;
    while i < n
        invariant
            spec_keyset_wf(v@),
            *v == *old(v),
            n == v@.len(),
            i <= n,
            forall|j: int| 0 <= j < i ==> v@[j] != key,
        decreases n - i,
    {
        if v[i] == key {
            v.swap_remove(i);
            proof {
                assert(spec_keyset_wf(v@));
                assert(v@.to_set() =~= old(v)@.to_set().remove(key)) by {
                    assert forall|x: u32| v@.to_set().contains(x) implies old(
                        v,
                    )@.to_set().remove(key).contains(x) by {
                        let j = choose|j: int| 0 <= j < v@.len() && v@[j] == x;
                        if j < i {
                            assert(old(v)@[j] == x);
                        } else if j == i {
                            assert(old(v)@[old(v)@.len() - 1] == x);
                        } else {
                            assert(old(v)@[j] == x);
                        }
                        assert(x != key);
                        assert(old(v)@.to_set().contains(x));
                    }
                    assert forall|x: u32| old(v)@.to_set().remove(key).contains(x) implies
                        v@.to_set().contains(x) by {
                        let j = choose|j: int| 0 <= j < old(v)@.len() && old(v)@[j] == x;
                        if j == i {
                            assert(x == key);
                        } else if j == old(v)@.len() - 1 {
                            if i < v@.len() {
                                assert(v@[i as int] == x);
                            }
                        } else {
                            assert(v@[j] == x);
                        }
                    }
                }
            }
            return ;
        }
        i += 1;
    }
    proof {
        assert(v@.to_set() =~= old(v)@.to_set().remove(key)) by {
            if v@.to_set().contains(key) {
                let j = choose|j: int| 0 <= j < v@.len() && v@[j] == key;
            }
        }
    }
}

} // verus!
