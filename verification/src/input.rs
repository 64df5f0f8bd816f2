//! Deduplicated record of the navigation keys currently held, kept as
//! a membership vector over the fixed eight-key vocabulary. Pressing
//! and releasing are idempotent; iteration order is the fixed canonical
//! key order, so opposing deltas applied in one tick cancel exactly.

use vstd::prelude::*;

verus! {

/// The eight navigation keys: the arrow keys pan, `w`/`s` zoom out and
/// in, `d`/`a` rotate clockwise and counterclockwise.
#[derive(Clone, Copy, PartialEq, Eq, Structural, Debug)]
pub enum NavKey {
    PanLeft,
    PanRight,
    PanUp,
    PanDown,
    ZoomOut,
    ZoomIn,
    RotCw,
    RotCcw,
}

/// What happened to a key.
#[derive(Clone, Copy, PartialEq, Eq, Structural, Debug)]
pub enum KeyAction {
    Pressed,
    Released,
}

/// The key at a canonical position; positions outside the vocabulary
/// map to the last key.
pub open spec fn key_of_index(i: int) -> NavKey {
    if i == 0 {
        NavKey::PanLeft
    } else if i == 1 {
        NavKey::PanRight
    } else if i == 2 {
        NavKey::PanUp
    } else if i == 3 {
        NavKey::PanDown
    } else if i == 4 {
        NavKey::ZoomOut
    } else if i == 5 {
        NavKey::ZoomIn
    } else if i == 6 {
        NavKey::RotCw
    } else {
        NavKey::RotCcw
    }
}

impl NavKey {
    /// Canonical position of this key.
    pub open spec fn index_spec(self) -> int {
        match self {
            NavKey::PanLeft => 0,
            NavKey::PanRight => 1,
            NavKey::PanUp => 2,
            NavKey::PanDown => 3,
            NavKey::ZoomOut => 4,
            NavKey::ZoomIn => 5,
            NavKey::RotCw => 6,
            NavKey::RotCcw => 7,
        }
    }

    /// Canonical position of this key.
    pub fn index(self) -> (i: usize)
        ensures
            i == self.index_spec(),
            i < 8,
    {
        match self {
            NavKey::PanLeft => 0,
            NavKey::PanRight => 1,
            NavKey::PanUp => 2,
            NavKey::PanDown => 3,
            NavKey::ZoomOut => 4,
            NavKey::ZoomIn => 5,
            NavKey::RotCw => 6,
            NavKey::RotCcw => 7,
        }
    }

    /// The key at a canonical position.
    pub fn kth(i: usize) -> (k: NavKey)
        requires
            i < 8,
        ensures
            k == key_of_index(i as int),
            k.index_spec() == i,
    {
        if i == 0 {
            NavKey::PanLeft
        } else if i == 1 {
            NavKey::PanRight
        } else if i == 2 {
            NavKey::PanUp
        } else if i == 3 {
            NavKey::PanDown
        } else if i == 4 {
            NavKey::ZoomOut
        } else if i == 5 {
            NavKey::ZoomIn
        } else if i == 6 {
            NavKey::RotCw
        } else {
            NavKey::RotCcw
        }
    }
}

/// Which navigation keys are currently held: one membership flag per
/// key, indexed canonically.
#[derive(Debug)]
pub struct InputState {
    pub held: Vec<bool>,
}

impl InputState {
    /// One flag for each of the eight keys.
    pub open spec fn wf(self) -> bool {
        self.held@.len() == 8
    }

    /// Whether the given key is held.
    pub open spec fn held_key(self, k: NavKey) -> bool {
        self.held@[k.index_spec()]
    }

    /// Whether any navigation key is held.
    pub open spec fn any_down_spec(self) -> bool {
        exists|i: int| 0 <= i < 8 && self.held@[i]
    }

    /// The held keys in canonical order, from position `i` on.
    pub open spec fn held_list_from(self, i: int) -> Seq<NavKey>
        decreases 8 - i,
    {
        if i >= 8 {
            Seq::empty()
        } else if self.held@[i] {
            seq![key_of_index(i)] + self.held_list_from(i + 1)
        } else {
            self.held_list_from(i + 1)
        }
    }

    /// The held keys in canonical order.
    pub open spec fn held_list(self) -> Seq<NavKey> {
        self.held_list_from(0)
    }

    /// The empty record: no key held.
    pub fn new() -> (r: InputState)
        ensures
            r.wf(),
            forall|i: int| 0 <= i < 8 ==> !r.held@[i],
            !r.any_down_spec(),
    {
        InputState { held: vec![false, false, false, false, false, false, false, false] }
    }

    /// Records a press or a release. Pressing a held key and releasing
    /// an unheld key are no-ops, not errors.
    pub fn set_key(&mut self, key: NavKey, action: KeyAction)
        requires
            old(self).wf(),
        ensures
            final(self).wf(),
            final(self).held@ == old(self).held@.update(
                key.index_spec(),
                action == KeyAction::Pressed,
            ),
    {
        let i: usize = key.index();
        let v: bool = match action {
            KeyAction::Pressed => true,
            KeyAction::Released => false,
        };
        self.held.set(i, v);
    }

    /// Whether any key is held: the render loop keeps requesting
    /// redraws exactly while this is true.
    pub fn is_any_key_down(&self) -> (r: bool)
        requires
            self.wf(),
        ensures
            r == self.any_down_spec(),
    {
        let r = self.held[0] || self.held[1] || self.held[2] || self.held[3] || self.held[4]
            || self.held[5] || self.held[6] || self.held[7];
        proof {
            if !r {
                assert(forall|i: int| 0 <= i < 8 ==> !self.held@[i]);
            }
        }
        r
    }

    /// The held keys, in canonical order: a finite, restartable
    /// iteration, deterministic within a call.
    pub fn iterate_held(&self) -> (ks: Vec<NavKey>)
        requires
            self.wf(),
        ensures
            ks@ == self.held_list(),
    {
        let mut ks: Vec<NavKey> = Vec::new();
        let mut i: usize = 0;
        while i < 8
            invariant
                self.wf(),
                i <= 8,
                self.held_list() == ks@ + self.held_list_from(i as int),
            decreases 8 - i,
        {
            if self.held[i] {
                ks.push(NavKey::kth(i));
                proof {
                    assert(ks@ + self.held_list_from(i + 1) =~= ks@.drop_last() + (seq![
                        key_of_index(i as int),
                    ] + self.held_list_from(i + 1)));
                }
            }
            i += 1;
        }
        proof {
            assert(self.held_list_from(8) =~= Seq::<NavKey>::empty());
            assert(ks@ + Seq::<NavKey>::empty() =~= ks@);
        }
        ks
    }
}

/// Pressing a key and then releasing it, starting from an empty
/// record, leaves the record empty.
pub proof fn lemma_press_release_empty(inp: InputState, k: NavKey)
    requires
        inp.wf(),
        !inp.any_down_spec(),
    ensures
        forall|i: int| 0 <= i < 8 ==> !inp.held@.update(k.index_spec(), true).update(
            k.index_spec(),
            false,
        )[i],
{
}

/// Releasing a key that is not held changes nothing.
pub proof fn lemma_release_unheld_noop(inp: InputState, k: NavKey)
    requires
        inp.wf(),
        !inp.held_key(k),
    ensures
        inp.held@.update(k.index_spec(), false) == inp.held@,
{
    assert(inp.held@.update(k.index_spec(), false) =~= inp.held@);
}

} // verus!
