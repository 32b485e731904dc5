//! How a value of the state is borrowed: to be looked at, or to be changed as well.

use vstd::prelude::*;

verus! {

/// Says what is kept about changes to a borrowed value.
pub trait BorrowMarker {
    type Store: Default;

    /// Whether a change was noted.
    spec fn changed(store: Self::Store) -> bool;

    /// Whether changes are noted at all.
    spec fn tracks() -> bool;

    /// At first no change is noted.
    proof fn lemma_default(store: Self::Store)
        requires
            call_ensures(<Self::Store as Default>::default, (), store),
        ensures
            !Self::changed(store),
    ;

    /// Notes a change, where changes are noted.
    fn mark_changed(store: &mut Self::Store)
        ensures
            Self::changed(*final(store)) == (Self::tracks() || Self::changed(*old(store))),
    ;

    /// Whether a change was noted.
    fn is_changed(store: &Self::Store) -> (changed: bool)
        ensures
            changed == Self::changed(*store),
    ;
}

/// A borrow under which the value may be changed.
pub trait BorrowMut: BorrowMarker {
    /// Changes are noted.
    proof fn lemma_tracks()
        ensures
            Self::tracks(),
    ;
}

/// Borrowed to be changed.
pub struct Mut;

/// Borrowed to be looked at.
pub struct Immut;

impl BorrowMarker for Immut {
    type Store = ();

    open spec fn changed(store: ()) -> bool {
        false
    }

    open spec fn tracks() -> bool {
        false
    }

    proof fn lemma_default(store: ()) {
    }

    fn mark_changed(_store: &mut ()) {
    }

    fn is_changed(_store: &()) -> bool {
        false
    }
}

impl BorrowMarker for Mut {
    type Store = bool;

    open spec fn changed(store: bool) -> bool {
        store
    }

    open spec fn tracks() -> bool {
        true
    }

    proof fn lemma_default(store: bool) {
    }

    fn mark_changed(store: &mut bool) {
        *store = true;
    }

    fn is_changed(store: &bool) -> bool {
        *store
    }
}

impl BorrowMut for Mut {
    proof fn lemma_tracks() {
    }
}

/// A value that is borrowed to be changed notes changes; one that is borrowed to be looked
/// at notes none.
pub proof fn law_markers(store: bool, nothing: ())
    ensures
        Mut::tracks(),
        Mut::changed(store) == store,
        !Immut::tracks(),
        !Immut::changed(nothing),
{
}

} // verus!
