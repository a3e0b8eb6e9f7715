//! Access to the active tile of an application state.

use vstd::prelude::*;
use crate::canvas::Canvas;
use crate::state::AppState;

verus! {

/// The view from an application state onto its active tile.
pub struct CanvasLens;

impl CanvasLens {
    /// Hands the active tile to `f` and returns what `f` makes of it.
    pub fn with<V, F: FnOnce(&Canvas) -> V>(&self, data: &AppState, f: F) -> (value: V)
        requires
            data.wf(),
            forall|canvas: &Canvas|
                canvas@ == data@.active_module() ==> #[trigger] f.requires((canvas,)),
        ensures
            exists|canvas: &Canvas|
                canvas@ == data@.active_module() && #[trigger] f.ensures((canvas,), value),
    {
        f(data.get_active_module())
    }

    /// Hands the active tile to `f` to be changed in place and returns what
    /// `f` makes of it.
    pub fn with_mut<V, F: FnOnce(&mut Canvas) -> V>(&self, data: &mut AppState, f: F) -> (value: V)
        requires
            old(data).wf(),
            forall|canvas: &mut Canvas|
                canvas@ == old(data)@.active_module() ==> #[trigger] f.requires((canvas,)),
        ensures
            exists|canvas: &mut Canvas|
                canvas@ == old(data)@.active_module() && #[trigger] f.ensures((canvas,), value)
                    && final(data)@ == old(data)@.with_active_module(final(canvas)@),
    {
        f(data.get_active_module_mut())
    }
}

} // verus!
