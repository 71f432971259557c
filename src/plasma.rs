use vstd::prelude::*;

verus! {

/// The plasma scene: a closed-form function of pixel coordinates and time,
/// with no state of its own. The function itself is floating point and is
/// evaluated outside this library.
pub struct PlasmaScene {}

impl PlasmaScene {
    /// The plasma scene.
    pub fn new() -> (s: PlasmaScene) {
        PlasmaScene {}
    }
}

} // verus!
