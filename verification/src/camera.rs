use vstd::prelude::*;

use crate::scene::{Object, ObjectId};

verus! {

/// A camera, as far as the editor's logic reads it: the object that places
/// it, its id, and the id of the object it belongs to, if any. (How it
/// projects, its angles and its size are floating point, kept by the
/// program.)
pub struct Camera {
    pub object: Object,
    pub id: ObjectId,
    pub object_id: Option<ObjectId>,
}

} // verus!
