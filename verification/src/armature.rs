use vstd::prelude::*;
use vstd::string::*;

use crate::mesh::{count_at, le_u16, le_u32, read_text, read_u16, read_u32_at, text_at};

verus! {

/// The bits of three little-endian `f32` of a file: a position, a scale.
#[derive(PartialEq, Eq, Structural, Clone, Copy, Debug)]
pub struct Vec3Bits {
    pub x: u32,
    pub y: u32,
    pub z: u32,
}

/// The bits of four little-endian `f32` of a file: a quaternion.
#[derive(PartialEq, Eq, Structural, Clone, Copy, Debug)]
pub struct QuatBits {
    pub x: u32,
    pub y: u32,
    pub z: u32,
    pub w: u32,
}

/// A bone of an armature file: its name, the head (relative to its parent
/// and to the armature), the tail and the rotation, the index of its parent
/// bone, if any, and those of its children.
pub struct Bone {
    pub name: String,
    pub head: Vec3Bits,
    pub head_from_arm: Vec3Bits,
    pub tail: Vec3Bits,
    pub rotation: QuatBits,
    pub parent: Option<usize>,
    pub children: Vec<usize>,
}

/// What the frames of a curve move.
#[derive(PartialEq, Eq, Structural, Clone, Copy, Debug)]
pub enum CurveKind {
    Position,
    Quaternion,
    Euler,
    Scale,
}

/// The value of a bone at a frame.
#[derive(PartialEq, Eq, Structural, Clone, Copy, Debug)]
pub enum FrameValue {
    Position(Vec3Bits),
    Orientation(QuatBits),
    Scale(Vec3Bits),
}

/// A frame of a curve: its time (the bits of an `f32`) and the value.
#[derive(PartialEq, Eq, Structural, Clone, Copy, Debug)]
pub struct Frame {
    pub time: u32,
    pub value: FrameValue,
}

/// How one bone moves in an action: the bone's name and index, what its
/// frames move, and the frames.
pub struct Curve {
    pub bone_name: String,
    pub bone_index: usize,
    pub kind: CurveKind,
    pub frames: Vec<Frame>,
}

/// An action of an armature: its name and its curves.
pub struct Action {
    pub name: String,
    pub curves: Vec<Curve>,
}

/// What an armature file holds: its type's name, the name it gives the
/// armature, the armature's position, rotation and scale, its bones and its
/// actions.
pub struct ArmatureFile {
    pub kind: String,
    pub name: String,
    pub position: Vec3Bits,
    pub rotation: QuatBits,
    pub scale: Vec3Bits,
    pub bones: Vec<Bone>,
    pub actions: Vec<Action>,
}

pub struct BoneView {
    pub name: Seq<char>,
    pub head: Vec3Bits,
    pub head_from_arm: Vec3Bits,
    pub tail: Vec3Bits,
    pub rotation: QuatBits,
    pub parent: Option<usize>,
    pub children: Seq<usize>,
}

pub struct CurveView {
    pub bone_name: Seq<char>,
    pub bone_index: usize,
    pub kind: CurveKind,
    pub frames: Seq<Frame>,
}

pub struct ActionView {
    pub name: Seq<char>,
    pub curves: Seq<CurveView>,
}

pub struct ArmatureView {
    pub kind: Seq<char>,
    pub name: Seq<char>,
    pub position: Vec3Bits,
    pub rotation: QuatBits,
    pub scale: Vec3Bits,
    pub bones: Seq<BoneView>,
    pub actions: Seq<ActionView>,
}

impl Bone {
    pub open spec fn view_of(&self) -> BoneView {
        BoneView {
            name: self.name@,
            head: self.head,
            head_from_arm: self.head_from_arm,
            tail: self.tail,
            rotation: self.rotation,
            parent: self.parent,
            children: self.children@,
        }
    }
}

impl Curve {
    pub open spec fn view_of(&self) -> CurveView {
        CurveView {
            bone_name: self.bone_name@,
            bone_index: self.bone_index,
            kind: self.kind,
            frames: self.frames@,
        }
    }
}

impl Action {
    pub open spec fn view_of(&self) -> ActionView {
        ActionView { name: self.name@, curves: self.curves@.map_values(|c: Curve| c.view_of()) }
    }
}

impl ArmatureFile {
    pub open spec fn view_of(&self) -> ArmatureView {
        ArmatureView {
            kind: self.kind@,
            name: self.name@,
            position: self.position,
            rotation: self.rotation,
            scale: self.scale,
            bones: self.bones@.map_values(|b: Bone| b.view_of()),
            actions: self.actions@.map_values(|a: Action| a.view_of()),
        }
    }
}

// ---------------------------------------------------------------------------
// The format
// ---------------------------------------------------------------------------

/// Three 32-bit numbers at `p`, and the place after them.
pub open spec fn vec3_at(b: Seq<u8>, p: int) -> Option<(Vec3Bits, int)> {
    if 0 <= p && p + 12 <= b.len() {
        Some((Vec3Bits { x: le_u32(b, p), y: le_u32(b, p + 4), z: le_u32(b, p + 8) }, p + 12))
    } else {
        None
    }
}

/// Four 32-bit numbers at `p`, and the place after them.
pub open spec fn quat_at(b: Seq<u8>, p: int) -> Option<(QuatBits, int)> {
    if 0 <= p && p + 16 <= b.len() {
        Some(
            (
                QuatBits {
                    x: le_u32(b, p),
                    y: le_u32(b, p + 4),
                    z: le_u32(b, p + 8),
                    w: le_u32(b, p + 12),
                },
                p + 16,
            ),
        )
    } else {
        None
    }
}

/// The parent of a bone at `p`: a byte that is 1 where the bone has one,
/// then its 16-bit index; any other byte, no parent.
pub open spec fn parent_at(b: Seq<u8>, p: int) -> Option<(Option<usize>, int)> {
    if 0 <= p && p < b.len() {
        if b[p] == 1 {
            if p + 3 <= b.len() {
                Some((Some(le_u16(b, p + 1) as usize), p + 3))
            } else {
                None
            }
        } else {
            Some((None, p + 1))
        }
    } else {
        None
    }
}

/// `n` 16-bit indices at `p`, and the place after them.
pub open spec fn indices_at(b: Seq<u8>, p: int, n: nat) -> Option<(Seq<usize>, int)> {
    if 0 <= p && p + 2 * n <= b.len() {
        Some((Seq::new(n, |i: int| le_u16(b, p + 2 * i) as usize), p + 2 * n))
    } else {
        None
    }
}

/// A bone at `p`: its name, a position (passed over), its head, its head
/// relative to the armature, its tail, its rotation, its parent, and a
/// count of children with the index of each.
pub open spec fn bone_at(b: Seq<u8>, p: int) -> Option<(BoneView, int)> {
    match text_at(b, p) {
        None => None,
        Some((name, p1)) => match vec3_at(b, p1) {
            None => None,
            Some((_, p2)) => match vec3_at(b, p2) {
                None => None,
                Some((head, p3)) => match vec3_at(b, p3) {
                    None => None,
                    Some((head_from_arm, p4)) => match vec3_at(b, p4) {
                        None => None,
                        Some((tail, p5)) => match quat_at(b, p5) {
                            None => None,
                            Some((rotation, p6)) => match parent_at(b, p6) {
                                None => None,
                                Some((parent, p7)) => match count_at(b, p7) {
                                    None => None,
                                    Some((n, p8)) => match indices_at(b, p8, n) {
                                        None => None,
                                        Some((children, p9)) => Some(
                                            (
                                                BoneView {
                                                    name,
                                                    head,
                                                    head_from_arm,
                                                    tail,
                                                    rotation,
                                                    parent,
                                                    children,
                                                },
                                                p9,
                                            ),
                                        ),
                                    },
                                },
                            },
                        },
                    },
                },
            },
        },
    }
}

/// `n` bones at `p`, and the place after them.
pub open spec fn bones_at(b: Seq<u8>, p: int, n: nat) -> Option<(Seq<BoneView>, int)>
    decreases n,
{
    if n == 0 {
        Some((seq![], p))
    } else {
        match bones_at(b, p, (n - 1) as nat) {
            Some((bs, q)) => match bone_at(b, q) {
                Some((x, r)) => Some((bs.push(x), r)),
                None => None,
            },
            None => None,
        }
    }
}

/// The kind a curve names: "position", "quaternion", "euler" or "scale".
pub open spec fn kind_of(s: Seq<char>) -> Option<CurveKind> {
    if s == "position"@ {
        Some(CurveKind::Position)
    } else if s == "quaternion"@ {
        Some(CurveKind::Quaternion)
    } else if s == "euler"@ {
        Some(CurveKind::Euler)
    } else if s == "scale"@ {
        Some(CurveKind::Scale)
    } else {
        None
    }
}

/// A frame of a curve of kind `kind` at `p`: its time, then a position, a
/// quaternion or a scale; frames of Euler angles are not read.
pub open spec fn frame_at(b: Seq<u8>, p: int, kind: CurveKind) -> Option<(Frame, int)> {
    if 0 <= p && p + 4 <= b.len() {
        let time = le_u32(b, p);
        match kind {
            CurveKind::Position => match vec3_at(b, p + 4) {
                Some((v, q)) => Some((Frame { time, value: FrameValue::Position(v) }, q)),
                None => None,
            },
            CurveKind::Quaternion => match quat_at(b, p + 4) {
                Some((v, q)) => Some((Frame { time, value: FrameValue::Orientation(v) }, q)),
                None => None,
            },
            CurveKind::Scale => match vec3_at(b, p + 4) {
                Some((v, q)) => Some((Frame { time, value: FrameValue::Scale(v) }, q)),
                None => None,
            },
            CurveKind::Euler => None,
        }
    } else {
        None
    }
}

/// `n` frames of kind `kind` at `p`, and the place after them.
pub open spec fn frames_at(b: Seq<u8>, p: int, kind: CurveKind, n: nat) -> Option<(Seq<Frame>, int)>
    decreases n,
{
    if n == 0 {
        Some((seq![], p))
    } else {
        match frames_at(b, p, kind, (n - 1) as nat) {
            Some((fs, q)) => match frame_at(b, q, kind) {
                Some((x, r)) => Some((fs.push(x), r)),
                None => None,
            },
            None => None,
        }
    }
}

/// A curve at `p`: the name and index of its bone, the name of its kind, a
/// count of frames and the frames.
pub open spec fn curve_at(b: Seq<u8>, p: int) -> Option<(CurveView, int)> {
    match text_at(b, p) {
        None => None,
        Some((bone_name, p1)) => match count_at(b, p1) {
            None => None,
            Some((bone_index, p2)) => match text_at(b, p2) {
                None => None,
                Some((kind_name, p3)) => match kind_of(kind_name) {
                    None => None,
                    Some(kind) => match count_at(b, p3) {
                        None => None,
                        Some((n, p4)) => match frames_at(b, p4, kind, n) {
                            None => None,
                            Some((frames, p5)) => Some(
                                (
                                    CurveView {
                                        bone_name,
                                        bone_index: bone_index as usize,
                                        kind,
                                        frames,
                                    },
                                    p5,
                                ),
                            ),
                        },
                    },
                },
            },
        },
    }
}

/// `n` curves at `p`, and the place after them.
pub open spec fn curves_at(b: Seq<u8>, p: int, n: nat) -> Option<(Seq<CurveView>, int)>
    decreases n,
{
    if n == 0 {
        Some((seq![], p))
    } else {
        match curves_at(b, p, (n - 1) as nat) {
            Some((cs, q)) => match curve_at(b, q) {
                Some((x, r)) => Some((cs.push(x), r)),
                None => None,
            },
            None => None,
        }
    }
}

/// An action at `p`: its name, a count of curves and the curves.
pub open spec fn action_at(b: Seq<u8>, p: int) -> Option<(ActionView, int)> {
    match text_at(b, p) {
        None => None,
        Some((name, p1)) => match count_at(b, p1) {
            None => None,
            Some((n, p2)) => match curves_at(b, p2, n) {
                None => None,
                Some((curves, p3)) => Some((ActionView { name, curves }, p3)),
            },
        },
    }
}

/// `n` actions at `p`, and the place after them.
pub open spec fn actions_at(b: Seq<u8>, p: int, n: nat) -> Option<(Seq<ActionView>, int)>
    decreases n,
{
    if n == 0 {
        Some((seq![], p))
    } else {
        match actions_at(b, p, (n - 1) as nat) {
            Some((xs, q)) => match action_at(b, q) {
                Some((x, r)) => Some((xs.push(x), r)),
                None => None,
            },
            None => None,
        }
    }
}

/// Reading an armature file: its type's name, its name, the position, the
/// rotation and the scale, a count of bones and the bones, a count of
/// actions and the actions. `None` where the file ends too early, a text is
/// not UTF-8, a curve names no known kind, or a curve of Euler angles has a
/// frame. Bytes after the end are left alone.
pub open spec fn parse_armature(b: Seq<u8>) -> Option<ArmatureView> {
    match text_at(b, 0) {
        None => None,
        Some((kind, p1)) => match text_at(b, p1) {
            None => None,
            Some((name, p2)) => match vec3_at(b, p2) {
                None => None,
                Some((position, p3)) => match quat_at(b, p3) {
                    None => None,
                    Some((rotation, p4)) => match vec3_at(b, p4) {
                        None => None,
                        Some((scale, p5)) => match count_at(b, p5) {
                            None => None,
                            Some((nb, p6)) => match bones_at(b, p6, nb) {
                                None => None,
                                Some((bones, p7)) => match count_at(b, p7) {
                                    None => None,
                                    Some((na, p8)) => match actions_at(b, p8, na) {
                                        None => None,
                                        Some((actions, _)) => Some(
                                            ArmatureView {
                                                kind,
                                                name,
                                                position,
                                                rotation,
                                                scale,
                                                bones,
                                                actions,
                                            },
                                        ),
                                    },
                                },
                            },
                        },
                    },
                },
            },
        },
    }
}


/// The bones of a file come in file order: of `n` bones read at `p`, the
/// `i`-th is the bone read where the first `i` end, and the first `i + 1`
/// are what reading `i + 1` bones gives.
pub proof fn law_bones_in_file_order(b: Seq<u8>, p: int, n: nat, i: nat)
    requires
        i < n,
        bones_at(b, p, n) is Some,
    ensures
        bones_at(b, p, n).unwrap().0.len() == n,
        bones_at(b, p, i) is Some,
        bone_at(b, bones_at(b, p, i).unwrap().1) is Some,
        bones_at(b, p, n).unwrap().0[i as int] == bone_at(
            b,
            bones_at(b, p, i).unwrap().1,
        ).unwrap().0,
        bones_at(b, p, i + 1) is Some,
        bones_at(b, p, (i + 1) as nat).unwrap().0 == bones_at(b, p, n).unwrap().0.take((i + 1) as int),
    decreases n,
{
    let prev = bones_at(b, p, (n - 1) as nat);
    assert(prev is Some);
    let bs = prev.unwrap().0;
    let q = prev.unwrap().1;
    assert(bone_at(b, q) is Some);
    let x = bone_at(b, q).unwrap().0;
    assert(bones_at(b, p, n).unwrap().0 == bs.push(x));
    if i + 1 < n {
        law_bones_in_file_order(b, p, (n - 1) as nat, i);
        assert(bs.push(x).take((i + 1) as int) =~= bs.take((i + 1) as int));
    } else {
        if n > 1 {
            law_bones_in_file_order(b, p, (n - 1) as nat, 0);
        }
        assert(bs.push(x).take((i + 1) as int) =~= bs.push(x));
    }
}

/// The frames of a curve come in file order (see `law_bones_in_file_order`).
pub proof fn law_frames_in_file_order(b: Seq<u8>, p: int, kind: CurveKind, n: nat, i: nat)
    requires
        i < n,
        frames_at(b, p, kind, n) is Some,
    ensures
        frames_at(b, p, kind, n).unwrap().0.len() == n,
        frames_at(b, p, kind, i) is Some,
        frame_at(b, frames_at(b, p, kind, i).unwrap().1, kind) is Some,
        frames_at(b, p, kind, n).unwrap().0[i as int] == frame_at(
            b,
            frames_at(b, p, kind, i).unwrap().1, kind,
        ).unwrap().0,
        frames_at(b, p, kind, i + 1) is Some,
        frames_at(b, p, kind, (i + 1) as nat).unwrap().0 == frames_at(b, p, kind, n).unwrap().0.take((i + 1) as int),
    decreases n,
{
    let prev = frames_at(b, p, kind, (n - 1) as nat);
    assert(prev is Some);
    let bs = prev.unwrap().0;
    let q = prev.unwrap().1;
    assert(frame_at(b, q, kind) is Some);
    let x = frame_at(b, q, kind).unwrap().0;
    assert(frames_at(b, p, kind, n).unwrap().0 == bs.push(x));
    if i + 1 < n {
        law_frames_in_file_order(b, p, kind, (n - 1) as nat, i);
        assert(bs.push(x).take((i + 1) as int) =~= bs.take((i + 1) as int));
    } else {
        if n > 1 {
            law_frames_in_file_order(b, p, kind, (n - 1) as nat, 0);
        }
        assert(bs.push(x).take((i + 1) as int) =~= bs.push(x));
    }
}

/// The curves of an action come in file order (see `law_bones_in_file_order`).
pub proof fn law_curves_in_file_order(b: Seq<u8>, p: int, n: nat, i: nat)
    requires
        i < n,
        curves_at(b, p, n) is Some,
    ensures
        curves_at(b, p, n).unwrap().0.len() == n,
        curves_at(b, p, i) is Some,
        curve_at(b, curves_at(b, p, i).unwrap().1) is Some,
        curves_at(b, p, n).unwrap().0[i as int] == curve_at(
            b,
            curves_at(b, p, i).unwrap().1,
        ).unwrap().0,
        curves_at(b, p, i + 1) is Some,
        curves_at(b, p, (i + 1) as nat).unwrap().0 == curves_at(b, p, n).unwrap().0.take((i + 1) as int),
    decreases n,
{
    let prev = curves_at(b, p, (n - 1) as nat);
    assert(prev is Some);
    let bs = prev.unwrap().0;
    let q = prev.unwrap().1;
    assert(curve_at(b, q) is Some);
    let x = curve_at(b, q).unwrap().0;
    assert(curves_at(b, p, n).unwrap().0 == bs.push(x));
    if i + 1 < n {
        law_curves_in_file_order(b, p, (n - 1) as nat, i);
        assert(bs.push(x).take((i + 1) as int) =~= bs.take((i + 1) as int));
    } else {
        if n > 1 {
            law_curves_in_file_order(b, p, (n - 1) as nat, 0);
        }
        assert(bs.push(x).take((i + 1) as int) =~= bs.push(x));
    }
}

/// The actions of a file come in file order (see `law_bones_in_file_order`).
pub proof fn law_actions_in_file_order(b: Seq<u8>, p: int, n: nat, i: nat)
    requires
        i < n,
        actions_at(b, p, n) is Some,
    ensures
        actions_at(b, p, n).unwrap().0.len() == n,
        actions_at(b, p, i) is Some,
        action_at(b, actions_at(b, p, i).unwrap().1) is Some,
        actions_at(b, p, n).unwrap().0[i as int] == action_at(
            b,
            actions_at(b, p, i).unwrap().1,
        ).unwrap().0,
        actions_at(b, p, i + 1) is Some,
        actions_at(b, p, (i + 1) as nat).unwrap().0 == actions_at(b, p, n).unwrap().0.take((i + 1) as int),
    decreases n,
{
    let prev = actions_at(b, p, (n - 1) as nat);
    assert(prev is Some);
    let bs = prev.unwrap().0;
    let q = prev.unwrap().1;
    assert(action_at(b, q) is Some);
    let x = action_at(b, q).unwrap().0;
    assert(actions_at(b, p, n).unwrap().0 == bs.push(x));
    if i + 1 < n {
        law_actions_in_file_order(b, p, (n - 1) as nat, i);
        assert(bs.push(x).take((i + 1) as int) =~= bs.take((i + 1) as int));
    } else {
        if n > 1 {
            law_actions_in_file_order(b, p, (n - 1) as nat, 0);
        }
        assert(bs.push(x).take((i + 1) as int) =~= bs.push(x));
    }
}

/// A bone read at `p`, whose name ends at `p1`, holds what the file holds
/// after its name: a position passed over, then its head, its head relative
/// to the armature and its tail (each three 32-bit words, x, y, z), then its
/// rotation as four 32-bit words in x, y, z, w order, as the armature's own
/// rotation and the quaternion frames are read.
pub proof fn law_bone_fields(b: Seq<u8>, p: int, p1: int)
    requires
        bone_at(b, p) is Some,
        text_at(b, p) is Some && text_at(b, p).unwrap().1 == p1,
    ensures
        bone_at(b, p).unwrap().0.name == text_at(b, p).unwrap().0,
        bone_at(b, p).unwrap().0.head == (Vec3Bits {
            x: le_u32(b, p1 + 12),
            y: le_u32(b, p1 + 16),
            z: le_u32(b, p1 + 20),
        }),
        bone_at(b, p).unwrap().0.head_from_arm == (Vec3Bits {
            x: le_u32(b, p1 + 24),
            y: le_u32(b, p1 + 28),
            z: le_u32(b, p1 + 32),
        }),
        bone_at(b, p).unwrap().0.tail == (Vec3Bits {
            x: le_u32(b, p1 + 36),
            y: le_u32(b, p1 + 40),
            z: le_u32(b, p1 + 44),
        }),
        bone_at(b, p).unwrap().0.rotation == (QuatBits {
            x: le_u32(b, p1 + 48),
            y: le_u32(b, p1 + 52),
            z: le_u32(b, p1 + 56),
            w: le_u32(b, p1 + 60),
        }),
        quat_at(b, p1 + 48) is Some,
        bone_at(b, p).unwrap().0.rotation == quat_at(b, p1 + 48).unwrap().0,
{
}

/// An armature file whose two names end at `p2` holds there the armature's
/// position (x, y, z), its rotation (x, y, z, w) and its scale (x, y, z),
/// each a 32-bit word.
pub proof fn law_armature_placement(b: Seq<u8>, p1: int, p2: int)
    requires
        parse_armature(b) is Some,
        text_at(b, 0) is Some && text_at(b, 0).unwrap().1 == p1,
        text_at(b, p1) is Some && text_at(b, p1).unwrap().1 == p2,
    ensures
        parse_armature(b).unwrap().position == (Vec3Bits {
            x: le_u32(b, p2),
            y: le_u32(b, p2 + 4),
            z: le_u32(b, p2 + 8),
        }),
        parse_armature(b).unwrap().rotation == (QuatBits {
            x: le_u32(b, p2 + 12),
            y: le_u32(b, p2 + 16),
            z: le_u32(b, p2 + 20),
            w: le_u32(b, p2 + 24),
        }),
        parse_armature(b).unwrap().scale == (Vec3Bits {
            x: le_u32(b, p2 + 28),
            y: le_u32(b, p2 + 32),
            z: le_u32(b, p2 + 36),
        }),
{
}

// ---------------------------------------------------------------------------
// The reader
// ---------------------------------------------------------------------------

fn read_vec3(b: &[u8], p: usize) -> (r: Option<(Vec3Bits, usize)>)
    ensures
        match r {
            Some((v, q)) => vec3_at(b@, p as int) == Some((v, q as int)),
            None => vec3_at(b@, p as int) is None,
        },
{
    if p <= b.len() && b.len() - p >= 12 {
        let v = Vec3Bits { x: read_u32_at(b, p), y: read_u32_at(b, p + 4), z: read_u32_at(b, p + 8) };
        Some((v, p + 12))
    } else {
        None
    }
}

fn read_quat(b: &[u8], p: usize) -> (r: Option<(QuatBits, usize)>)
    ensures
        match r {
            Some((v, q)) => quat_at(b@, p as int) == Some((v, q as int)),
            None => quat_at(b@, p as int) is None,
        },
{
    if p <= b.len() && b.len() - p >= 16 {
        let v = QuatBits {
            x: read_u32_at(b, p),
            y: read_u32_at(b, p + 4),
            z: read_u32_at(b, p + 8),
            w: read_u32_at(b, p + 12),
        };
        Some((v, p + 16))
    } else {
        None
    }
}

fn read_parent(b: &[u8], p: usize) -> (r: Option<(Option<usize>, usize)>)
    ensures
        match r {
            Some((v, q)) => parent_at(b@, p as int) == Some((v, q as int)),
            None => parent_at(b@, p as int) is None,
        },
{
    if p >= b.len() {
        return None;
    }
    if b[p] == 1 {
        match read_u16(b, p + 1) {
            Some((v, q)) => Some((Some(v as usize), q)),
            None => None,
        }
    } else {
        Some((None, p + 1))
    }
}

fn read_indices(b: &[u8], p: usize, n: usize) -> (r: Option<(Vec<usize>, usize)>)
    ensures
        match r {
            Some((v, q)) => indices_at(b@, p as int, n as nat) == Some((v@, q as int)),
            None => indices_at(b@, p as int, n as nat) is None,
        },
{
    if p > b.len() || (b.len() - p) / 2 < n {
        return None;
    }
    let mut v: Vec<usize> = Vec::new();
    let mut i: usize = 0;
    while i < n
        invariant
            i <= n,
            p + 2 * n <= b@.len(),
            b@.len() <= usize::MAX,
            v@ == Seq::new(i as nat, |k: int| le_u16(b@, p + 2 * k) as usize),
        decreases n - i,
    {
        let k = p + 2 * i;
        let h: u16 = b[k] as u16 + 256u16 * (b[k + 1] as u16);
        v.push(h as usize);
        i = i + 1;
        assert(v@ =~= Seq::new(i as nat, |k: int| le_u16(b@, p + 2 * k) as usize));
    }
    Some((v, p + 2 * n))
}

fn read_bone(b: &[u8], p: usize) -> (r: Option<(Bone, usize)>)
    ensures
        match r {
            Some((x, q)) => bone_at(b@, p as int) == Some((x.view_of(), q as int)),
            None => bone_at(b@, p as int) is None,
        },
{
    let (name, p1) = match read_text(b, p) {
        Some(x) => x,
        None => return None,
    };
    let (_, p2) = match read_vec3(b, p1) {
        Some(x) => x,
        None => return None,
    };
    let (head, p3) = match read_vec3(b, p2) {
        Some(x) => x,
        None => return None,
    };
    let (head_from_arm, p4) = match read_vec3(b, p3) {
        Some(x) => x,
        None => return None,
    };
    let (tail, p5) = match read_vec3(b, p4) {
        Some(x) => x,
        None => return None,
    };
    let (rotation, p6) = match read_quat(b, p5) {
        Some(x) => x,
        None => return None,
    };
    let (parent, p7) = match read_parent(b, p6) {
        Some(x) => x,
        None => return None,
    };
    let (n, p8) = match read_u16(b, p7) {
        Some(x) => x,
        None => return None,
    };
    let (children, p9) = match read_indices(b, p8, n as usize) {
        Some(x) => x,
        None => return None,
    };
    Some((Bone { name, head, head_from_arm, tail, rotation, parent, children }, p9))
}

/// Once reading `k` bones fails, reading more fails too.
proof fn lemma_bones_stop(b: Seq<u8>, p: int, k: nat, n: nat)
    requires
        k <= n,
        bones_at(b, p, k) is None,
    ensures
        bones_at(b, p, n) is None,
    decreases n - k,
{
    if k < n {
        lemma_bones_stop(b, p, k + 1, n);
    }
}

fn read_bones(b: &[u8], p: usize, n: usize) -> (r: Option<(Vec<Bone>, usize)>)
    ensures
        match r {
            Some((v, q)) => bones_at(b@, p as int, n as nat) == Some(
                (v@.map_values(|x: Bone| x.view_of()), q as int),
            ),
            None => bones_at(b@, p as int, n as nat) is None,
        },
{
    let mut q = p;
    let mut v: Vec<Bone> = Vec::new();
    let mut i: usize = 0;
    assert(v@.map_values(|x: Bone| x.view_of()) =~= Seq::<BoneView>::empty());
    while i < n
        invariant
            i <= n,
            bones_at(b@, p as int, i as nat) == Some((v@.map_values(|x: Bone| x.view_of()), q as int)),
        decreases n - i,
    {
        match read_bone(b, q) {
            Some((x, r)) => {
                let ghost before = v@;
                let ghost xv = x.view_of();
                v.push(x);
                q = r;
                assert(v@.map_values(|x: Bone| x.view_of()) =~= before.map_values(
                    |x: Bone| x.view_of(),
                ).push(xv));
            },
            None => {
                proof {
                    lemma_bones_stop(b@, p as int, (i + 1) as nat, n as nat);
                }
                return None;
            },
        }
        i = i + 1;
    }
    Some((v, q))
}

fn read_kind(s: &String) -> (r: Option<CurveKind>)
    ensures
        r == kind_of(s@),
{
    if *s == String::from_str("position") {
        Some(CurveKind::Position)
    } else if *s == String::from_str("quaternion") {
        Some(CurveKind::Quaternion)
    } else if *s == String::from_str("euler") {
        Some(CurveKind::Euler)
    } else if *s == String::from_str("scale") {
        Some(CurveKind::Scale)
    } else {
        None
    }
}

fn read_frame(b: &[u8], p: usize, kind: CurveKind) -> (r: Option<(Frame, usize)>)
    ensures
        match r {
            Some((x, q)) => frame_at(b@, p as int, kind) == Some((x, q as int)),
            None => frame_at(b@, p as int, kind) is None,
        },
{
    if p > b.len() || b.len() - p < 4 {
        return None;
    }
    let time = read_u32_at(b, p);
    match kind {
        CurveKind::Position => match read_vec3(b, p + 4) {
            Some((v, q)) => Some((Frame { time, value: FrameValue::Position(v) }, q)),
            None => None,
        },
        CurveKind::Quaternion => match read_quat(b, p + 4) {
            Some((v, q)) => Some((Frame { time, value: FrameValue::Orientation(v) }, q)),
            None => None,
        },
        CurveKind::Scale => match read_vec3(b, p + 4) {
            Some((v, q)) => Some((Frame { time, value: FrameValue::Scale(v) }, q)),
            None => None,
        },
        CurveKind::Euler => None,
    }
}

/// Once reading `k` frames fails, reading more fails too.
proof fn lemma_frames_stop(b: Seq<u8>, p: int, kind: CurveKind, k: nat, n: nat)
    requires
        k <= n,
        frames_at(b, p, kind, k) is None,
    ensures
        frames_at(b, p, kind, n) is None,
    decreases n - k,
{
    if k < n {
        lemma_frames_stop(b, p, kind, k + 1, n);
    }
}

fn read_frames(b: &[u8], p: usize, kind: CurveKind, n: usize) -> (r: Option<(Vec<Frame>, usize)>)
    ensures
        match r {
            Some((v, q)) => frames_at(b@, p as int, kind, n as nat) == Some((v@, q as int)),
            None => frames_at(b@, p as int, kind, n as nat) is None,
        },
{
    let mut q = p;
    let mut v: Vec<Frame> = Vec::new();
    let mut i: usize = 0;
    while i < n
        invariant
            i <= n,
            frames_at(b@, p as int, kind, i as nat) == Some((v@, q as int)),
        decreases n - i,
    {
        match read_frame(b, q, kind) {
            Some((x, r)) => {
                v.push(x);
                q = r;
            },
            None => {
                proof {
                    lemma_frames_stop(b@, p as int, kind, (i + 1) as nat, n as nat);
                }
                return None;
            },
        }
        i = i + 1;
    }
    Some((v, q))
}

fn read_curve(b: &[u8], p: usize) -> (r: Option<(Curve, usize)>)
    ensures
        match r {
            Some((x, q)) => curve_at(b@, p as int) == Some((x.view_of(), q as int)),
            None => curve_at(b@, p as int) is None,
        },
{
    let (bone_name, p1) = match read_text(b, p) {
        Some(x) => x,
        None => return None,
    };
    let (bone_index, p2) = match read_u16(b, p1) {
        Some(x) => x,
        None => return None,
    };
    let (kind_name, p3) = match read_text(b, p2) {
        Some(x) => x,
        None => return None,
    };
    let kind = match read_kind(&kind_name) {
        Some(k) => k,
        None => return None,
    };
    let (n, p4) = match read_u16(b, p3) {
        Some(x) => x,
        None => return None,
    };
    let (frames, p5) = match read_frames(b, p4, kind, n as usize) {
        Some(x) => x,
        None => return None,
    };
    Some((Curve { bone_name, bone_index: bone_index as usize, kind, frames }, p5))
}

/// Once reading `k` curves fails, reading more fails too.
proof fn lemma_curves_stop(b: Seq<u8>, p: int, k: nat, n: nat)
    requires
        k <= n,
        curves_at(b, p, k) is None,
    ensures
        curves_at(b, p, n) is None,
    decreases n - k,
{
    if k < n {
        lemma_curves_stop(b, p, k + 1, n);
    }
}

fn read_curves(b: &[u8], p: usize, n: usize) -> (r: Option<(Vec<Curve>, usize)>)
    ensures
        match r {
            Some((v, q)) => curves_at(b@, p as int, n as nat) == Some(
                (v@.map_values(|x: Curve| x.view_of()), q as int),
            ),
            None => curves_at(b@, p as int, n as nat) is None,
        },
{
    let mut q = p;
    let mut v: Vec<Curve> = Vec::new();
    let mut i: usize = 0;
    assert(v@.map_values(|x: Curve| x.view_of()) =~= Seq::<CurveView>::empty());
    while i < n
        invariant
            i <= n,
            curves_at(b@, p as int, i as nat) == Some((v@.map_values(|x: Curve| x.view_of()), q as int)),
        decreases n - i,
    {
        match read_curve(b, q) {
            Some((x, r)) => {
                let ghost before = v@;
                let ghost xv = x.view_of();
                v.push(x);
                q = r;
                assert(v@.map_values(|x: Curve| x.view_of()) =~= before.map_values(
                    |x: Curve| x.view_of(),
                ).push(xv));
            },
            None => {
                proof {
                    lemma_curves_stop(b@, p as int, (i + 1) as nat, n as nat);
                }
                return None;
            },
        }
        i = i + 1;
    }
    Some((v, q))
}

fn read_action(b: &[u8], p: usize) -> (r: Option<(Action, usize)>)
    ensures
        match r {
            Some((x, q)) => action_at(b@, p as int) == Some((x.view_of(), q as int)),
            None => action_at(b@, p as int) is None,
        },
{
    let (name, p1) = match read_text(b, p) {
        Some(x) => x,
        None => return None,
    };
    let (n, p2) = match read_u16(b, p1) {
        Some(x) => x,
        None => return None,
    };
    let (curves, p3) = match read_curves(b, p2, n as usize) {
        Some(x) => x,
        None => return None,
    };
    Some((Action { name, curves }, p3))
}

/// Once reading `k` actions fails, reading more fails too.
proof fn lemma_actions_stop(b: Seq<u8>, p: int, k: nat, n: nat)
    requires
        k <= n,
        actions_at(b, p, k) is None,
    ensures
        actions_at(b, p, n) is None,
    decreases n - k,
{
    if k < n {
        lemma_actions_stop(b, p, k + 1, n);
    }
}

fn read_actions(b: &[u8], p: usize, n: usize) -> (r: Option<(Vec<Action>, usize)>)
    ensures
        match r {
            Some((v, q)) => actions_at(b@, p as int, n as nat) == Some(
                (v@.map_values(|x: Action| x.view_of()), q as int),
            ),
            None => actions_at(b@, p as int, n as nat) is None,
        },
{
    let mut q = p;
    let mut v: Vec<Action> = Vec::new();
    let mut i: usize = 0;
    assert(v@.map_values(|x: Action| x.view_of()) =~= Seq::<ActionView>::empty());
    while i < n
        invariant
            i <= n,
            actions_at(b@, p as int, i as nat) == Some((v@.map_values(|x: Action| x.view_of()), q as int)),
        decreases n - i,
    {
        match read_action(b, q) {
            Some((x, r)) => {
                let ghost before = v@;
                let ghost xv = x.view_of();
                v.push(x);
                q = r;
                assert(v@.map_values(|x: Action| x.view_of()) =~= before.map_values(
                    |x: Action| x.view_of(),
                ).push(xv));
            },
            None => {
                proof {
                    lemma_actions_stop(b@, p as int, (i + 1) as nat, n as nat);
                }
                return None;
            },
        }
        i = i + 1;
    }
    Some((v, q))
}

/// Reads an armature file (see `parse_armature`); `None` where the file is
/// not one.
pub fn read_armature_file(b: &[u8]) -> (r: Option<ArmatureFile>)
    ensures
        match r {
            Some(a) => parse_armature(b@) == Some(a.view_of()),
            None => parse_armature(b@) is None,
        },
{
    let (kind, p1) = match read_text(b, 0) {
        Some(x) => x,
        None => return None,
    };
    let (name, p2) = match read_text(b, p1) {
        Some(x) => x,
        None => return None,
    };
    let (position, p3) = match read_vec3(b, p2) {
        Some(x) => x,
        None => return None,
    };
    let (rotation, p4) = match read_quat(b, p3) {
        Some(x) => x,
        None => return None,
    };
    let (scale, p5) = match read_vec3(b, p4) {
        Some(x) => x,
        None => return None,
    };
    let (nb, p6) = match read_u16(b, p5) {
        Some(x) => x,
        None => return None,
    };
    let (bones, p7) = match read_bones(b, p6, nb as usize) {
        Some(x) => x,
        None => return None,
    };
    let (na, p8) = match read_u16(b, p7) {
        Some(x) => x,
        None => return None,
    };
    let (actions, _) = match read_actions(b, p8, na as usize) {
        Some(x) => x,
        None => return None,
    };
    Some(ArmatureFile { kind, name, position, rotation, scale, bones, actions })
}

/// The place of the first action named `name`, if any.
pub open spec fn action_index(actions: Seq<ActionView>, name: Seq<char>) -> Option<int> {
    if exists|i: int| 0 <= i < actions.len() && #[trigger] actions[i].name == name {
        Some(
            choose|i: int|
                0 <= i < actions.len() && #[trigger] actions[i].name == name && forall|j: int|
                    0 <= j < i ==> actions[j].name != name,
        )
    } else {
        None
    }
}

impl ArmatureFile {
    /// The first action named `name`, if any.
    pub fn find_action(&self, name: &str) -> (r: Option<&Action>)
        ensures
            match r {
                Some(a) => action_index(self.view_of().actions, name@) matches Some(i) && a.view_of()
                    == self.view_of().actions[i],
                None => action_index(self.view_of().actions, name@) is None,
            },
    {
        let ghost actions = self.view_of().actions;
        let key = String::from_str(name);
        let mut i: usize = 0;
        while i < self.actions.len()
            invariant
                i <= self.actions@.len(),
                actions == self.view_of().actions,
                key@ == name@,
                forall|j: int| 0 <= j < i ==> actions[j].name != name@,
            decreases self.actions.len() - i,
        {
            if self.actions[i].name == key {
                proof {
                    assert(actions[i as int].name == name@);
                    let k = choose|k: int|
                        0 <= k < actions.len() && #[trigger] actions[k].name == name@ && forall|j: int|
                            0 <= j < k ==> actions[j].name != name@;
                    assert(k == i) by {
                        if k < i {
                            assert(actions[k].name != name@);
                        } else if k > i {
                            assert(actions[i as int].name != name@);
                        }
                    }
                }
                return Some(&self.actions[i]);
            }
            i = i + 1;
        }
        None
    }
}


// ---------------------------------------------------------------------------
// Instances
// ---------------------------------------------------------------------------

/// A copy of `v`.
fn copy_indices(v: &Vec<usize>) -> (r: Vec<usize>)
    ensures
        r@ == v@,
{
    let mut r: Vec<usize> = Vec::new();
    let mut i: usize = 0;
    while i < v.len()
        invariant
            i <= v@.len(),
            r@ == v@.take(i as int),
        decreases v.len() - i,
    {
        r.push(v[i]);
        i = i + 1;
        assert(r@ =~= v@.take(i as int));
    }
    assert(v@.take(v@.len() as int) =~= v@);
    r
}

impl Bone {
    /// A copy of the bone.
    pub fn copy(&self) -> (b: Bone)
        ensures
            b.view_of() == self.view_of(),
    {
        Bone {
            name: self.name.clone(),
            head: self.head,
            head_from_arm: self.head_from_arm,
            tail: self.tail,
            rotation: self.rotation,
            parent: self.parent,
            children: copy_indices(&self.children),
        }
    }
}

/// An armature as one object poses it: the armature's position, rotation
/// and scale and a copy of its bones. (The bones' positions and rotations
/// relative to the armature are floating-point work, done by the program.)
pub struct ArmatureInstance {
    pub position: Vec3Bits,
    pub rotation: QuatBits,
    pub scale: Vec3Bits,
    pub bones: Vec<Bone>,
}

impl ArmatureFile {
    /// A new instance of the armature, with its own copy of the bones.
    pub fn create_instance(&self) -> (inst: ArmatureInstance)
        ensures
            inst.position == self.position,
            inst.rotation == self.rotation,
            inst.scale == self.scale,
            inst.bones@.map_values(|b: Bone| b.view_of()) == self.view_of().bones,
    {
        let mut bones: Vec<Bone> = Vec::new();
        let mut i: usize = 0;
        while i < self.bones.len()
            invariant
                i <= self.bones@.len(),
                bones@.len() == i,
                forall|k: int| 0 <= k < i ==> (#[trigger] bones@[k]).view_of() == self.bones@[k].view_of(),
            decreases self.bones.len() - i,
        {
            bones.push(self.bones[i].copy());
            i = i + 1;
        }
        assert(bones@.map_values(|b: Bone| b.view_of()) =~= self.view_of().bones);
        ArmatureInstance { position: self.position, rotation: self.rotation, scale: self.scale, bones }
    }
}

impl ArmatureInstance {
    /// The bone at `index`.
    pub fn get_bone(&self, index: usize) -> (b: &Bone)
        requires
            index < self.bones@.len(),
        ensures
            *b == self.bones@[index as int],
    {
        &self.bones[index]
    }

    /// The bones.
    pub fn get_bones(&self) -> (bs: &Vec<Bone>)
        ensures
            bs@ == self.bones@,
    {
        &self.bones
    }
}

} // verus!
