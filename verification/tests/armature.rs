use dormin::armature::{read_armature_file, CurveKind, FrameValue, QuatBits, Vec3Bits};

fn text(b: &mut Vec<u8>, s: &str) {
    b.extend_from_slice(&(s.len() as u16).to_le_bytes());
    b.extend_from_slice(s.as_bytes());
}

fn count(b: &mut Vec<u8>, n: u16) {
    b.extend_from_slice(&n.to_le_bytes());
}

fn float(b: &mut Vec<u8>, f: f32) {
    b.extend_from_slice(&f.to_le_bytes());
}

fn vec3(b: &mut Vec<u8>, x: f32, y: f32, z: f32) {
    float(b, x);
    float(b, y);
    float(b, z);
}

fn bits3(x: f32, y: f32, z: f32) -> Vec3Bits {
    Vec3Bits { x: x.to_bits(), y: y.to_bits(), z: z.to_bits() }
}

fn header(b: &mut Vec<u8>) {
    text(b, "armature");
    text(b, "arm");
    vec3(b, 1.0, 2.0, 3.0);
    vec3(b, 0.0, 0.0, 0.0);
    float(b, 1.0);
    vec3(b, 1.0, 1.0, 1.0);
}

fn bone(b: &mut Vec<u8>, name: &str, parent: Option<u16>, children: &[u16]) {
    text(b, name);
    vec3(b, 9.0, 9.0, 9.0);
    vec3(b, 0.0, 1.0, 0.0);
    vec3(b, 0.0, 2.0, 0.0);
    vec3(b, 0.0, 3.0, 0.0);
    vec3(b, 0.0, 0.0, 0.0);
    float(b, 1.0);
    match parent {
        Some(p) => {
            b.push(1);
            count(b, p);
        }
        None => b.push(0),
    }
    count(b, children.len() as u16);
    for c in children {
        count(b, *c);
    }
}

fn two_bones_one_action() -> Vec<u8> {
    let mut b = Vec::new();
    header(&mut b);
    count(&mut b, 2);
    bone(&mut b, "root", None, &[1]);
    bone(&mut b, "child", Some(0), &[]);
    count(&mut b, 1);
    text(&mut b, "walk");
    count(&mut b, 2);
    text(&mut b, "root");
    count(&mut b, 0);
    text(&mut b, "position");
    count(&mut b, 2);
    float(&mut b, 0.0);
    vec3(&mut b, 0.0, 0.0, 0.0);
    float(&mut b, 10.0);
    vec3(&mut b, 0.0, 5.0, 0.0);
    text(&mut b, "child");
    count(&mut b, 1);
    text(&mut b, "quaternion");
    count(&mut b, 1);
    float(&mut b, 4.0);
    vec3(&mut b, 0.0, 0.0, 0.0);
    float(&mut b, 1.0);
    b
}

#[test]
fn an_armature_file_gives_its_bones_and_actions() {
    let a = read_armature_file(&two_bones_one_action()).unwrap();
    assert_eq!(a.kind, "armature");
    assert_eq!(a.name, "arm");
    assert_eq!(a.position, bits3(1.0, 2.0, 3.0));
    assert_eq!(a.rotation, QuatBits { x: 0, y: 0, z: 0, w: 1.0f32.to_bits() });
    assert_eq!(a.bones.len(), 2);
    assert_eq!(a.bones[0].name, "root");
    assert_eq!(a.bones[0].head, bits3(0.0, 1.0, 0.0));
    assert_eq!(a.bones[0].head_from_arm, bits3(0.0, 2.0, 0.0));
    assert_eq!(a.bones[0].tail, bits3(0.0, 3.0, 0.0));
    assert_eq!(a.bones[0].parent, None);
    assert_eq!(a.bones[0].children, vec![1]);
    assert_eq!(a.bones[1].parent, Some(0));
    assert!(a.bones[1].children.is_empty());
    assert_eq!(a.actions.len(), 1);
    let walk = &a.actions[0];
    assert_eq!(walk.name, "walk");
    assert_eq!(walk.curves.len(), 2);
    assert_eq!(walk.curves[0].bone_name, "root");
    assert_eq!(walk.curves[0].kind, CurveKind::Position);
    assert_eq!(walk.curves[0].frames.len(), 2);
    assert_eq!(walk.curves[0].frames[1].time, 10.0f32.to_bits());
    assert_eq!(walk.curves[0].frames[1].value, FrameValue::Position(bits3(0.0, 5.0, 0.0)));
    assert_eq!(walk.curves[1].bone_index, 1);
    assert_eq!(walk.curves[1].kind, CurveKind::Quaternion);
    assert_eq!(
        walk.curves[1].frames[0].value,
        FrameValue::Orientation(QuatBits { x: 0, y: 0, z: 0, w: 1.0f32.to_bits() })
    );
}

#[test]
fn actions_are_found_by_name() {
    let a = read_armature_file(&two_bones_one_action()).unwrap();
    assert_eq!(a.find_action("walk").unwrap().curves.len(), 2);
    assert!(a.find_action("run").is_none());
}

#[test]
fn a_cut_armature_file_is_refused() {
    let b = two_bones_one_action();
    assert!(read_armature_file(&b[..b.len() - 1]).is_none());
    assert!(read_armature_file(&b[..5]).is_none());
    assert!(read_armature_file(&[]).is_none());
}

fn one_curve(kind: &str, frames: u16) -> Vec<u8> {
    let mut b = Vec::new();
    header(&mut b);
    count(&mut b, 0);
    count(&mut b, 1);
    text(&mut b, "a");
    count(&mut b, 1);
    text(&mut b, "root");
    count(&mut b, 0);
    text(&mut b, kind);
    count(&mut b, frames);
    for _ in 0..frames {
        float(&mut b, 1.0);
        vec3(&mut b, 1.0, 1.0, 1.0);
    }
    b
}

#[test]
fn unknown_curve_kinds_and_euler_frames_are_refused() {
    assert!(read_armature_file(&one_curve("rotation", 0)).is_none());
    assert!(read_armature_file(&one_curve("euler", 1)).is_none());
    let a = read_armature_file(&one_curve("euler", 0)).unwrap();
    assert_eq!(a.actions[0].curves[0].kind, CurveKind::Euler);
    let s = read_armature_file(&one_curve("scale", 1)).unwrap();
    assert_eq!(s.actions[0].curves[0].frames[0].value, FrameValue::Scale(bits3(1.0, 1.0, 1.0)));
}

#[test]
fn a_parent_byte_other_than_one_means_no_parent() {
    let mut b = Vec::new();
    header(&mut b);
    count(&mut b, 1);
    text(&mut b, "root");
    for _ in 0..4 {
        vec3(&mut b, 0.0, 0.0, 0.0);
    }
    vec3(&mut b, 0.0, 0.0, 0.0);
    float(&mut b, 1.0);
    b.push(2);
    count(&mut b, 0);
    count(&mut b, 0);
    let a = read_armature_file(&b).unwrap();
    assert_eq!(a.bones[0].parent, None);
}

#[test]
fn an_instance_holds_a_copy_of_the_bones() {
    let a = read_armature_file(&two_bones_one_action()).unwrap();
    let inst = a.create_instance();
    assert_eq!(inst.position, bits3(1.0, 2.0, 3.0));
    assert_eq!(inst.scale, bits3(1.0, 1.0, 1.0));
    assert_eq!(inst.get_bones().len(), 2);
    assert_eq!(inst.get_bone(1).name, "child");
    assert_eq!(inst.get_bone(1).parent, Some(0));
    assert_eq!(inst.get_bone(0).children, vec![1]);
    let copy = a.bones[0].copy();
    assert_eq!(copy.tail, a.bones[0].tail);
}
