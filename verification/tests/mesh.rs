use dormin::mesh::{read_mesh_file, Buffer, BufferSend, BufferType, DrawType, Mesh, MeshFile, Weight};

fn text(out: &mut Vec<u8>, s: &str) {
    out.extend_from_slice(&(s.len() as u16).to_le_bytes());
    out.extend_from_slice(s.as_bytes());
}

fn count(out: &mut Vec<u8>, n: u16) {
    out.extend_from_slice(&n.to_le_bytes());
}

fn f32s(out: &mut Vec<u8>, v: &[f32]) {
    for x in v {
        out.extend_from_slice(&x.to_le_bytes());
    }
}

fn sample_mesh() -> Vec<u8> {
    let mut b = Vec::new();
    text(&mut b, "Mesh");
    text(&mut b, "cube");
    count(&mut b, 1);
    f32s(&mut b, &[1.0, 2.0, 3.0]);
    count(&mut b, 1);
    for i in [0u16, 1, 2] {
        b.extend_from_slice(&i.to_le_bytes());
    }
    count(&mut b, 1);
    f32s(&mut b, &[0.0, 0.0, 1.0]);
    count(&mut b, 1);
    f32s(&mut b, &[0.5, 0.25]);
    // one vertex group: a name and one weight, passed over
    count(&mut b, 1);
    text(&mut b, "bone");
    count(&mut b, 1);
    b.extend_from_slice(&3u16.to_le_bytes());
    f32s(&mut b, &[1.0]);
    // one vertex with two weights
    count(&mut b, 1);
    count(&mut b, 2);
    b.extend_from_slice(&0u16.to_le_bytes());
    f32s(&mut b, &[0.75]);
    b.extend_from_slice(&1u16.to_le_bytes());
    f32s(&mut b, &[0.25]);
    b
}

#[test]
fn a_mesh_file_is_read_in_order() {
    let m = read_mesh_file(&sample_mesh()).expect("a complete file");
    assert_eq!(m.kind, "Mesh");
    assert_eq!(m.name, "cube");
    assert_eq!(m.vertices, vec![1.0f32.to_bits(), 2.0f32.to_bits(), 3.0f32.to_bits()]);
    assert_eq!(m.faces, vec![0, 1, 2]);
    assert_eq!(m.normals, vec![0.0f32.to_bits(), 0.0f32.to_bits(), 1.0f32.to_bits()]);
    assert_eq!(m.uvs, vec![0.5f32.to_bits(), 0.25f32.to_bits()]);
    assert_eq!(m.weights.len(), 1);
    assert_eq!(
        m.weights[0],
        vec![
            Weight { index: 0, weight: 0.75f32.to_bits() },
            Weight { index: 1, weight: 0.25f32.to_bits() },
        ]
    );
}

#[test]
fn a_mesh_file_cut_short_is_refused() {
    let b = sample_mesh();
    for n in [0, 1, 5, 10, b.len() - 1] {
        assert!(read_mesh_file(&b[..n]).is_none(), "cut at {}", n);
    }
}

#[test]
fn a_mesh_file_with_bad_text_is_refused() {
    let mut b = Vec::new();
    b.extend_from_slice(&2u16.to_le_bytes());
    b.extend_from_slice(&[0xff, 0xfe]);
    assert!(read_mesh_file(&b).is_none());
}

#[test]
fn bytes_after_the_end_are_left_alone() {
    let mut b = sample_mesh();
    b.extend_from_slice(&[1, 2, 3]);
    assert!(read_mesh_file(&b).is_some());
}

#[test]
fn buffers_copy_and_record_their_handle() {
    let mut b = Buffer::new("position".to_string(), vec![1u32, 2, 3], BufferType::Vertex);
    assert_eq!(b.size_get(), 3);
    assert_eq!(b.cgl_buffer_get(), None);
    assert_eq!(b.get_buffer_type(), BufferType::Vertex);
    b.cgl_buffer_set(42);
    assert_eq!(b.cgl_buffer_get(), Some(42));
    let c = b.copy();
    assert_eq!(c.name, "position");
    assert_eq!(c.data, vec![1, 2, 3]);
    // a copy is not on the graphics card yet
    assert_eq!(c.cgl_buffer_get(), None);
    assert_eq!(c.get_buffer_type(), BufferType::Vertex);
}

fn loaded(normals: usize, uvs: usize) -> Mesh {
    let mut m = Mesh::new_from_file("model/box.mesh");
    m.file_loaded(MeshFile {
        kind: String::from("mesh"),
        name: String::from("box"),
        vertices: vec![1, 2, 3, 4, 5, 6],
        faces: vec![0, 1, 0],
        normals: vec![7; normals],
        uvs: vec![8; uvs],
        weights: vec![vec![Weight { index: 0, weight: 9 }]],
    });
    m
}

#[test]
fn a_read_mesh_holds_its_buffers() {
    let m = loaded(6, 4);
    assert_eq!(m.state, 1);
    assert_eq!(m.name, "model/box.mesh");
    let p = m.buffer_f32_get("position").unwrap();
    assert_eq!(p.data, vec![1, 2, 3, 4, 5, 6]);
    assert_eq!(p.get_buffer_type(), BufferType::Vertex);
    assert_eq!(p.cgl_buffer_get(), None);
    assert_eq!(m.buffer_u32_get("faces").unwrap().data, vec![0, 1, 0]);
    assert_eq!(m.buffer_u32_get("faces").unwrap().get_buffer_type(), BufferType::Index);
    assert_eq!(m.buffer_f32_get("normal").unwrap().size_get(), 6);
    assert_eq!(m.buffer_f32_get("texcoord").unwrap().get_buffer_type(), BufferType::Uv);
    assert_eq!(m.buffers_f32_base.len(), 2);
    assert_eq!(m.weights.len(), 1);
    assert!(m.buffer_f32_get("faces").is_none());
}

#[test]
fn empty_normals_and_uvs_make_no_buffer() {
    let m = loaded(0, 0);
    assert!(m.buffer_f32_get("normal").is_none());
    assert!(m.buffer_f32_get("texcoord").is_none());
    assert_eq!(m.buffers_f32_base.len(), 1);
}

#[test]
fn a_mesh_is_read_once() {
    let mut m = loaded(0, 0);
    m.file_loaded(MeshFile {
        kind: String::from("mesh"),
        name: String::from("other"),
        vertices: vec![],
        faces: vec![],
        normals: vec![],
        uvs: vec![],
        weights: vec![],
    });
    assert_eq!(m.buffer_f32_get("position").unwrap().size_get(), 6);
    assert_eq!(m.weights.len(), 1);
}

#[test]
fn clearing_lines_drops_positions_and_colors() {
    let mut m = loaded(6, 0);
    m.buffers_f32.push((
        String::from("color"),
        Buffer::new(String::from("color"), vec![1, 1, 1], BufferType::Vertex),
    ));
    m.clear_lines();
    assert!(m.buffer_f32_get("position").is_none());
    assert!(m.buffer_f32_get("color").is_none());
    assert!(m.buffer_f32_get("normal").is_some());
    assert!(m.buffer_u32_get("faces").is_some());
}

#[test]
fn a_new_mesh_is_empty() {
    let m = Mesh::new();
    assert_eq!(m.name, "mesh_new");
    assert_eq!(m.state, 0);
    assert_eq!(m.draw_type, DrawType::Faces);
    assert!(m.buffer_f32_get("position").is_none());
}
