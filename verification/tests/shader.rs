use dormin::shader::{parse_shader_file, Shader, TextureSend, UniformSend};
use std::cell::RefCell;

#[test]
fn a_description_is_read() {
    let text = "shader/a.vert\nshader/a.frag\natt,position,3\natt,texcoord,2\nuni,matrix,mat4\nuni,color,vec4\ncomment\n";
    let f = parse_shader_file(text).expect("a good description");
    assert_eq!(f.vert, "shader/a.vert");
    assert_eq!(f.frag, "shader/a.frag");
    assert_eq!(f.attributes, vec![("position".to_string(), 3), ("texcoord".to_string(), 2)]);
    assert_eq!(f.uniforms, vec!["matrix".to_string(), "color".to_string()]);
}

#[test]
fn crlf_lines_and_bad_sizes() {
    let text = "v\nf\r\natt,a,x\r\natt,b,7\r\nuni,c,float";
    let f = parse_shader_file(text).expect("a good description");
    assert_eq!(f.vert, "v");
    // reading a path line drops only its last character
    assert_eq!(f.frag, "f\r");
    // a size that is no number skips the line
    assert_eq!(f.attributes, vec![("b".to_string(), 7)]);
    assert_eq!(f.uniforms, vec!["c".to_string()]);
}

#[test]
fn short_files() {
    let f = parse_shader_file("").expect("empty");
    assert_eq!(f.vert, "");
    assert_eq!(f.frag, "");
    assert!(f.attributes.is_empty());
    // a last line without '\n' loses its last character
    let f = parse_shader_file("vert").expect("one line");
    assert_eq!(f.vert, "ver");
}

#[test]
fn a_line_too_short_is_refused() {
    assert!(parse_shader_file("v\nf\natt,a\n").is_none());
    assert!(parse_shader_file("v\nf\nuni,c\n").is_none());
    assert!(parse_shader_file("v\nf\nother,c\n").is_some());
    assert!(parse_shader_file("v\nf\natt,a,99999999999\n").unwrap().attributes.is_empty());
}

struct Probe {
    got: RefCell<Vec<(usize, u32)>>,
}

impl UniformSend for Probe {
    fn sent_to(&self, _uni: usize) -> bool {
        true
    }

    fn uniform_send(&self, uni: usize) {
        self.got.borrow_mut().push((uni, 0));
    }
}

impl TextureSend for Probe {
    fn bound_at(&self, _uni: usize, _index: u32) -> bool {
        true
    }

    fn uniform_send(&self, uni: usize, index: u32) {
        self.got.borrow_mut().push((uni, index));
    }
}

#[test]
fn shader_handles_and_states() {
    let mut s = Shader::new("shader/a.sh");
    assert_eq!(s.name(), "shader/a.sh");
    assert_eq!(s.state(), 0);
    assert!(s.sources().is_none());
    s.sources_read("vert src".to_string(), "frag src".to_string());
    assert_eq!(s.state(), 1);
    let (v, f) = s.sources().unwrap();
    assert_eq!((v.as_str(), f.as_str()), ("vert src", "frag src"));
    s.compiled(77);
    assert_eq!(s.state(), 3);
    assert_eq!(s.cgl_shader(), Some(77));
    // once further along, sources read again are not kept
    s.sources_read("x".to_string(), "y".to_string());
    assert_eq!(s.sources().unwrap().0, "vert src");
    s.attribute_add("position", 1);
    s.uniform_add("matrix", 5);
    s.uniform_add("color", 6);
    s.uniform_add("matrix", 8);
    s.description_read();
    assert_eq!(s.state(), 2);
    assert_eq!(s.uniform_handle("matrix"), Some(8));
    assert_eq!(s.uniform_handle("color"), Some(6));
    assert_eq!(s.uniform_handle("nope"), None);
    let p = Probe { got: RefCell::new(Vec::new()) };
    s.uniform_set("color", &p);
    TextureSend::uniform_send(&p, 1, 2);
    s.texture_set("matrix", &p, 3);
    s.texture_set("missing", &p, 4);
    assert_eq!(*p.got.borrow(), vec![(6, 0), (1, 2), (8, 3)]);
}
