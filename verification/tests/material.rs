use dormin::material::{Attachment, Fbo, Material, Sampler};
use dormin::resource::{ResTT, ResTest};

#[test]
fn a_new_material_is_empty() {
    let m: Material<i32> = Material::new("material/simple.mat");
    assert_eq!(m.name, "material/simple.mat");
    assert!(m.shader.is_none());
    assert_eq!(m.state, 0);
    assert!(m.textures.is_empty());
    assert!(m.uniforms.is_empty());
}

#[test]
fn a_uniform_reads_back_what_was_set() {
    let mut m: Material<i32> = Material::new("m");
    assert_eq!(m.get_uniform_data("color"), None);
    m.set_uniform_data("color", 3);
    m.set_uniform_data("size", 5);
    assert_eq!(m.get_uniform_data("color"), Some(&3));
    assert_eq!(m.get_uniform_data("size"), Some(&5));
    // setting it again replaces the value, in place
    m.set_uniform_data("color", 4);
    assert_eq!(m.get_uniform_data("color"), Some(&4));
    assert_eq!(m.uniforms.len(), 2);
    assert_eq!(m.uniforms[0].0, "color");
    assert_eq!(m.get_uniform_data("size"), Some(&5));
}

#[test]
fn a_new_fbo_is_not_created_yet() {
    let f = Fbo::new("fbo_all");
    assert_eq!(f.name, "fbo_all");
    assert_eq!(f.state, 0);
    assert!(f.cgl_fbo.is_none());
}

#[test]
fn a_sampler_is_named_by_its_resource() {
    let s = Sampler::ImageFile(ResTT::new("image/a.png"));
    assert_eq!(s.name(), "image/a.png");
    let t = Sampler::Fbo(ResTT::new_with_res("fbo_all", ResTest::ResWait), Attachment::Depth);
    assert_eq!(t.name(), "fbo_all");
}

#[test]
fn an_fbo_sampler_binds_once_the_fbo_exists() {
    let mut f = Fbo::new("fbo_selected");
    let s = dormin::material::FboSampler { fbo: &f, attachment: Attachment::Color };
    assert_eq!(s.binding(), None);
    f.cgl_fbo = Some(12);
    let s = dormin::material::FboSampler { fbo: &f, attachment: Attachment::Depth };
    assert_eq!(s.binding(), Some((12, Attachment::Depth)));
}

#[test]
fn reading_a_material_takes_its_content_with_fresh_references() {
    let mut m: Material<i32> = Material::new("material/a.mat");
    m.textures.push(("old".to_string(), Sampler::ImageFile(ResTT::new("image/old.png"))));
    m.textures.push(("tex".to_string(), Sampler::ImageFile(ResTT::new("image/x.png"))));
    let mut file: Material<i32> = Material::new("material/a.mat");
    file.shader = Some(ResTT::new_with_res("shader/simple.sh", ResTest::ResData(2)));
    file.textures.push(("tex".to_string(), Sampler::ImageFile(ResTT::new_with_res("image/y.png", ResTest::ResWait))));
    file.textures.push(("depth".to_string(), Sampler::Fbo(ResTT::new_with_res("fbo_all", ResTest::ResData(0)), Attachment::Depth)));
    file.uniforms.push(("color".to_string(), 7));
    m.read_from(file);
    assert_eq!(m.name, "material/a.mat");
    let sh = m.shader.as_ref().unwrap();
    assert_eq!(sh.name, "shader/simple.sh");
    assert_eq!(sh.resource, ResTest::ResNone);
    assert_eq!(m.textures.len(), 3);
    assert_eq!(m.textures[0].0, "old");
    assert_eq!(m.textures[1].0, "tex");
    assert_eq!(m.textures[1].1.name(), "image/y.png");
    match &m.textures[2].1 {
        Sampler::Fbo(f, a) => {
            assert_eq!(f.name, "fbo_all");
            assert_eq!(f.resource, ResTest::ResNone);
            assert_eq!(*a, Attachment::Depth);
        },
        _ => panic!("expected a frame buffer"),
    }
    assert_eq!(m.get_uniform_data("color"), Some(&7));
}
