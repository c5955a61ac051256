use vstd::prelude::*;
use vstd::string::*;

use crate::named::{find_named, lemma_named_index, named_get, named_index, named_set, names_unique};
use crate::resource::{Create, ResTT, ResTest};

verus! {

/// Which image of a frame buffer a sampler reads.
#[derive(PartialEq, Eq, Structural, Clone, Copy, Debug)]
pub enum Attachment {
    Depth,
    Color,
}

/// A frame buffer to render into, with the handle of its copy on the
/// graphics card once created.
pub struct Fbo {
    pub name: String,
    pub state: i32,
    pub cgl_fbo: Option<usize>,
}

impl Fbo {
    /// A frame buffer named `name`, not created yet.
    pub fn new(name: &str) -> (f: Fbo)
        ensures
            f.name@ == name@,
            f.state == 0,
            f.cgl_fbo is None,
    {
        Fbo { name: String::from_str(name), state: 0, cgl_fbo: None }
    }
}

impl Create for Fbo {
    open spec fn made_for(&self) -> String {
        self.name
    }

    /// A frame buffer named `name`, not created yet.
    fn create(name: &str) -> (f: Fbo)
        ensures
            f.name@ == name@,
            f.state == 0,
            f.cgl_fbo is None,
    {
        Fbo::new(name)
    }

    /// Nothing more to set up: the frame buffer is created on the graphics
    /// card when first drawn into.
    fn inittt(&mut self)
        ensures
            *final(self) == *old(self),
    {
    }
}

/// An image of a frame buffer, to be handed to a sampler uniform of a shader.
pub struct FboSampler<'a> {
    pub fbo: &'a Fbo,
    pub attachment: Attachment,
}

impl<'a> FboSampler<'a> {
    /// What the sampler hands to the graphics card: the frame buffer's
    /// handle and which of its images; nothing while the frame buffer is
    /// not created.
    pub fn binding(&self) -> (r: Option<(usize, Attachment)>)
        ensures
            r == match self.fbo.cgl_fbo {
                Some(f) => Some((f, self.attachment)),
                None => None,
            },
    {
        match self.fbo.cgl_fbo {
            Some(f) => Some((f, self.attachment)),
            None => None,
        }
    }
}

/// Where a texture of a material comes from: an image file, or an image of
/// a frame buffer.
pub enum Sampler {
    ImageFile(ResTT),
    Fbo(ResTT, Attachment),
}

/// The name of the resource that a sampler reads.
pub open spec fn sampler_name(s: Sampler) -> Seq<char> {
    match s {
        Sampler::ImageFile(img) => img.name@,
        Sampler::Fbo(f, _) => f.name@,
    }
}

impl Sampler {
    /// The name of the resource that the sampler reads.
    pub fn name(&self) -> (n: &String)
        ensures
            n@ == sampler_name(*self),
    {
        match self {
            Sampler::ImageFile(img) => &img.name,
            Sampler::Fbo(f, _) => &f.name,
        }
    }
}

/// How a mesh looks: its shader, its textures by name and the values of its
/// uniforms by name (of type `U`).
pub struct Material<U> {
    pub name: String,
    pub shader: Option<ResTT>,
    pub state: i32,
    pub textures: Vec<(String, Sampler)>,
    pub uniforms: Vec<(String, U)>,
}

/// `t` is the sampler `s` made again: the same kind, resource name and
/// image, its reference bound to nothing.
pub open spec fn sampler_renewed(s: Sampler, t: Sampler) -> bool {
    match (s, t) {
        (Sampler::ImageFile(a), Sampler::ImageFile(b)) => b.name@ == a.name@ && b.resource
            == ResTest::ResNone,
        (Sampler::Fbo(a, x), Sampler::Fbo(b, y)) => b.name@ == a.name@ && b.resource
            == ResTest::ResNone && x == y,
        _ => false,
    }
}

/// The sampler `s` made again, its reference bound to nothing.
fn renew_sampler(s: &Sampler) -> (t: Sampler)
    ensures
        sampler_renewed(*s, t),
{
    match s {
        Sampler::ImageFile(img) => Sampler::ImageFile(ResTT::new(img.name.as_str())),
        Sampler::Fbo(f, a) => Sampler::Fbo(ResTT::new(f.name.as_str()), *a),
    }
}

impl<U> Material<U> {
    /// A material named `name`, without shader, textures or uniforms.
    pub fn new(name: &str) -> (m: Material<U>)
        ensures
            m.name@ == name@,
            m.shader is None,
            m.state == 0,
            m.textures@.len() == 0,
            m.uniforms@.len() == 0,
    {
        Material {
            name: String::from_str(name),
            shader: None,
            state: 0,
            textures: Vec::new(),
            uniforms: Vec::new(),
        }
    }

    /// Sets the uniform `name` to `data`, in place of its value where it has
    /// one, else as a new uniform after the others.
    pub fn set_uniform_data(&mut self, name: &str, data: U)
        requires
            names_unique(old(self).uniforms@),
        ensures
            names_unique(final(self).uniforms@),
            final(self).uniforms@.len() == old(self).uniforms@.len() + if named_index(
                old(self).uniforms@,
                name@,
            ) is Some {
                0int
            } else {
                1int
            },
            named_get(final(self).uniforms@, name@) == Some(data),
            forall|other: Seq<char>|
                other != name@ ==> #[trigger] named_get(final(self).uniforms@, other) == named_get(
                    old(self).uniforms@,
                    other,
                ),
            final(self).name == old(self).name,
            final(self).shader == old(self).shader,
            final(self).state == old(self).state,
            final(self).textures == old(self).textures,
    {
        named_set(&mut self.uniforms, name, data);
    }

    /// Takes what the file of the material holds, `mat`: its name, its
    /// shader and textures (references made again by name, bound to
    /// nothing; a texture of the file takes the place of one of that name)
    /// and its uniforms.
    pub fn read_from(&mut self, mat: Material<U>)
        requires
            names_unique(old(self).textures@),
            names_unique(mat.textures@),
        ensures
            final(self).name@ == mat.name@,
            match mat.shader {
                Some(sh) => final(self).shader matches Some(r) && r.name@ == sh.name@ && r.resource
                    == ResTest::ResNone,
                None => final(self).shader is None,
            },
            final(self).state == old(self).state,
            names_unique(final(self).textures@),
            forall|k: Seq<char>|
                #![trigger named_get(final(self).textures@, k)]
                match named_get(mat.textures@, k) {
                    Some(v) => named_get(final(self).textures@, k) matches Some(t)
                        && sampler_renewed(v, t),
                    None => named_get(final(self).textures@, k) == named_get(old(self).textures@, k),
                },
            final(self).uniforms == mat.uniforms,
    {
        let Material { name, shader, state: _, textures, uniforms } = mat;
        self.name = name;
        self.shader = match shader {
            Some(sh) => Some(ResTT::new(sh.name.as_str())),
            None => None,
        };
        let ghost before = self.textures@;
        let ghost kept = (self.name, self.shader, self.state);
        let mut i: usize = 0;
        while i < textures.len()
            invariant
                i <= textures@.len(),
                (self.name, self.shader, self.state) == kept,
                names_unique(textures@),
                names_unique(self.textures@),
                forall|k: Seq<char>|
                    #![trigger named_get(self.textures@, k)]
                    match named_get(textures@.take(i as int), k) {
                        Some(v) => named_get(self.textures@, k) matches Some(t) && sampler_renewed(v, t),
                        None => named_get(self.textures@, k) == named_get(before, k),
                    },
            decreases textures.len() - i,
        {
            let ghost mid = self.textures@;
            let t = renew_sampler(&textures[i].1);
            named_set(&mut self.textures, textures[i].0.as_str(), t);
            proof {
                let pre = textures@.take(i as int);
                let next = textures@.take(i + 1);
                let key = textures@[i as int].0@;
                assert(next.drop_last() =~= pre);
                assert(next.last() == textures@[i as int]);
                lemma_named_index(pre, key);
                if let Some(j) = named_index(pre, key) {
                    assert(textures@[j].0@ != textures@[i as int].0@);
                }
                assert forall|k: Seq<char>|
                    #![trigger named_get(self.textures@, k)]
                    match named_get(next, k) {
                    Some(v) => named_get(self.textures@, k) matches Some(t) && sampler_renewed(v, t),
                    None => named_get(self.textures@, k) == named_get(before, k),
                } by {
                    if k != key {
                        assert(named_get(self.textures@, k) == named_get(mid, k));
                        assert(named_index(next, k) == named_index(pre, k));
                        if let Some(j) = named_index(pre, k) {
                            lemma_named_index(pre, k);
                            assert(next[j] == pre[j]);
                        }
                    }
                }
            }
            i = i + 1;
        }
        assert(textures@.take(textures@.len() as int) =~= textures@);
        self.uniforms = uniforms;
    }

    /// The value of the uniform `name`, if it has one.
    pub fn get_uniform_data(&self, name: &str) -> (r: Option<&U>)
        ensures
            match r {
                Some(v) => named_get(self.uniforms@, name@) == Some(*v),
                None => named_get(self.uniforms@, name@) is None,
            },
    {
        match find_named(&self.uniforms, name) {
            Some(i) => Some(&self.uniforms[i].1),
            None => None,
        }
    }
}

} // verus!
