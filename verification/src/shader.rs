use vstd::prelude::*;
use vstd::string::*;

use crate::named::{find_named, named_get, named_index, named_set, names_unique};
use crate::number::{parse_usize, parse_usize_spec};
use crate::resource::Create;
use crate::util::{seq_split, split_char, strings_view};

verus! {

/// Something that can be handed to a uniform of a shader: the handle of the
/// uniform on the graphics card is given.
pub trait UniformSend {
    /// The value is to be handed to the uniform with handle `uni`.
    spec fn sent_to(&self, uni: usize) -> bool;

    fn uniform_send(&self, uni: usize)
        requires
            self.sent_to(uni),
    ;
}

/// A texture that can be bound to a sampler uniform of a shader, in the
/// texture unit `index`.
pub trait TextureSend {
    /// The texture is to be bound to the sampler uniform with handle `uni`,
    /// in the texture unit `index`.
    spec fn bound_at(&self, uni: usize, index: u32) -> bool;

    fn uniform_send(&self, uni: usize, index: u32)
        requires
            self.bound_at(uni, index),
    ;
}

/// A shader: its name (the path of its description file), the handles the
/// graphics card gave for its attributes and uniforms, by name, how far it
/// is loaded (0 new, 1 sources read, 2 description read, 3 compiled), its
/// two sources once read, and its handle once compiled.
pub struct Shader {
    name: String,
    attributes: Vec<(String, usize)>,
    uniforms: Vec<(String, usize)>,
    state: i32,
    vert: Option<String>,
    frag: Option<String>,
    cgl_shader: Option<usize>,
}

/// What a shader holds apart from its handle tables.
pub struct ShaderView {
    pub name: Seq<char>,
    pub attributes: Seq<(String, usize)>,
    pub uniforms: Seq<(String, usize)>,
    pub state: i32,
    pub vert: Option<Seq<char>>,
    pub frag: Option<Seq<char>>,
    pub cgl_shader: Option<usize>,
}

pub open spec fn opt_view(o: Option<String>) -> Option<Seq<char>> {
    match o {
        Some(s) => Some(s@),
        None => None,
    }
}

impl View for Shader {
    type V = ShaderView;

    closed spec fn view(&self) -> ShaderView {
        ShaderView {
            name: self.name@,
            attributes: self.attributes@,
            uniforms: self.uniforms@,
            state: self.state,
            vert: opt_view(self.vert),
            frag: opt_view(self.frag),
            cgl_shader: self.cgl_shader,
        }
    }
}

impl Shader {
    /// A shader named `name`, nothing of it loaded.
    pub fn new(name: &str) -> (s: Shader)
        ensures
            s@ == (ShaderView {
                name: name@,
                attributes: seq![],
                uniforms: seq![],
                state: 0,
                vert: None,
                frag: None,
                cgl_shader: None,
            }),
    {
        let s = Shader {
            name: String::from_str(name),
            cgl_shader: None,
            attributes: Vec::new(),
            uniforms: Vec::new(),
            vert: None,
            frag: None,
            state: 0,
        };
        assert(s@.attributes =~= seq![]);
        assert(s@.uniforms =~= seq![]);
        s
    }

    /// Hands the uniform `name`, where the shader has it, to `value`: the
    /// handle of that uniform is what `value` is given (nothing is handed
    /// where the shader has no such uniform).
    pub fn uniform_set<T: UniformSend>(&self, name: &str, value: &T)
        requires
            forall|h: usize| named_get(self@.uniforms, name@) == Some(h) ==> value.sent_to(h),
    {
        match find_named(&self.uniforms, name) {
            Some(i) => value.uniform_send(self.uniforms[i].1),
            None => {},
        }
    }

    /// Hands the sampler uniform `name`, where the shader has it, to the
    /// texture `value` for the texture unit `index`: the handle of that
    /// uniform and `index` are what `value` is given (nothing is handed where
    /// the shader has no such uniform).
    pub fn texture_set<T: TextureSend>(&self, name: &str, value: &T, index: u32)
        requires
            forall|h: usize| named_get(self@.uniforms, name@) == Some(h) ==> value.bound_at(h, index),
    {
        match find_named(&self.uniforms, name) {
            Some(i) => value.uniform_send(self.uniforms[i].1, index),
            None => {},
        }
    }

    /// The handle of the uniform `name`, where the shader has one.
    pub fn uniform_handle(&self, name: &str) -> (h: Option<usize>)
        ensures
            h == named_get(self@.uniforms, name@),
    {
        match find_named(&self.uniforms, name) {
            Some(i) => Some(self.uniforms[i].1),
            None => None,
        }
    }

    /// Keeps the handle the graphics card gave for the attribute `name`.
    pub fn attribute_add(&mut self, name: &str, handle: usize)
        requires
            names_unique(old(self)@.attributes),
        ensures
            names_unique(final(self)@.attributes),
            named_get(final(self)@.attributes, name@) == Some(handle),
            forall|other: Seq<char>|
                other != name@ ==> #[trigger] named_get(final(self)@.attributes, other)
                    == named_get(old(self)@.attributes, other),
            final(self)@ == (ShaderView { attributes: final(self)@.attributes, ..old(self)@ }),
    {
        named_set(&mut self.attributes, name, handle);
    }

    /// Keeps the handle the graphics card gave for the uniform `name`.
    pub fn uniform_add(&mut self, name: &str, handle: usize)
        requires
            names_unique(old(self)@.uniforms),
        ensures
            names_unique(final(self)@.uniforms),
            named_get(final(self)@.uniforms, name@) == Some(handle),
            forall|other: Seq<char>|
                other != name@ ==> #[trigger] named_get(final(self)@.uniforms, other)
                    == named_get(old(self)@.uniforms, other),
            final(self)@ == (ShaderView { uniforms: final(self)@.uniforms, ..old(self)@ }),
    {
        named_set(&mut self.uniforms, name, handle);
    }

    /// Keeps the two sources once read, where the shader is not further
    /// along than that.
    pub fn sources_read(&mut self, vert: String, frag: String)
        ensures
            final(self)@ == if old(self)@.state > 1 {
                old(self)@
            } else {
                ShaderView { state: 1, vert: Some(vert@), frag: Some(frag@), ..old(self)@ }
            },
    {
        if self.state > 1 {
            return ;
        }
        self.frag = Some(frag);
        self.vert = Some(vert);
        self.state = 1;
    }

    /// The vertex and fragment sources, where both were read: what
    /// compiling the shader needs.
    pub fn sources(&self) -> (r: Option<(&String, &String)>)
        ensures
            match r {
                Some((v, f)) => self@.vert == Some(v@) && self@.frag == Some(f@),
                None => self@.vert is None || self@.frag is None,
            },
    {
        match (&self.vert, &self.frag) {
            (Some(v), Some(f)) => Some((v, f)),
            _ => None,
        }
    }

    /// Keeps the handle of the compiled shader.
    pub fn compiled(&mut self, handle: usize)
        ensures
            final(self)@ == (ShaderView { state: 3, cgl_shader: Some(handle), ..old(self)@ }),
    {
        self.cgl_shader = Some(handle);
        self.state = 3;
    }

    /// The shader's name: the path of its description file.
    pub fn name(&self) -> (n: &String)
        ensures
            n@ == self@.name,
    {
        &self.name
    }

    /// The handles of the shader's attributes, by name.
    pub fn attributes(&self) -> (a: &Vec<(String, usize)>)
        ensures
            a@ == self@.attributes,
    {
        &self.attributes
    }

    /// How far the shader is loaded.
    pub fn state(&self) -> (s: i32)
        ensures
            s == self@.state,
    {
        self.state
    }

    /// The handle of the compiled shader, if it was compiled.
    pub fn cgl_shader(&self) -> (h: Option<usize>)
        ensures
            h == self@.cgl_shader,
    {
        self.cgl_shader
    }

    /// Marks the description as read.
    pub fn description_read(&mut self)
        ensures
            final(self)@ == (ShaderView { state: 2, ..old(self)@ }),
    {
        self.state = 2;
    }
}

impl Create for Shader {
    closed spec fn made_for(&self) -> String {
        self.name
    }

    /// A shader named `name`, nothing of it loaded.
    fn create(name: &str) -> (s: Shader)
        ensures
            s@ == (ShaderView {
                name: name@,
                attributes: seq![],
                uniforms: seq![],
                state: 0,
                vert: None,
                frag: None,
                cgl_shader: None,
            }),
    {
        Shader::new(name)
    }

    /// Nothing more to set up: a shader is read and compiled on demand.
    fn inittt(&mut self)
        ensures
            *final(self) == *old(self),
    {
    }
}

// ---------------------------------------------------------------------------
// The description file: the path of the vertex source on the first line,
// that of the fragment source on the second, then one line per attribute
// ("att,<name>,<size>") or uniform ("uni,<name>,<type>").
// ---------------------------------------------------------------------------

/// The first line of `s` as reading a line and dropping its last character
/// leaves it (the '\n', or the last character of a last line without one),
/// and the text after that line.
pub open spec fn pop_line(s: Seq<char>) -> (Seq<char>, Seq<char>) {
    let p = seq_split(s, '\n');
    if p.len() > 1 {
        (p[0], s.skip(p[0].len() as int + 1))
    } else if s.len() == 0 {
        (s, s)
    } else {
        (s.drop_last(), seq![])
    }
}

/// A line without the '\r' of a "\r\n" ending.
pub open spec fn strip_cr(l: Seq<char>) -> Seq<char> {
    if l.len() > 0 && l.last() == '\r' {
        l.drop_last()
    } else {
        l
    }
}

/// The lines of `s` as reading it line by line gives them: cut at each
/// '\n', a '\r' before a '\n' dropped, and no empty last line after a
/// final '\n'.
pub open spec fn text_lines(s: Seq<char>) -> Seq<Seq<char>> {
    let p = seq_split(s, '\n');
    let n: int = if p[p.len() - 1].len() == 0 {
        p.len() - 1
    } else {
        p.len() as int
    };
    Seq::new(
        n as nat,
        |i: int|
            if i < p.len() - 1 {
                strip_cr(p[i])
            } else {
                p[i]
            },
    )
}

/// What one line of the description declares.
pub enum LineKind {
    /// An attribute and its size.
    Attribute(Seq<char>, u32),
    /// A uniform.
    Uniform(Seq<char>),
    /// Nothing (another kind of line, or a size that is no number).
    Skip,
    /// A line too short for its kind, on which reading fails.
    Bad,
}

/// What one line of the description declares, as read.
pub enum ShaderLine {
    Attribute(String, u32),
    Uniform(String),
    Skip,
    Bad,
}

impl View for ShaderLine {
    type V = LineKind;

    open spec fn view(&self) -> LineKind {
        match self {
            ShaderLine::Attribute(n, size) => LineKind::Attribute(n@, *size),
            ShaderLine::Uniform(n) => LineKind::Uniform(n@),
            ShaderLine::Skip => LineKind::Skip,
            ShaderLine::Bad => LineKind::Bad,
        }
    }
}

pub open spec fn read_shader_line(line: Seq<char>) -> LineKind {
    let parts = seq_split(line, ',');
    if parts[0] == "att"@ {
        if parts.len() < 3 {
            LineKind::Bad
        } else {
            match parse_usize_spec(parts[2]) {
                Some(v) => if v <= u32::MAX {
                    LineKind::Attribute(parts[1], v as u32)
                } else {
                    LineKind::Skip
                },
                None => LineKind::Skip,
            }
        }
    } else if parts[0] == "uni"@ {
        if parts.len() < 3 {
            LineKind::Bad
        } else {
            LineKind::Uniform(parts[1])
        }
    } else {
        LineKind::Skip
    }
}

/// The attributes that `lines` declare, in order.
pub open spec fn lines_attributes(lines: Seq<Seq<char>>) -> Seq<(Seq<char>, u32)>
    decreases lines.len(),
{
    if lines.len() == 0 {
        seq![]
    } else {
        let init = lines_attributes(lines.drop_last());
        match read_shader_line(lines.last()) {
            LineKind::Attribute(n, size) => init.push((n, size)),
            _ => init,
        }
    }
}

/// The uniforms that `lines` declare, in order.
pub open spec fn lines_uniforms(lines: Seq<Seq<char>>) -> Seq<Seq<char>>
    decreases lines.len(),
{
    if lines.len() == 0 {
        seq![]
    } else {
        let init = lines_uniforms(lines.drop_last());
        match read_shader_line(lines.last()) {
            LineKind::Uniform(n) => init.push(n),
            _ => init,
        }
    }
}

/// What a description file declares.
pub struct ShaderFile {
    pub vert: String,
    pub frag: String,
    pub attributes: Vec<(String, u32)>,
    pub uniforms: Vec<String>,
}

/// The lines after the two paths.
pub open spec fn description_lines(text: Seq<char>) -> Seq<Seq<char>> {
    text_lines(pop_line(pop_line(text).1).1)
}

/// A description can be read when none of its lines is too short for its kind.
pub open spec fn description_ok(text: Seq<char>) -> bool {
    forall|i: int|
        0 <= i < description_lines(text).len() ==> read_shader_line(
            #[trigger] description_lines(text)[i],
        ) != LineKind::Bad
}

fn is_text(s: &String, lit: &str) -> (r: bool)
    ensures
        r == (s@ == lit@),
{
    let t = String::from_str(lit);
    *s == t
}

/// The place of the first '\n' of `s`, or its length.
fn newline_index(s: &str) -> (k: usize)
    ensures
        k <= s@.len(),
        forall|i: int| 0 <= i < k ==> s@[i] != '\n',
        k < s@.len() ==> s@[k as int] == '\n',
{
    let n = s.unicode_len();
    let mut i: usize = 0;
    while i < n
        invariant
            n == s@.len(),
            i <= n,
            forall|k: int| 0 <= k < i ==> s@[k] != '\n',
        decreases n - i,
    {
        if s.get_char(i) == '\n' {
            return i;
        }
        i = i + 1;
    }
    n
}

/// Cutting a text at '\n' gives as first piece the text before its first '\n'.
proof fn lemma_split_first(s: Seq<char>, k: int)
    requires
        0 <= k <= s.len(),
        forall|i: int| 0 <= i < k ==> s[i] != '\n',
        k < s.len() ==> s[k] == '\n',
    ensures
        seq_split(s, '\n')[0] == s.take(k),
        seq_split(s, '\n').len() > 1 <==> k < s.len(),
    decreases s.len(),
{
    crate::util::lemma_split_nonempty(s, '\n');
    if s.len() > 0 {
        if k == s.len() {
            lemma_split_first(s.drop_last(), k - 1);
            assert(s.drop_last().take(k - 1) =~= s.take(k).drop_last());
            crate::util::lemma_split_nonempty(s.drop_last(), '\n');
        } else {
            lemma_split_first(s.drop_last(), k);
            crate::util::lemma_split_nonempty(s.drop_last(), '\n');
            assert(s.drop_last().take(k) =~= s.take(k));
            if k == s.len() - 1 {
                assert(s.drop_last() =~= s.take(k));
            }
        }
    }
}

/// Reads one line and drops its last character (see `pop_line`).
fn read_pop_line(s: &str) -> (r: (String, String))
    ensures
        r.0@ == pop_line(s@).0,
        r.1@ == pop_line(s@).1,
{
    let n = s.unicode_len();
    let k = newline_index(s);
    proof {
        lemma_split_first(s@, k as int);
    }
    if k < n {
        let first = String::from_str(s.substring_char(0, k));
        let rest = String::from_str(s.substring_char(k + 1, n));
        proof {
            assert(rest@ =~= s@.skip(k + 1));
        }
        (first, rest)
    } else if n == 0 {
        (String::new(), String::new())
    } else {
        let first = String::from_str(s.substring_char(0, n - 1));
        proof {
            assert(first@ =~= s@.drop_last());
        }
        (first, String::new())
    }
}

/// What one line declares (see `read_shader_line`).
fn parse_shader_line(line: &str) -> (r: ShaderLine)
    ensures
        r@ == read_shader_line(line@),
{
    let parts = split_char(line, ',');
    proof {
        crate::util::lemma_split_nonempty(line@, ',');
        reveal_strlit("att");
        reveal_strlit("uni");
        assert(strings_view(parts@)[0] == parts@[0]@);
    }
    if is_text(&parts[0], "att") {
        if parts.len() < 3 {
            ShaderLine::Bad
        } else {
            proof {
                assert(strings_view(parts@)[1] == parts@[1]@);
                assert(strings_view(parts@)[2] == parts@[2]@);
            }
            match parse_usize(parts[2].as_str()) {
                Some(v) => if v <= 4294967295usize {
                    ShaderLine::Attribute(parts[1].clone(), v as u32)
                } else {
                    ShaderLine::Skip
                },
                None => ShaderLine::Skip,
            }
        }
    } else if is_text(&parts[0], "uni") {
        if parts.len() < 3 {
            ShaderLine::Bad
        } else {
            proof {
                assert(strings_view(parts@)[1] == parts@[1]@);
            }
            ShaderLine::Uniform(parts[1].clone())
        }
    } else {
        ShaderLine::Skip
    }
}

/// A line without the '\r' of a "\r\n" ending.
fn strip_cr_exec(l: &String) -> (r: String)
    ensures
        r@ == strip_cr(l@),
{
    let n = l.as_str().unicode_len();
    if n > 0 && l.as_str().get_char(n - 1) == '\r' {
        let r = String::from_str(l.as_str().substring_char(0, n - 1));
        assert(r@ =~= l@.drop_last());
        r
    } else {
        l.clone()
    }
}

pub open spec fn attributes_view(a: Seq<(String, u32)>) -> Seq<(Seq<char>, u32)> {
    a.map_values(|e: (String, u32)| (e.0@, e.1))
}

/// Reads a description file: the paths of the two sources, then the
/// attributes and uniforms its lines declare, in order; `None` where a line
/// is too short for its kind.
pub fn parse_shader_file(text: &str) -> (r: Option<ShaderFile>)
    ensures
        r is Some <==> description_ok(text@),
        r matches Some(f) ==> {
            &&& f.vert@ == pop_line(text@).0
            &&& f.frag@ == pop_line(pop_line(text@).1).0
            &&& attributes_view(f.attributes@) == lines_attributes(description_lines(text@))
            &&& strings_view(f.uniforms@) == lines_uniforms(description_lines(text@))
        },
{
    let (vert, rest) = read_pop_line(text);
    let (frag, rest2) = read_pop_line(rest.as_str());
    let pieces = split_char(rest2.as_str(), '\n');
    let ghost lines = description_lines(text@);
    proof {
        crate::util::lemma_split_nonempty(rest2@, '\n');
    }
    let n = pieces.len();
    let count = if pieces[n - 1].as_str().unicode_len() == 0 {
        n - 1
    } else {
        n
    };
    proof {
        assert(strings_view(pieces@)[n - 1] == pieces@[n - 1]@);
        assert(lines.len() == count);
    }
    let mut attributes: Vec<(String, u32)> = Vec::new();
    let mut uniforms: Vec<String> = Vec::new();
    let mut i: usize = 0;
    while i < count
        invariant
            i <= count <= n,
            n == pieces@.len(),
            lines == description_lines(text@),
            lines == text_lines(rest2@),
            strings_view(pieces@) == seq_split(rest2@, '\n'),
            lines.len() == count,
            attributes_view(attributes@) == lines_attributes(lines.take(i as int)),
            strings_view(uniforms@) == lines_uniforms(lines.take(i as int)),
            forall|j: int| 0 <= j < i ==> read_shader_line(#[trigger] lines[j]) != LineKind::Bad,
        decreases count - i,
    {
        let line = if i < n - 1 {
            strip_cr_exec(&pieces[i])
        } else {
            pieces[i].clone()
        };
        proof {
            assert(strings_view(pieces@)[i as int] == pieces@[i as int]@);
            assert(line@ == lines[i as int]);
            let t = lines.take(i + 1);
            assert(t.drop_last() =~= lines.take(i as int));
            assert(t.last() == lines[i as int]);
        }
        match parse_shader_line(line.as_str()) {
            ShaderLine::Attribute(name, size) => {
                attributes.push((name, size));
                proof {
                    assert(attributes_view(attributes@) =~= lines_attributes(lines.take(i + 1)));
                    assert(strings_view(uniforms@) =~= lines_uniforms(lines.take(i + 1)));
                }
            },
            ShaderLine::Uniform(name) => {
                uniforms.push(name);
                proof {
                    assert(attributes_view(attributes@) =~= lines_attributes(lines.take(i + 1)));
                    assert(strings_view(uniforms@) =~= lines_uniforms(lines.take(i + 1)));
                }
            },
            ShaderLine::Skip => {
                proof {
                    assert(attributes_view(attributes@) =~= lines_attributes(lines.take(i + 1)));
                    assert(strings_view(uniforms@) =~= lines_uniforms(lines.take(i + 1)));
                }
            },
            ShaderLine::Bad => {
                return None;
            },
        }
        i = i + 1;
    }
    assert(lines.take(count as int) =~= lines);
    Some(ShaderFile { vert, frag, attributes, uniforms })
}

} // verus!
