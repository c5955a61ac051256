use vstd::prelude::*;
use vstd::string::*;
use vstd::utf8::{decode_utf8, valid_utf8};

use crate::named::{find_named, named_get, named_remove, named_set, names_unique};

verus! {

/// What the data of a buffer holds for the graphics card.
#[derive(PartialEq, Eq, Structural, Clone, Copy, Debug)]
pub enum BufferType {
    Vertex,
    Index,
    Normal,
    Uv,
}

/// How the faces of a mesh are drawn.
#[derive(PartialEq, Eq, Structural, Clone, Copy, Debug)]
pub enum DrawType {
    Faces,
    Vertices,
    Lines,
}

/// Data for the graphics card, with the handle of its copy there once sent.
pub struct Buffer<T> {
    pub name: String,
    pub data: Vec<T>,
    cgl_buffer: Option<usize>,
    buffer_type: BufferType,
}

impl<T: Clone> Buffer<T> {
    /// A buffer of `data`, not sent yet.
    pub fn new(name: String, data: Vec<T>, buffer_type: BufferType) -> (b: Buffer<T>)
        ensures
            b.name_view() == name@,
            b.data_view() == data@,
            b.cgl_buffer() is None,
            b.buffer_type() == buffer_type,
    {
        Buffer { name, data, cgl_buffer: None, buffer_type }
    }

    /// A copy of the buffer's name and data, not sent yet.
    pub fn copy(&self) -> (b: Buffer<T>)
        ensures
            b.name_view() == self.name_view(),
            b.data_view().len() == self.data_view().len(),
            forall|i: int|
                0 <= i < self.data_view().len() ==> cloned(
                    self.data_view()[i],
                    #[trigger] b.data_view()[i],
                ),
            b.cgl_buffer() is None,
            b.buffer_type() == self.buffer_type(),
    {
        Buffer {
            name: self.name.clone(),
            data: self.data.clone(),
            cgl_buffer: None,
            buffer_type: self.buffer_type,
        }
    }
}

impl<T> Buffer<T> {
    pub closed spec fn name_view(&self) -> Seq<char> {
        self.name@
    }

    pub closed spec fn data_view(&self) -> Seq<T> {
        self.data@
    }

    pub closed spec fn cgl_buffer(&self) -> Option<usize> {
        self.cgl_buffer
    }

    pub closed spec fn buffer_type(&self) -> BufferType {
        self.buffer_type
    }

    /// Records the handle that the graphics card gave the buffer.
    pub fn cgl_buffer_set(&mut self, h: usize)
        ensures
            final(self).cgl_buffer() == Some(h),
            final(self).name_view() == old(self).name_view(),
            final(self).data_view() == old(self).data_view(),
            final(self).buffer_type() == old(self).buffer_type(),
    {
        self.cgl_buffer = Some(h);
    }

    pub fn get_buffer_type(&self) -> (t: BufferType)
        ensures
            t == self.buffer_type(),
    {
        self.buffer_type
    }
}

/// What drawing needs of a buffer, whatever its items: how many it holds,
/// and the handle of its copy on the graphics card once sent.
pub trait BufferSend {
    fn size_get(&self) -> usize;

    fn cgl_buffer_get(&self) -> Option<usize>;
}

impl<T> BufferSend for Buffer<T> {
    /// How many items the buffer holds.
    fn size_get(&self) -> (n: usize)
        ensures
            n == self.data_view().len(),
    {
        self.data.len()
    }

    /// The handle of the buffer's copy on the graphics card, once sent.
    fn cgl_buffer_get(&self) -> (h: Option<usize>)
        ensures
            h == self.cgl_buffer(),
    {
        self.cgl_buffer
    }
}

/// The weight of a bone on a vertex: the bone's index and the bits of the
/// weight (a little-endian `f32` of the file).
#[derive(PartialEq, Eq, Structural, Clone, Copy, Debug)]
pub struct Weight {
    pub index: u16,
    pub weight: u32,
}

/// What a mesh file holds. The numbers that the file holds as `f32` are
/// given as their bits.
pub struct MeshFile {
    pub kind: String,
    pub name: String,
    /// Three coordinates per vertex.
    pub vertices: Vec<u32>,
    /// Three vertex indices per face.
    pub faces: Vec<u32>,
    /// Three coordinates per normal.
    pub normals: Vec<u32>,
    /// Two coordinates per vertex.
    pub uvs: Vec<u32>,
    /// The weights of the bones on each vertex.
    pub weights: Vec<Vec<Weight>>,
}

// ---------------------------------------------------------------------------
// The format
// ---------------------------------------------------------------------------

/// The little-endian 16-bit number at `p`.
pub open spec fn le_u16(b: Seq<u8>, p: int) -> u16 {
    (b[p] as int + 256 * b[p + 1] as int) as u16
}

/// The little-endian 32-bit number at `p`.
pub open spec fn le_u32(b: Seq<u8>, p: int) -> u32 {
    (b[p] as int + 256 * b[p + 1] as int + 65536 * b[p + 2] as int + 16777216 * b[p
        + 3] as int) as u32
}

/// A count (16 bits) at `p`, and the place after it.
pub open spec fn count_at(b: Seq<u8>, p: int) -> Option<(nat, int)> {
    if 0 <= p && p + 2 <= b.len() {
        Some((le_u16(b, p) as nat, p + 2))
    } else {
        None
    }
}

/// A text at `p` (its length in bytes as a count, then its UTF-8 bytes),
/// and the place after it.
pub open spec fn text_at(b: Seq<u8>, p: int) -> Option<(Seq<char>, int)> {
    match count_at(b, p) {
        Some((n, q)) => if q + n <= b.len() && valid_utf8(b.subrange(q, q + n)) {
            Some((decode_utf8(b.subrange(q, q + n)), q + n))
        } else {
            None
        },
        None => None,
    }
}

/// `n` little-endian 32-bit numbers at `p`, and the place after them.
pub open spec fn words_at(b: Seq<u8>, p: int, n: nat) -> Option<(Seq<u32>, int)> {
    if 0 <= p && p + 4 * n <= b.len() {
        Some((Seq::new(n, |i: int| le_u32(b, p + 4 * i)), p + 4 * n))
    } else {
        None
    }
}

/// `n` little-endian 16-bit numbers at `p`, widened, and the place after them.
pub open spec fn halves_at(b: Seq<u8>, p: int, n: nat) -> Option<(Seq<u32>, int)> {
    if 0 <= p && p + 2 * n <= b.len() {
        Some((Seq::new(n, |i: int| le_u16(b, p + 2 * i) as u32), p + 2 * n))
    } else {
        None
    }
}

/// `n` weights (a 16-bit index, then 32 bits) at `p`, and the place after them.
pub open spec fn weights_at(b: Seq<u8>, p: int, n: nat) -> Option<(Seq<Weight>, int)> {
    if 0 <= p && p + 6 * n <= b.len() {
        Some(
            (
                Seq::new(
                    n,
                    |i: int| Weight { index: le_u16(b, p + 6 * i), weight: le_u32(b, p + 6 * i + 2) },
                ),
                p + 6 * n,
            ),
        )
    } else {
        None
    }
}

/// A list of weights (a count, then that many weights) at `p`.
pub open spec fn weight_list_at(b: Seq<u8>, p: int) -> Option<(Seq<Weight>, int)> {
    match count_at(b, p) {
        Some((n, q)) => weights_at(b, q, n),
        None => None,
    }
}

/// `g` vertex groups at `p` (each a name, then a list of weights), and the
/// place after them.
pub open spec fn groups_at(b: Seq<u8>, p: int, g: nat) -> Option<int>
    decreases g,
{
    if g == 0 {
        Some(p)
    } else {
        match groups_at(b, p, (g - 1) as nat) {
            Some(q) => match text_at(b, q) {
                Some((_, r)) => match weight_list_at(b, r) {
                    Some((_, s)) => Some(s),
                    None => None,
                },
                None => None,
            },
            None => None,
        }
    }
}

/// `n` lists of weights at `p`, and the place after them.
pub open spec fn weight_lists_at(b: Seq<u8>, p: int, n: nat) -> Option<(Seq<Seq<Weight>>, int)>
    decreases n,
{
    if n == 0 {
        Some((seq![], p))
    } else {
        match weight_lists_at(b, p, (n - 1) as nat) {
            Some((ls, q)) => match weight_list_at(b, q) {
                Some((l, r)) => Some((ls.push(l), r)),
                None => None,
            },
            None => None,
        }
    }
}

/// The weight lists of a mesh file come in file order, one per vertex: of
/// `n` lists read at `p`, the `i`-th is the list read where the first `i`
/// end, and the first `i + 1` are what reading `i + 1` lists gives.
pub proof fn law_weight_lists_in_file_order(b: Seq<u8>, p: int, n: nat, i: nat)
    requires
        i < n,
        weight_lists_at(b, p, n) is Some,
    ensures
        weight_lists_at(b, p, n).unwrap().0.len() == n,
        weight_lists_at(b, p, i) is Some,
        weight_list_at(b, weight_lists_at(b, p, i).unwrap().1) is Some,
        weight_lists_at(b, p, n).unwrap().0[i as int] == weight_list_at(
            b,
            weight_lists_at(b, p, i).unwrap().1,
        ).unwrap().0,
        weight_lists_at(b, p, i + 1) is Some,
        weight_lists_at(b, p, (i + 1) as nat).unwrap().0 == weight_lists_at(b, p, n).unwrap().0.take(
            (i + 1) as int,
        ),
    decreases n,
{
    let prev = weight_lists_at(b, p, (n - 1) as nat);
    assert(prev is Some);
    let ls = prev.unwrap().0;
    let q = prev.unwrap().1;
    assert(weight_list_at(b, q) is Some);
    let x = weight_list_at(b, q).unwrap().0;
    assert(weight_lists_at(b, p, n).unwrap().0 == ls.push(x));
    if i + 1 < n {
        law_weight_lists_in_file_order(b, p, (n - 1) as nat, i);
        assert(ls.push(x).take((i + 1) as int) =~= ls.take((i + 1) as int));
    } else {
        if n > 1 {
            law_weight_lists_in_file_order(b, p, (n - 1) as nat, 0);
        }
        assert(ls.push(x).take((i + 1) as int) =~= ls.push(x));
    }
}

/// A list of weights read at `p` holds, after its count, each weight as a
/// 16-bit index then 32 bits, in file order.
pub proof fn law_weight_list_fields(b: Seq<u8>, p: int, k: int)
    requires
        weight_list_at(b, p) is Some,
        0 <= k < weight_list_at(b, p).unwrap().0.len(),
    ensures
        weight_list_at(b, p).unwrap().0.len() == le_u16(b, p),
        weight_list_at(b, p).unwrap().0[k] == (Weight {
            index: le_u16(b, p + 2 + 6 * k),
            weight: le_u32(b, p + 2 + 6 * k + 2),
        }),
{
}

/// What a mesh file holds, in its order; `None` where it ends too early or
/// a text is not UTF-8.
pub struct MeshFileView {
    pub kind: Seq<char>,
    pub name: Seq<char>,
    pub vertices: Seq<u32>,
    pub faces: Seq<u32>,
    pub normals: Seq<u32>,
    pub uvs: Seq<u32>,
    pub weights: Seq<Seq<Weight>>,
}

/// Reading a mesh file: its type's name, its name, a count of vertices and
/// three coordinates each, a count of faces and three 16-bit indices each,
/// a count of normals and three coordinates each, a count of texture
/// vertices and two coordinates each, a count of vertex groups (each a name
/// and a list of weights, all passed over), and a count of vertices with
/// their list of weights each. Bytes after the end are left alone.
pub open spec fn parse_mesh(b: Seq<u8>) -> Option<MeshFileView> {
    match text_at(b, 0) {
        None => None,
        Some((kind, p1)) => match text_at(b, p1) {
            None => None,
            Some((name, p2)) => match count_at(b, p2) {
                None => None,
                Some((vc, p3)) => match words_at(b, p3, 3 * vc) {
                    None => None,
                    Some((vertices, p4)) => match count_at(b, p4) {
                        None => None,
                        Some((fc, p5)) => match halves_at(b, p5, 3 * fc) {
                            None => None,
                            Some((faces, p6)) => match count_at(b, p6) {
                                None => None,
                                Some((nc, p7)) => match words_at(b, p7, 3 * nc) {
                                    None => None,
                                    Some((normals, p8)) => match count_at(b, p8) {
                                        None => None,
                                        Some((uc, p9)) => match words_at(b, p9, 2 * uc) {
                                            None => None,
                                            Some((uvs, p10)) => match count_at(b, p10) {
                                                None => None,
                                                Some((gc, p11)) => match groups_at(b, p11, gc) {
                                                    None => None,
                                                    Some(p12) => match count_at(b, p12) {
                                                        None => None,
                                                        Some((wc, p13)) => match weight_lists_at(
                                                            b,
                                                            p13,
                                                            wc,
                                                        ) {
                                                            None => None,
                                                            Some((weights, _)) => Some(
                                                                MeshFileView {
                                                                    kind,
                                                                    name,
                                                                    vertices,
                                                                    faces,
                                                                    normals,
                                                                    uvs,
                                                                    weights,
                                                                },
                                                            ),
                                                        },
                                                    },
                                                },
                                            },
                                        },
                                    },
                                },
                            },
                        },
                    },
                },
            },
        },
    }
}

impl MeshFile {
    pub open spec fn view_of(&self) -> MeshFileView {
        MeshFileView {
            kind: self.kind@,
            name: self.name@,
            vertices: self.vertices@,
            faces: self.faces@,
            normals: self.normals@,
            uvs: self.uvs@,
            weights: self.weights@.map_values(|l: Vec<Weight>| l@),
        }
    }
}

// ---------------------------------------------------------------------------
// The reader
// ---------------------------------------------------------------------------

/// Makes a text of UTF-8 bytes (`String::from_utf8`, its error dropped).
/// What is claimed of it is the standard library's rule: a text is made
/// exactly where the bytes are well-formed UTF-8 (vstd's `valid_utf8`: no
/// overlong form, no surrogate, nothing past U+10FFFF), and it holds the
/// characters the bytes encode (vstd's `decode_utf8`).
#[verifier::external_body]
fn string_from_utf8(v: Vec<u8>) -> (r: Option<String>)
    ensures
        r is Some <==> valid_utf8(v@),
        r matches Some(s) ==> s@ == decode_utf8(v@),
{
    String::from_utf8(v).ok()
}

pub(crate) fn read_u16(b: &[u8], p: usize) -> (r: Option<(u16, usize)>)
    ensures
        match r {
            Some((v, q)) => count_at(b@, p as int) == Some((v as nat, q as int)),
            None => count_at(b@, p as int) is None,
        },
{
    if p <= b.len() && b.len() - p >= 2 {
        let v: u16 = b[p] as u16 + 256u16 * (b[p + 1] as u16);
        Some((v, p + 2))
    } else {
        None
    }
}

pub(crate) fn read_u32_at(b: &[u8], p: usize) -> (v: u32)
    requires
        p + 4 <= b@.len(),
    ensures
        v == le_u32(b@, p as int),
{
    b[p] as u32 + 256u32 * (b[p + 1] as u32) + 65536u32 * (b[p + 2] as u32) + 16777216u32 * (
    b[p + 3] as u32)
}

pub(crate) fn read_text(b: &[u8], p: usize) -> (r: Option<(String, usize)>)
    ensures
        match r {
            Some((s, q)) => text_at(b@, p as int) == Some((s@, q as int)),
            None => text_at(b@, p as int) is None,
        },
{
    let (n, q) = match read_u16(b, p) {
        Some(x) => x,
        None => return None,
    };
    let n = n as usize;
    if q > b.len() || b.len() - q < n {
        return None;
    }
    let mut bytes: Vec<u8> = Vec::new();
    let mut i: usize = 0;
    while i < n
        invariant
            i <= n,
            q + n <= b@.len(),
            b@.len() <= usize::MAX,
            bytes@ == b@.subrange(q as int, q + i),
        decreases n - i,
    {
        bytes.push(b[q + i]);
        i = i + 1;
        assert(bytes@ =~= b@.subrange(q as int, q + i));
    }
    match string_from_utf8(bytes) {
        Some(s) => Some((s, q + n)),
        None => None,
    }
}

pub(crate) fn read_words(b: &[u8], p: usize, n: usize) -> (r: Option<(Vec<u32>, usize)>)
    ensures
        match r {
            Some((v, q)) => words_at(b@, p as int, n as nat) == Some((v@, q as int)),
            None => words_at(b@, p as int, n as nat) is None,
        },
{
    if p > b.len() || (b.len() - p) / 4 < n {
        return None;
    }
    let mut v: Vec<u32> = Vec::new();
    let mut i: usize = 0;
    while i < n
        invariant
            i <= n,
            p + 4 * n <= b@.len(),
            b@.len() <= usize::MAX,
            v@ == Seq::new(i as nat, |k: int| le_u32(b@, p + 4 * k)),
        decreases n - i,
    {
        let w = read_u32_at(b, p + 4 * i);
        v.push(w);
        i = i + 1;
        assert(v@ =~= Seq::new(i as nat, |k: int| le_u32(b@, p + 4 * k)));
    }
    Some((v, p + 4 * n))
}

fn read_halves(b: &[u8], p: usize, n: usize) -> (r: Option<(Vec<u32>, usize)>)
    ensures
        match r {
            Some((v, q)) => halves_at(b@, p as int, n as nat) == Some((v@, q as int)),
            None => halves_at(b@, p as int, n as nat) is None,
        },
{
    if p > b.len() || (b.len() - p) / 2 < n {
        return None;
    }
    let mut v: Vec<u32> = Vec::new();
    let mut i: usize = 0;
    while i < n
        invariant
            i <= n,
            p + 2 * n <= b@.len(),
            b@.len() <= usize::MAX,
            v@ == Seq::new(i as nat, |k: int| le_u16(b@, p + 2 * k) as u32),
        decreases n - i,
    {
        let k = p + 2 * i;
        let h: u16 = b[k] as u16 + 256u16 * (b[k + 1] as u16);
        v.push(h as u32);
        i = i + 1;
        assert(v@ =~= Seq::new(i as nat, |k: int| le_u16(b@, p + 2 * k) as u32));
    }
    Some((v, p + 2 * n))
}

fn read_weight_list(b: &[u8], p: usize) -> (r: Option<(Vec<Weight>, usize)>)
    ensures
        match r {
            Some((v, q)) => weight_list_at(b@, p as int) == Some((v@, q as int)),
            None => weight_list_at(b@, p as int) is None,
        },
{
    let (n, q) = match read_u16(b, p) {
        Some(x) => x,
        None => return None,
    };
    let n = n as usize;
    if q > b.len() || (b.len() - q) / 6 < n {
        return None;
    }
    let mut v: Vec<Weight> = Vec::new();
    let mut i: usize = 0;
    while i < n
        invariant
            i <= n,
            q + 6 * n <= b@.len(),
            b@.len() <= usize::MAX,
            v@ == Seq::new(
                i as nat,
                |k: int| Weight { index: le_u16(b@, q + 6 * k), weight: le_u32(b@, q + 6 * k + 2) },
            ),
        decreases n - i,
    {
        let k = q + 6 * i;
        let index: u16 = b[k] as u16 + 256u16 * (b[k + 1] as u16);
        let weight = read_u32_at(b, k + 2);
        v.push(Weight { index, weight });
        i = i + 1;
        assert(v@ =~= Seq::new(
            i as nat,
            |k: int| Weight { index: le_u16(b@, q + 6 * k), weight: le_u32(b@, q + 6 * k + 2) },
        ));
    }
    Some((v, q + 6 * n))
}

fn skip_groups(b: &[u8], p: usize, g: usize) -> (r: Option<usize>)
    ensures
        match r {
            Some(q) => groups_at(b@, p as int, g as nat) == Some(q as int),
            None => groups_at(b@, p as int, g as nat) is None,
        },
{
    let mut q = p;
    let mut i: usize = 0;
    while i < g
        invariant
            i <= g,
            groups_at(b@, p as int, i as nat) == Some(q as int),
        decreases g - i,
    {
        let r = match read_text(b, q) {
            Some((_, r)) => r,
            None => {
                proof {
                    lemma_groups_stop(b@, p as int, (i + 1) as nat, g as nat);
                }
                return None;
            },
        };
        match read_weight_list(b, r) {
            Some((_, s)) => {
                q = s;
            },
            None => {
                proof {
                    lemma_groups_stop(b@, p as int, (i + 1) as nat, g as nat);
                }
                return None;
            },
        }
        i = i + 1;
    }
    Some(q)
}

/// Once reading `k` groups fails, reading more fails too.
proof fn lemma_groups_stop(b: Seq<u8>, p: int, k: nat, g: nat)
    requires
        k <= g,
        groups_at(b, p, k) is None,
    ensures
        groups_at(b, p, g) is None,
    decreases g - k,
{
    if k < g {
        lemma_groups_stop(b, p, k + 1, g);
    }
}

/// Once reading `k` lists fails, reading more fails too.
proof fn lemma_lists_stop(b: Seq<u8>, p: int, k: nat, n: nat)
    requires
        k <= n,
        weight_lists_at(b, p, k) is None,
    ensures
        weight_lists_at(b, p, n) is None,
    decreases n - k,
{
    if k < n {
        lemma_lists_stop(b, p, k + 1, n);
    }
}

fn read_weight_lists(b: &[u8], p: usize, n: usize) -> (r: Option<(Vec<Vec<Weight>>, usize)>)
    ensures
        match r {
            Some((v, q)) => weight_lists_at(b@, p as int, n as nat) == Some(
                (v@.map_values(|l: Vec<Weight>| l@), q as int),
            ),
            None => weight_lists_at(b@, p as int, n as nat) is None,
        },
{
    let mut q = p;
    let mut v: Vec<Vec<Weight>> = Vec::new();
    let mut i: usize = 0;
    assert(v@.map_values(|l: Vec<Weight>| l@) =~= Seq::<Seq<Weight>>::empty());
    while i < n
        invariant
            i <= n,
            weight_lists_at(b@, p as int, i as nat) == Some(
                (v@.map_values(|l: Vec<Weight>| l@), q as int),
            ),
        decreases n - i,
    {
        match read_weight_list(b, q) {
            Some((l, r)) => {
                let ghost before = v@;
                v.push(l);
                q = r;
                assert(v@.map_values(|l: Vec<Weight>| l@) =~= before.map_values(
                    |l: Vec<Weight>| l@,
                ).push(l@));
            },
            None => {
                proof {
                    lemma_lists_stop(b@, p as int, (i + 1) as nat, n as nat);
                }
                return None;
            },
        }
        i = i + 1;
    }
    Some((v, q))
}

/// Reads a mesh file (see `parse_mesh`); `None` where it ends too early or a
/// text in it is not UTF-8.
pub fn read_mesh_file(b: &[u8]) -> (r: Option<MeshFile>)
    ensures
        match r {
            Some(m) => parse_mesh(b@) == Some(m.view_of()),
            None => parse_mesh(b@) is None,
        },
{
    let (kind, p1) = match read_text(b, 0) {
        Some(x) => x,
        None => return None,
    };
    let (name, p2) = match read_text(b, p1) {
        Some(x) => x,
        None => return None,
    };
    let (vc, p3) = match read_u16(b, p2) {
        Some(x) => x,
        None => return None,
    };
    let (vertices, p4) = match read_words(b, p3, 3 * (vc as usize)) {
        Some(x) => x,
        None => return None,
    };
    let (fc, p5) = match read_u16(b, p4) {
        Some(x) => x,
        None => return None,
    };
    let (faces, p6) = match read_halves(b, p5, 3 * (fc as usize)) {
        Some(x) => x,
        None => return None,
    };
    let (nc, p7) = match read_u16(b, p6) {
        Some(x) => x,
        None => return None,
    };
    let (normals, p8) = match read_words(b, p7, 3 * (nc as usize)) {
        Some(x) => x,
        None => return None,
    };
    let (uc, p9) = match read_u16(b, p8) {
        Some(x) => x,
        None => return None,
    };
    let (uvs, p10) = match read_words(b, p9, 2 * (uc as usize)) {
        Some(x) => x,
        None => return None,
    };
    let (gc, p11) = match read_u16(b, p10) {
        Some(x) => x,
        None => return None,
    };
    let p12 = match skip_groups(b, p11, gc as usize) {
        Some(x) => x,
        None => return None,
    };
    let (wc, p13) = match read_u16(b, p12) {
        Some(x) => x,
        None => return None,
    };
    let (weights, _) = match read_weight_lists(b, p13, wc as usize) {
        Some(x) => x,
        None => return None,
    };
    Some(MeshFile { kind, name, vertices, faces, normals, uvs, weights })
}


// ---------------------------------------------------------------------------
// The mesh
// ---------------------------------------------------------------------------

/// A mesh: its name (the path of its file), how far it is loaded (0 new,
/// 1 read, 11 sent to the graphics card), its buffers of 32-bit floats (as
/// bits) and of indices, by name, how it is drawn, copies of its position
/// and normal buffers as read, and the weights of the bones on each vertex.
pub struct Mesh {
    pub name: String,
    pub state: i32,
    pub buffers_f32: Vec<(String, Buffer<u32>)>,
    pub buffers_u32: Vec<(String, Buffer<u32>)>,
    pub draw_type: DrawType,
    pub buffers_f32_base: Vec<(String, Buffer<u32>)>,
    pub weights: Vec<Vec<Weight>>,
}

/// `b` holds `data` of kind `t`, named `name`, and is not sent yet.
pub open spec fn fresh_buffer(b: Buffer<u32>, name: Seq<char>, data: Seq<u32>, t: BufferType) -> bool {
    &&& b.name_view() == name
    &&& b.data_view() == data
    &&& b.buffer_type() == t
    &&& b.cgl_buffer() is None
}

/// A copy of `v`.
fn copy_words(v: &Vec<u32>) -> (r: Vec<u32>)
    ensures
        r@ == v@,
{
    let mut r: Vec<u32> = Vec::new();
    let mut i: usize = 0;
    while i < v.len()
        invariant
            i <= v@.len(),
            r@ == v@.take(i as int),
        decreases v.len() - i,
    {
        r.push(v[i]);
        i = i + 1;
        assert(r@ =~= v@.take(i as int));
    }
    assert(v@.take(v@.len() as int) =~= v@);
    r
}

impl Mesh {
    pub open spec fn f32_buffers(&self) -> Seq<(String, Buffer<u32>)> {
        self.buffers_f32@
    }

    pub open spec fn u32_buffers(&self) -> Seq<(String, Buffer<u32>)> {
        self.buffers_u32@
    }

    pub open spec fn f32_base_buffers(&self) -> Seq<(String, Buffer<u32>)> {
        self.buffers_f32_base@
    }

    /// Each table of buffers names each buffer once.
    pub open spec fn wf(&self) -> bool {
        &&& names_unique(self.f32_buffers())
        &&& names_unique(self.u32_buffers())
        &&& names_unique(self.f32_base_buffers())
    }

    /// A mesh named "mesh_new", empty, drawn by faces.
    pub fn new() -> (m: Mesh)
        ensures
            m.wf(),
            m.name@ == "mesh_new"@,
            m.state == 0,
            m.f32_buffers().len() == 0,
            m.u32_buffers().len() == 0,
            m.f32_base_buffers().len() == 0,
            m.draw_type == DrawType::Faces,
            m.weights@.len() == 0,
    {
        Mesh::new_from_file("mesh_new")
    }

    /// A mesh to be read from the file `path`, empty yet, drawn by faces.
    pub fn new_from_file(path: &str) -> (m: Mesh)
        ensures
            m.wf(),
            m.name@ == path@,
            m.state == 0,
            m.f32_buffers().len() == 0,
            m.u32_buffers().len() == 0,
            m.f32_base_buffers().len() == 0,
            m.draw_type == DrawType::Faces,
            m.weights@.len() == 0,
    {
        Mesh {
            name: String::from_str(path),
            state: 0,
            buffers_f32: Vec::new(),
            buffers_u32: Vec::new(),
            draw_type: DrawType::Faces,
            buffers_f32_base: Vec::new(),
            weights: Vec::new(),
        }
    }

    /// Takes in what the mesh's file holds, where the mesh was not read yet:
    /// the vertices become the "position" buffer (kept as read too), the
    /// faces the "faces" index buffer, the normals, if any, the "normal"
    /// buffer (kept as read too), the texture coordinates, if any, the
    /// "texcoord" buffer; the weights of each vertex are added; the mesh is
    /// then read. A mesh already read is left as it is.
    pub fn file_loaded(&mut self, file: MeshFile)
        requires
            old(self).wf(),
        ensures
            final(self).wf(),
            old(self).state != 0 ==> *final(self) == *old(self),
            old(self).state == 0 ==> {
                &&& final(self).state == 1
                &&& final(self).name == old(self).name
                &&& final(self).draw_type == old(self).draw_type
                &&& final(self).weights@ == old(self).weights@ + file.weights@
                &&& named_get(final(self).f32_buffers(), "position"@) matches Some(b)
                    && fresh_buffer(b, "position"@, file.vertices@, BufferType::Vertex)
                &&& named_get(final(self).f32_base_buffers(), "position"@) matches Some(b)
                    && fresh_buffer(b, "position"@, file.vertices@, BufferType::Vertex)
                &&& named_get(final(self).u32_buffers(), "faces"@) matches Some(b)
                    && fresh_buffer(b, "faces"@, file.faces@, BufferType::Index)
                &&& if file.normals@.len() > 0 {
                    &&& named_get(final(self).f32_buffers(), "normal"@) matches Some(b)
                        && fresh_buffer(b, "normal"@, file.normals@, BufferType::Normal)
                    &&& named_get(final(self).f32_base_buffers(), "normal"@) matches Some(b)
                        && fresh_buffer(b, "normal"@, file.normals@, BufferType::Normal)
                } else {
                    &&& named_get(final(self).f32_buffers(), "normal"@) == named_get(
                        old(self).f32_buffers(),
                        "normal"@,
                    )
                    &&& named_get(final(self).f32_base_buffers(), "normal"@) == named_get(
                        old(self).f32_base_buffers(),
                        "normal"@,
                    )
                }
                &&& if file.uvs@.len() > 0 {
                    named_get(final(self).f32_buffers(), "texcoord"@) matches Some(b)
                        && fresh_buffer(b, "texcoord"@, file.uvs@, BufferType::Uv)
                } else {
                    named_get(final(self).f32_buffers(), "texcoord"@) == named_get(
                        old(self).f32_buffers(),
                        "texcoord"@,
                    )
                }
                &&& forall|k: Seq<char>|
                    k != "position"@ && k != "normal"@ && k != "texcoord"@ ==> #[trigger] named_get(
                        final(self).f32_buffers(),
                        k,
                    ) == named_get(old(self).f32_buffers(), k)
                &&& forall|k: Seq<char>|
                    k != "position"@ && k != "normal"@ ==> #[trigger] named_get(
                        final(self).f32_base_buffers(),
                        k,
                    ) == named_get(old(self).f32_base_buffers(), k)
                &&& forall|k: Seq<char>|
                    k != "faces"@ ==> #[trigger] named_get(final(self).u32_buffers(), k) == named_get(
                        old(self).u32_buffers(),
                        k,
                    )
            },
    {
        if self.state != 0 {
            return;
        }
        proof {
            reveal_strlit("position");
            reveal_strlit("normal");
            reveal_strlit("texcoord");
            assert("position"@[0] != "texcoord"@[0]);
            assert("position"@ != "texcoord"@);
            assert("normal"@.len() != "texcoord"@.len());
            assert("position"@.len() != "normal"@.len());
        }
        let MeshFile { kind: _, name: _, vertices, faces, normals, uvs, weights } = file;
        let position = Buffer::new(String::from_str("position"), copy_words(&vertices), BufferType::Vertex);
        named_set(&mut self.buffers_f32_base, "position", position);
        named_set(
            &mut self.buffers_f32,
            "position",
            Buffer::new(String::from_str("position"), vertices, BufferType::Vertex),
        );
        named_set(
            &mut self.buffers_u32,
            "faces",
            Buffer::new(String::from_str("faces"), faces, BufferType::Index),
        );
        if normals.len() > 0 {
            let normal = Buffer::new(String::from_str("normal"), copy_words(&normals), BufferType::Normal);
            named_set(&mut self.buffers_f32_base, "normal", normal);
            named_set(
                &mut self.buffers_f32,
                "normal",
                Buffer::new(String::from_str("normal"), normals, BufferType::Normal),
            );
        }
        if uvs.len() > 0 {
            named_set(
                &mut self.buffers_f32,
                "texcoord",
                Buffer::new(String::from_str("texcoord"), uvs, BufferType::Uv),
            );
        }
        let mut weights = weights;
        self.weights.append(&mut weights);
        self.state = 1;
    }
}


impl Mesh {
    /// The float buffer named `name`, if any.
    pub fn buffer_f32_get(&self, name: &str) -> (r: Option<&Buffer<u32>>)
        ensures
            match r {
                Some(b) => named_get(self.f32_buffers(), name@) == Some(*b),
                None => named_get(self.f32_buffers(), name@) is None,
            },
    {
        match find_named(&self.buffers_f32, name) {
            Some(i) => Some(&self.buffers_f32[i].1),
            None => None,
        }
    }

    /// The index buffer named `name`, if any.
    pub fn buffer_u32_get(&self, name: &str) -> (r: Option<&Buffer<u32>>)
        ensures
            match r {
                Some(b) => named_get(self.u32_buffers(), name@) == Some(*b),
                None => named_get(self.u32_buffers(), name@) is None,
            },
    {
        match find_named(&self.buffers_u32, name) {
            Some(i) => Some(&self.buffers_u32[i].1),
            None => None,
        }
    }

    /// Drops the "position" and "color" float buffers, where the lines of a
    /// line mesh are kept.
    pub fn clear_lines(&mut self)
        requires
            old(self).wf(),
        ensures
            final(self).wf(),
            named_get(final(self).f32_buffers(), "position"@) is None,
            named_get(final(self).f32_buffers(), "color"@) is None,
            forall|k: Seq<char>|
                k != "position"@ && k != "color"@ ==> #[trigger] named_get(final(self).f32_buffers(), k)
                    == named_get(old(self).f32_buffers(), k),
            final(self).name == old(self).name,
            final(self).state == old(self).state,
            final(self).buffers_u32 == old(self).buffers_u32,
            final(self).buffers_f32_base == old(self).buffers_f32_base,
            final(self).draw_type == old(self).draw_type,
            final(self).weights == old(self).weights,
    {
        named_remove(&mut self.buffers_f32, "position");
        named_remove(&mut self.buffers_f32, "color");
    }
}

} // verus!
