//! Values of the glTF 2.0 model format that the exporters share: enumeration
//! codes, typed indices, and data URIs for embedded buffers.

use vstd::prelude::*;
use vstd::string::*;

use base64::Engine;

verus! {

/// How the vertices of a primitive are joined.
#[derive(Clone, Copy, Debug, PartialEq, Eq, Structural)]
pub enum PrimitiveMode {
    Points,
    Lines,
    LineLoop,
    LineStrip,
    Triangles,
    TriangleStrip,
    TriangleFan,
}

pub open spec fn primitive_mode_code(m: PrimitiveMode) -> usize {
    match m {
        PrimitiveMode::Points => 0,
        PrimitiveMode::Lines => 1,
        PrimitiveMode::LineLoop => 2,
        PrimitiveMode::LineStrip => 3,
        PrimitiveMode::Triangles => 4,
        PrimitiveMode::TriangleStrip => 5,
        PrimitiveMode::TriangleFan => 6,
    }
}

impl From<PrimitiveMode> for usize {
    fn from(value: PrimitiveMode) -> (r: usize) {
        match value {
            PrimitiveMode::Points => 0,
            PrimitiveMode::Lines => 1,
            PrimitiveMode::LineLoop => 2,
            PrimitiveMode::LineStrip => 3,
            PrimitiveMode::Triangles => 4,
            PrimitiveMode::TriangleStrip => 5,
            PrimitiveMode::TriangleFan => 6,
        }
    }
}

impl vstd::std_specs::convert::FromSpecImpl<PrimitiveMode> for usize {
    open spec fn obeys_from_spec() -> bool {
        true
    }

    open spec fn from_spec(value: PrimitiveMode) -> usize {
        primitive_mode_code(value)
    }
}

/// How the alpha channel of a material is used.
#[derive(Clone, Copy, Debug, PartialEq, Eq, Structural)]
pub enum AlphaMode {
    Opaque,
    Mask,
    Blend,
}

impl AlphaMode {
    /// The name the format gives the mode.
    pub fn name(&self) -> (s: &'static str)
        ensures
            s@ == match *self {
                AlphaMode::Opaque => "OPAQUE"@,
                AlphaMode::Mask => "MASK"@,
                AlphaMode::Blend => "BLEND"@,
            },
    {
        match self {
            AlphaMode::Opaque => "OPAQUE",
            AlphaMode::Mask => "MASK",
            AlphaMode::Blend => "BLEND",
        }
    }
}

/// The type of the components of an accessor.
#[derive(Clone, Copy, Debug, PartialEq, Eq, Structural)]
pub enum AccessorComponentType {
    SignedByte,
    UnsignedByte,
    SignedShort,
    UnsignedShort,
    UnsignedInt,
    Float,
}

pub open spec fn component_type_code(t: AccessorComponentType) -> usize {
    match t {
        AccessorComponentType::SignedByte => 5120,
        AccessorComponentType::UnsignedByte => 5121,
        AccessorComponentType::SignedShort => 5122,
        AccessorComponentType::UnsignedShort => 5123,
        AccessorComponentType::UnsignedInt => 5125,
        AccessorComponentType::Float => 5126,
    }
}

impl From<AccessorComponentType> for usize {
    fn from(value: AccessorComponentType) -> (r: usize) {
        match value {
            AccessorComponentType::SignedByte => 5120,
            AccessorComponentType::UnsignedByte => 5121,
            AccessorComponentType::SignedShort => 5122,
            AccessorComponentType::UnsignedShort => 5123,
            AccessorComponentType::UnsignedInt => 5125,
            AccessorComponentType::Float => 5126,
        }
    }
}

impl vstd::std_specs::convert::FromSpecImpl<AccessorComponentType> for usize {
    open spec fn obeys_from_spec() -> bool {
        true
    }

    open spec fn from_spec(value: AccessorComponentType) -> usize {
        component_type_code(value)
    }
}

/// The shape of the elements of an accessor.
#[derive(Clone, Copy, Debug, PartialEq, Eq, Structural)]
pub enum AccessorType {
    Scalar,
    Vec2,
    Vec3,
    Vec4,
    Mat2,
    Mat3,
    Mat4,
}

impl AccessorType {
    /// The name the format gives the shape.
    pub fn name(&self) -> (s: &'static str)
        ensures
            s@ == match *self {
                AccessorType::Scalar => "SCALAR"@,
                AccessorType::Vec2 => "VEC2"@,
                AccessorType::Vec3 => "VEC3"@,
                AccessorType::Vec4 => "VEC4"@,
                AccessorType::Mat2 => "MAT2"@,
                AccessorType::Mat3 => "MAT3"@,
                AccessorType::Mat4 => "MAT4"@,
            },
    {
        match self {
            AccessorType::Scalar => "SCALAR",
            AccessorType::Vec2 => "VEC2",
            AccessorType::Vec3 => "VEC3",
            AccessorType::Vec4 => "VEC4",
            AccessorType::Mat2 => "MAT2",
            AccessorType::Mat3 => "MAT3",
            AccessorType::Mat4 => "MAT4",
        }
    }
}

/// How an animation moves between its key frames.
#[derive(Clone, Copy, Debug, PartialEq, Eq, Structural)]
pub enum AnimationInterpolationMode {
    Linear,
    Step,
    CubicSpline,
}

impl AnimationInterpolationMode {
    /// The name the format gives the mode.
    pub fn name(&self) -> (s: &'static str)
        ensures
            s@ == match *self {
                AnimationInterpolationMode::Linear => "LINEAR"@,
                AnimationInterpolationMode::Step => "STEP"@,
                AnimationInterpolationMode::CubicSpline => "CUBICSPLINE"@,
            },
    {
        match self {
            AnimationInterpolationMode::Linear => "LINEAR",
            AnimationInterpolationMode::Step => "STEP",
            AnimationInterpolationMode::CubicSpline => "CUBICSPLINE",
        }
    }
}

/// The place of a node in a model.
#[derive(Clone, Copy, Debug, PartialEq, Eq, Structural)]
pub struct NodeIndex(pub usize);

/// The place of a mesh in a model.
#[derive(Clone, Copy, Debug, PartialEq, Eq, Structural)]
pub struct MeshIndex(pub usize);

/// A primitive: its mesh and its place in that mesh.
#[derive(Clone, Copy, Debug, PartialEq, Eq, Structural)]
pub struct PrimitiveIndex(pub MeshIndex, pub usize);

/// The place of a material in a model.
#[derive(Clone, Copy, Debug, PartialEq, Eq, Structural)]
pub struct MaterialIndex(pub usize);

/// The place of an accessor in a model.
#[derive(Clone, Copy, Debug, PartialEq, Eq, Structural)]
pub struct AccessorIndex(pub usize);

/// The place of an animation in a model.
#[derive(Clone, Copy, Debug, PartialEq, Eq, Structural)]
pub struct AnimationIndex(pub usize);

/// The character of the standard base64 alphabet for the six-bit value `v`.
pub open spec fn b64_char(v: int) -> char {
    if v < 26 {
        (65 + v) as char
    } else if v < 52 {
        (97 + (v - 26)) as char
    } else if v < 62 {
        (48 + (v - 52)) as char
    } else if v == 62 {
        '+'
    } else {
        '/'
    }
}

/// The standard base64 text (RFC 4648 alphabet, with `=` padding) of `data`:
/// each group of three bytes gives four characters of six bits each, and a
/// last group of one or two bytes gives two or three, padded with `=` to four.
pub open spec fn base64_standard(data: Seq<u8>) -> Seq<char>
    decreases data.len(),
{
    if data.len() == 0 {
        Seq::empty()
    } else if data.len() == 1 {
        let a = data[0] as int;
        seq![b64_char(a / 4), b64_char((a % 4) * 16), '=', '=']
    } else if data.len() == 2 {
        let a = data[0] as int;
        let b = data[1] as int;
        seq![b64_char(a / 4), b64_char((a % 4) * 16 + b / 16), b64_char((b % 16) * 4), '=']
    } else {
        let a = data[0] as int;
        let b = data[1] as int;
        let c = data[2] as int;
        seq![b64_char(a / 4), b64_char((a % 4) * 16 + b / 16), b64_char((b % 16) * 4 + c / 64), b64_char(c % 64)]
            + base64_standard(data.subrange(3, data.len() as int))
    }
}

/// Appends the standard base64 text of `data` to `out`.
///
/// Wraps `Engine::encode_string` of the crate `base64` on its `STANDARD`
/// engine (standard alphabet, padding on), which the crate documents as
/// appending the encoding of the input to the supplied `String`; the contract
/// claims that `out` gains exactly that text, as `base64_standard` states it.
#[verifier::external_body]
fn base64_append(data: &[u8], out: &mut String)
    ensures
        final(out)@ == old(out)@ + base64_standard(data@),
{
    base64::engine::general_purpose::STANDARD.encode_string(data, out);
}

/// A data URI holding `data` with the media type `mime`.
pub fn to_uri_mime(data: &[u8], mime: &str) -> (s: String)
    ensures
        s@ == "data:"@ + mime@ + ";base64,"@ + base64_standard(data@),
{
    let mut s = String::from_str("data:");
    s.append(mime);
    s.append(";base64,");
    base64_append(data, &mut s);
    s
}

/// A data URI holding binary `data`.
pub fn to_uri(data: &[u8]) -> (s: String)
    ensures
        s@ == "data:"@ + "application/octet-stream"@ + ";base64,"@ + base64_standard(data@),
{
    to_uri_mime(data, "application/octet-stream")
}

// ---------------------------------------------------------------------------
// The node tree and the buffers of a model

/// A node of a model: its name, its mesh, its parent and its children in order.
pub struct Node {
    pub name: String,
    pub mesh: Option<MeshIndex>,
    pub parent: Option<NodeIndex>,
    pub children: Vec<NodeIndex>,
}

pub struct NodeV {
    pub name: Seq<char>,
    pub mesh: Option<MeshIndex>,
    pub parent: Option<NodeIndex>,
    pub children: Seq<NodeIndex>,
}

impl View for Node {
    type V = NodeV;

    open spec fn view(&self) -> NodeV {
        NodeV { name: self.name@, mesh: self.mesh, parent: self.parent, children: self.children@ }
    }
}

pub open spec fn nodes_view(v: Seq<Node>) -> Seq<NodeV> {
    v.map_values(|n: Node| n@)
}

/// A buffer of a model: its bytes, and the length it is declared with.
pub struct Buffer {
    pub data: Vec<u8>,
    pub byte_length: usize,
}

pub struct BufferV {
    pub data: Seq<u8>,
    pub byte_length: usize,
}

impl View for Buffer {
    type V = BufferV;

    open spec fn view(&self) -> BufferV {
        BufferV { data: self.data@, byte_length: self.byte_length }
    }
}

/// A view of a buffer: which buffer, where in it, how long, and the kind of
/// data it holds (its glTF target code, where it has one).
#[derive(Clone, Copy, Debug, PartialEq, Eq, Structural)]
pub struct BufferView {
    pub buffer: usize,
    pub byte_offset: usize,
    pub byte_length: usize,
    pub target: Option<usize>,
}

/// The number of zero bytes that bring a length of `n` to a multiple of four.
pub open spec fn pad_count(n: int) -> int {
    (4 - n % 4) % 4
}

/// The first buffer's bytes and declared length, and the views, after the
/// first `n` views have been moved into the first buffer.
pub open spec fn combine_upto(bufs: Seq<BufferV>, views: Seq<BufferView>, n: int) -> (Seq<u8>, int, Seq<BufferView>)
    decreases n,
{
    if n <= 0 {
        (bufs[0].data, bufs[0].byte_length as int, Seq::empty())
    } else {
        let (d, bl, vs) = combine_upto(bufs, views, n - 1);
        let v = views[n - 1];
        if v.buffer == 0 {
            (d, bl, vs.push(v))
        } else {
            let pc = pad_count(bl);
            let src = bufs[v.buffer as int];
            (
                d + Seq::new(pc as nat, |i: int| 0u8) + src.data,
                bl + pc + src.byte_length,
                vs.push(BufferView { buffer: 0, byte_offset: (bl + pc) as usize, ..v }),
            )
        }
    }
}

/// What combining may be asked of: each view into another buffer than the
/// first starts at its buffer's beginning, that buffer is non-empty with its
/// declared length, no two such views share a buffer, and every length met on
/// the way fits in a `usize`.
pub open spec fn combine_ok(bufs: Seq<BufferV>, views: Seq<BufferView>) -> bool {
    &&& forall|i: int|
        0 <= i < views.len() && #[trigger] views[i].buffer != 0 ==> {
            &&& views[i].buffer < bufs.len()
            &&& views[i].byte_offset == 0
            &&& bufs[views[i].buffer as int].byte_length != 0
            &&& bufs[views[i].buffer as int].byte_length == bufs[views[i].buffer as int].data.len()
        }
    &&& forall|i: int, j: int|
        0 <= i < j < views.len() && views[i].buffer != 0 ==> #[trigger] views[i].buffer != #[trigger] views[j].buffer
    &&& forall|n: int| 0 <= n <= views.len() ==> #[trigger] combine_upto(bufs, views, n).1 <= usize::MAX
}

/// The buffers and views once every view points into the first buffer.
pub open spec fn combined(bufs: Seq<BufferV>, views: Seq<BufferView>) -> (Seq<BufferV>, Seq<BufferView>) {
    let (d, bl, vs) = combine_upto(bufs, views, views.len() as int);
    if bufs.len() == 0 {
        (Seq::empty(), vs)
    } else {
        (seq![BufferV { data: d, byte_length: bl as usize }], vs)
    }
}

/// The node tree and the buffers of a glTF model; the node at 0 is the root.
pub struct Gltf {
    nodes: Vec<Node>,
    buffers: Vec<Buffer>,
    buffer_views: Vec<BufferView>,
}

/// The tree is consistent: there is a root, each node's parent lists it among
/// its children, each child names its parent, and no list holds a node twice.
pub open spec fn tree_ok(v: Seq<NodeV>) -> bool {
    &&& 1 <= v.len() <= usize::MAX
    &&& forall|i: int|
        0 <= i < v.len() ==> match #[trigger] v[i].parent {
            Some(p) => 0 <= p.0 < v.len() && v[p.0 as int].children.contains(NodeIndex(i as usize)),
            None => true,
        }
    &&& forall|p: int, j: int|
        0 <= p < v.len() && 0 <= j < v[p].children.len() ==> {
            let c = #[trigger] v[p].children[j];
            0 <= c.0 < v.len() && v[c.0 as int].parent == Some(NodeIndex(p as usize))
        }
    &&& forall|p: int| 0 <= p < v.len() ==> (#[trigger] v[p].children).no_duplicates()
}

/// Where `x` stands in `s` (`s.len()` where it does not).
pub open spec fn pos_in(s: Seq<NodeIndex>, x: NodeIndex) -> int
    decreases s.len(),
{
    if s.len() == 0 {
        0
    } else if s[0] == x {
        0
    } else {
        1 + pos_in(s.drop_first(), x)
    }
}

/// `s` without its first `x`.
pub open spec fn without(s: Seq<NodeIndex>, x: NodeIndex) -> Seq<NodeIndex> {
    if pos_in(s, x) < s.len() {
        s.remove(pos_in(s, x))
    } else {
        s
    }
}

/// Node `child` is moved under `parent`: it leaves the children of its old
/// parent and comes last among those of `parent`.
pub open spec fn reparent(v: Seq<NodeV>, parent: NodeIndex, child: NodeIndex) -> Seq<NodeV> {
    let c = child.0 as int;
    let v1 = v.update(c, NodeV { parent: Some(parent), ..v[c] });
    let v2 = match v[c].parent {
        Some(q) => v1.update(q.0 as int, NodeV { children: without(v1[q.0 as int].children, child), ..v1[q.0 as int] }),
        None => v1,
    };
    v2.update(parent.0 as int, NodeV { children: v2[parent.0 as int].children.push(child), ..v2[parent.0 as int] })
}

proof fn lemma_pos_in(s: Seq<NodeIndex>, x: NodeIndex)
    ensures
        0 <= pos_in(s, x) <= s.len(),
        pos_in(s, x) < s.len() <==> s.contains(x),
        pos_in(s, x) < s.len() ==> s[pos_in(s, x)] == x,
        forall|k: int| 0 <= k < pos_in(s, x) ==> s[k] != x,
    decreases s.len(),
{
    if s.len() > 0 && s[0] != x {
        lemma_pos_in(s.drop_first(), x);
        if s.contains(x) {
            let k = choose|k: int| 0 <= k < s.len() && s[k] == x;
            assert(s.drop_first()[k - 1] == x);
        }
        assert forall|k: int| 0 <= k < pos_in(s, x) implies s[k] != x by {
            if k > 0 {
                assert(s[k] == s.drop_first()[k - 1]);
            }
        }
    }
    if s.len() > 0 && s[0] == x {
        assert(s.contains(x));
    }
}

/// Removing the first `x` from a list without repeats leaves the others, in order.
proof fn lemma_without(s: Seq<NodeIndex>, x: NodeIndex)
    requires
        s.no_duplicates(),
    ensures
        without(s, x).no_duplicates(),
        !without(s, x).contains(x),
        forall|y: NodeIndex| y != x ==> (without(s, x).contains(y) <==> s.contains(y)),
{
    lemma_pos_in(s, x);
    let w = without(s, x);
    let p = pos_in(s, x);
    if p < s.len() {
        assert forall|i: int, j: int| 0 <= i < j < w.len() implies w[i] != w[j] by {
            let a = if i < p { i } else { i + 1 };
            let b = if j < p { j } else { j + 1 };
            assert(w[i] == s[a]);
            assert(w[j] == s[b]);
        }
        assert forall|y: NodeIndex| y != x implies (w.contains(y) <==> s.contains(y)) by {
            if s.contains(y) {
                let k = choose|k: int| 0 <= k < s.len() && s[k] == y;
                assert(k != p);
                if k < p {
                    assert(w[k] == y);
                } else {
                    assert(w[k - 1] == y);
                }
            }
            if w.contains(y) {
                let k = choose|k: int| 0 <= k < w.len() && w[k] == y;
                if k < p {
                    assert(s[k] == y);
                } else {
                    assert(s[k + 1] == y);
                }
            }
        }
        if w.contains(x) {
            let k = choose|k: int| 0 <= k < w.len() && w[k] == x;
            if k < p {
                assert(s[k] == x);
            } else {
                assert(s[k + 1] == x);
                assert(s[p] == x);
            }
        }
    }
}

/// After the first `n` views are combined, each of them points into the first
/// buffer, and one that was moved starts at a multiple of four and finds there
/// the bytes of the buffer it pointed into before.
proof fn lemma_combine_upto(bufs: Seq<BufferV>, views: Seq<BufferView>, n: int)
    requires
        bufs.len() >= 1,
        bufs[0].byte_length == bufs[0].data.len(),
        combine_ok(bufs, views),
        0 <= n <= views.len(),
    ensures
        combine_upto(bufs, views, n).2.len() == n,
        combine_upto(bufs, views, n).0.len() == combine_upto(bufs, views, n).1,
        forall|i: int| 0 <= i < n ==> (#[trigger] combine_upto(bufs, views, n).2[i]).buffer == 0,
        forall|i: int|
            0 <= i < n && views[i].buffer != 0 ==> {
                let w = #[trigger] combine_upto(bufs, views, n).2[i];
                let src = bufs[views[i].buffer as int].data;
                &&& w.byte_offset % 4 == 0
                &&& w.byte_offset + src.len() <= combine_upto(bufs, views, n).0.len()
                &&& combine_upto(bufs, views, n).0.subrange(w.byte_offset as int, w.byte_offset + src.len()) == src
            },
        forall|i: int|
            0 <= i < n && views[i].buffer == 0 ==> #[trigger] combine_upto(bufs, views, n).2[i] == views[i],
    decreases n,
{
    if n > 0 {
        lemma_combine_upto(bufs, views, n - 1);
        let (d, bl, vs) = combine_upto(bufs, views, n - 1);
        let (d2, bl2, vs2) = combine_upto(bufs, views, n);
        let v = views[n - 1];
        assert(combine_upto(bufs, views, n - 1).1 <= usize::MAX);
        assert(combine_upto(bufs, views, n).1 <= usize::MAX);
        if v.buffer != 0 {
            let pc = pad_count(bl);
            let src = bufs[v.buffer as int].data;
            let pad = Seq::new(pc as nat, |i: int| 0u8);
            assert(d2 == d + pad + src);
            assert forall|i: int| 0 <= i < n - 1 && views[i].buffer != 0 implies {
                let w = #[trigger] vs2[i];
                let s = bufs[views[i].buffer as int].data;
                &&& w.byte_offset % 4 == 0
                &&& w.byte_offset + s.len() <= d2.len()
                &&& d2.subrange(w.byte_offset as int, w.byte_offset + s.len()) == s
            } by {
                let w = vs[i];
                let s = bufs[views[i].buffer as int].data;
                assert(vs2[i] == w);
                assert(d.subrange(w.byte_offset as int, w.byte_offset + s.len()) == s);
                assert(d2.subrange(w.byte_offset as int, w.byte_offset + s.len()) =~= d.subrange(
                    w.byte_offset as int,
                    w.byte_offset + s.len(),
                ));
            }
            assert(d2.subrange(bl + pc, bl + pc + src.len()) =~= src);
            assert((bl + pc) % 4 == 0);
            assert(vs2[n - 1].byte_offset == bl + pc);
        } else {
            assert forall|i: int| 0 <= i < n - 1 implies #[trigger] vs2[i] == vs[i] by {}
        }
    }
}

/// Combining keeps what every view reads: after it, each view points into the
/// single remaining buffer; one that pointed there already is unchanged, and
/// one that was moved starts at a multiple of four and reads the same bytes as
/// before.
pub proof fn lemma_combine_keeps_data(bufs: Seq<BufferV>, views: Seq<BufferView>)
    requires
        bufs.len() >= 1,
        bufs[0].byte_length == bufs[0].data.len(),
        combine_ok(bufs, views),
    ensures
        combined(bufs, views).0.len() == 1,
        combined(bufs, views).1.len() == views.len(),
        forall|i: int| 0 <= i < views.len() ==> (#[trigger] combined(bufs, views).1[i]).buffer == 0,
        forall|i: int|
            0 <= i < views.len() && views[i].buffer == 0 ==> #[trigger] combined(bufs, views).1[i] == views[i],
        forall|i: int|
            0 <= i < views.len() && views[i].buffer != 0 ==> {
                let w = #[trigger] combined(bufs, views).1[i];
                let src = bufs[views[i].buffer as int].data;
                let d = combined(bufs, views).0[0].data;
                &&& w.byte_offset % 4 == 0
                &&& w.byte_offset + src.len() <= d.len()
                &&& d.subrange(w.byte_offset as int, w.byte_offset + src.len()) == src
            },
{
    lemma_combine_upto(bufs, views, views.len() as int);
    let r = combine_upto(bufs, views, views.len() as int);
    assert(combined(bufs, views).1 == r.2);
    assert(combined(bufs, views).0[0].data == r.0);
}

/// Moving a node under another keeps the tree consistent.
pub proof fn lemma_reparent_ok(v: Seq<NodeV>, parent: NodeIndex, child: NodeIndex)
    requires
        tree_ok(v),
        parent.0 < v.len(),
        child.0 < v.len(),
    ensures
        tree_ok(reparent(v, parent, child)),
        reparent(v, parent, child).len() == v.len(),
{
    let c = child.0 as int;
    let pa = parent.0 as int;
    let w = reparent(v, parent, child);
    let v1 = v.update(c, NodeV { parent: Some(parent), ..v[c] });
    let v2 = match v[c].parent {
        Some(q) => v1.update(q.0 as int, NodeV { children: without(v1[q.0 as int].children, child), ..v1[q.0 as int] }),
        None => v1,
    };
    assert(w == v2.update(pa, NodeV { children: v2[pa].children.push(child), ..v2[pa] }));
    // what each node's children become
    assert forall|p: int| 0 <= p < v.len() implies {
        &&& (#[trigger] v2[p]).children.no_duplicates()
        &&& forall|y: NodeIndex| v2[p].children.contains(y) ==> v[p].children.contains(y) && y != child
        &&& forall|y: NodeIndex| y != child && v[p].children.contains(y) ==> v2[p].children.contains(y)
        &&& v2[p].parent == (if p == c { Some(parent) } else { v[p].parent })
    } by {
        assert(v[p].children.no_duplicates());
        match v[c].parent {
            Some(q) => {
                if p == q.0 as int {
                    assert(v1[p].children == v[p].children);
                    lemma_without(v[p].children, child);
                } else {
                    assert(v2[p].children == v[p].children);
                    assert forall|y: NodeIndex| v2[p].children.contains(y) implies v[p].children.contains(y) && y
                        != child by {
                        if y == child {
                            let k = choose|k: int| 0 <= k < v[p].children.len() && v[p].children[k] == y;
                            assert(v[p].children[k] == child);
                            assert(v[c].parent == Some(NodeIndex(p as usize)));
                            assert(q.0 as int == p);
                        }
                    }
                }
            },
            None => {
                assert(v2[p].children == v[p].children);
                assert forall|y: NodeIndex| v2[p].children.contains(y) implies v[p].children.contains(y) && y
                    != child by {
                    if y == child {
                        let k = choose|k: int| 0 <= k < v[p].children.len() && v[p].children[k] == y;
                        assert(v[p].children[k] == child);
                        assert(v[c].parent == Some(NodeIndex(p as usize)));
                    }
                }
            },
        }
    }
    assert forall|i: int| 0 <= i < w.len() implies match #[trigger] w[i].parent {
        Some(p) => 0 <= p.0 < w.len() && w[p.0 as int].children.contains(NodeIndex(i as usize)),
        None => true,
    } by {
        assert(v2[i].parent == (if i == c { Some(parent) } else { v[i].parent }));
        if i == c {
            assert(w[pa].children == v2[pa].children.push(child));
            assert(w[pa].children[v2[pa].children.len() as int] == child);
        } else {
            match v[i].parent {
                Some(p) => {
                    assert(v[p.0 as int].children.contains(NodeIndex(i as usize)));
                    assert(NodeIndex(i as usize) != child);
                    assert(v2[p.0 as int].children.contains(NodeIndex(i as usize)));
                    if p.0 as int == pa {
                        let k = choose|k: int|
                            0 <= k < v2[pa].children.len() && v2[pa].children[k] == NodeIndex(i as usize);
                        assert(w[pa].children[k] == NodeIndex(i as usize));
                    }
                },
                None => {},
            }
        }
    }
    assert forall|p: int, j: int| 0 <= p < w.len() && 0 <= j < w[p].children.len() implies {
        let x = #[trigger] w[p].children[j];
        0 <= x.0 < w.len() && w[x.0 as int].parent == Some(NodeIndex(p as usize))
    } by {
        let x = w[p].children[j];
        if p == pa && j == v2[pa].children.len() {
            assert(x == child);
        } else {
            assert(x == v2[p].children[j]);
            assert(v2[p].children.contains(x));
            assert(v[p].children.contains(x) && x != child);
            let k = choose|k: int| 0 <= k < v[p].children.len() && v[p].children[k] == x;
            assert(v[x.0 as int].parent == Some(NodeIndex(p as usize)));
        }
    }
    assert forall|p: int| 0 <= p < w.len() implies (#[trigger] w[p].children).no_duplicates() by {
        if p == pa {
            assert(!v2[pa].children.contains(child));
            assert forall|i: int, j: int| 0 <= i < j < w[p].children.len() implies w[p].children[i]
                != w[p].children[j] by {
                if j == v2[pa].children.len() {
                    assert(v2[pa].children[i] != child);
                }
            }
        }
    }
}

impl Gltf {
    pub closed spec fn nodes_v(&self) -> Seq<NodeV> {
        nodes_view(self.nodes@)
    }

    pub closed spec fn buffers_v(&self) -> Seq<BufferV> {
        self.buffers@.map_values(|b: Buffer| b@)
    }

    pub closed spec fn views_v(&self) -> Seq<BufferView> {
        self.buffer_views@
    }

    /// The model is consistent.
    pub closed spec fn wf(&self) -> bool {
        tree_ok(self.nodes_v())
    }

    /// A model whose only node is the root, named `name`.
    pub fn new(name: String) -> (g: Gltf)
        ensures
            g.wf(),
            g.nodes_v() == seq![NodeV { name: name@, mesh: None, parent: None, children: Seq::empty() }],
            g.buffers_v().len() == 0,
            g.views_v().len() == 0,
    {
        let mut nodes: Vec<Node> = Vec::new();
        nodes.push(Node { name, mesh: None, parent: None, children: Vec::new() });
        let g = Gltf { nodes, buffers: Vec::new(), buffer_views: Vec::new() };
        assert(g.nodes_v() =~= seq![NodeV { name: name@, mesh: None, parent: None, children: Seq::empty() }]);
        g
    }

    pub fn get_root_node(&self) -> (n: NodeIndex)
        ensures
            n == NodeIndex(0),
    {
        NodeIndex(0)
    }

    /// The number of nodes.
    pub fn node_count(&self) -> (n: usize)
        ensures
            n == self.nodes_v().len(),
    {
        self.nodes.len()
    }

    /// The children of `node`, in order.
    pub fn node_children(&self, node: NodeIndex) -> (c: &Vec<NodeIndex>)
        requires
            node.0 < self.nodes_v().len(),
        ensures
            c@ == self.nodes_v()[node.0 as int].children,
    {
        &self.nodes[node.0].children
    }

    /// The parent of `node`, if it has one.
    pub fn node_parent(&self, node: NodeIndex) -> (p: Option<NodeIndex>)
        requires
            node.0 < self.nodes_v().len(),
        ensures
            p == self.nodes_v()[node.0 as int].parent,
    {
        self.nodes[node.0].parent
    }

    /// Adds a node without parent; its index is the number of nodes before.
    pub fn create_node(&mut self, name: String, mesh: Option<MeshIndex>) -> (n: NodeIndex)
        requires
            old(self).wf(),
        ensures
            final(self).wf(),
            n.0 == old(self).nodes_v().len(),
            final(self).nodes_v() == old(self).nodes_v().push(
                NodeV { name: name@, mesh, parent: None, children: Seq::empty() },
            ),
            final(self).buffers_v() == old(self).buffers_v(),
            final(self).views_v() == old(self).views_v(),
    {
        let ghost v = self.nodes_v();
        let n = NodeIndex(self.nodes.len());
        self.nodes.push(Node { name, mesh, parent: None, children: Vec::new() });
        let count = self.nodes.len();
        let ghost w = self.nodes_v();
        assert(w.len() == count);
        assert(w =~= v.push(NodeV { name: name@, mesh, parent: None, children: Seq::empty() }));
        assert forall|i: int| 0 <= i < w.len() implies match #[trigger] w[i].parent {
            Some(p) => 0 <= p.0 < w.len() && w[p.0 as int].children.contains(NodeIndex(i as usize)),
            None => true,
        } by {
            if i < v.len() {
                assert(w[i] == v[i]);
                match v[i].parent {
                    Some(p) => {
                        assert(w[p.0 as int] == v[p.0 as int]);
                    },
                    None => {},
                }
            }
        }
        assert forall|p: int, j: int| 0 <= p < w.len() && 0 <= j < w[p].children.len() implies {
            let c = #[trigger] w[p].children[j];
            0 <= c.0 < w.len() && w[c.0 as int].parent == Some(NodeIndex(p as usize))
        } by {
            assert(p < v.len());
            assert(w[p] == v[p]);
            let c = v[p].children[j];
            assert(w[c.0 as int] == v[c.0 as int]);
        }
        assert forall|p: int| 0 <= p < w.len() implies (#[trigger] w[p].children).no_duplicates() by {
            if p < v.len() {
                assert(w[p] == v[p]);
            }
        }
        n
    }

    /// Makes `child` the last child of `parent`, taking it from its old parent.
    pub fn set_node_parent(&mut self, parent: NodeIndex, child: NodeIndex)
        requires
            old(self).wf(),
            parent.0 < old(self).nodes_v().len(),
            child.0 < old(self).nodes_v().len(),
        ensures
            final(self).wf(),
            final(self).nodes_v() == reparent(old(self).nodes_v(), parent, child),
            final(self).buffers_v() == old(self).buffers_v(),
            final(self).views_v() == old(self).views_v(),
    {
        let ghost v = self.nodes_v();
        let ghost c = child.0 as int;
        let ghost v1 = v.update(c, NodeV { parent: Some(parent), ..v[c] });
        let old_parent = self.nodes[child.0].parent;
        self.nodes[child.0].parent = Some(parent);
        assert(self.nodes_v() =~= v1);
        assert(v[c].parent == old_parent);
        if let Some(q) = old_parent {
            let qi = q.0;
            assert(qi < v.len());
            let ghost s = self.nodes_v()[qi as int].children;
            proof {
                lemma_pos_in(s, child);
            }
            let mut k: usize = 0;
            while k < self.nodes[qi].children.len() && self.nodes[qi].children[k] != child
                invariant
                    qi < self.nodes@.len(),
                    s == self.nodes_v()[qi as int].children,
                    k <= s.len(),
                    forall|i: int| 0 <= i < k ==> s[i] != child,
                decreases s.len() - k,
            {
                k = k + 1;
            }
            proof {
                if k < s.len() {
                    assert(s[k as int] == child);
                    if pos_in(s, child) < k {
                        assert(s[pos_in(s, child)] == child);
                    }
                } else {
                    if s.contains(child) {
                        let m = choose|m: int| 0 <= m < s.len() && s[m] == child;
                        assert(s[m] != child);
                    }
                }
            }
            if k < self.nodes[qi].children.len() {
                self.nodes[qi].children.remove(k);
            }
            assert(self.nodes_v() =~= v1.update(
                qi as int,
                NodeV { children: without(v1[qi as int].children, child), ..v1[qi as int] },
            ));
        }
        let ghost v2 = self.nodes_v();
        self.nodes[parent.0].children.push(child);
        let ghost w = self.nodes_v();
        assert(w =~= reparent(v, parent, child));
        proof {
            lemma_reparent_ok(v, parent, child);
        }
    }

    /// Adds a node under `parent`.
    pub fn create_child_node(&mut self, parent: NodeIndex, name: String, mesh: Option<MeshIndex>) -> (n: NodeIndex)
        requires
            old(self).wf(),
            parent.0 < old(self).nodes_v().len(),
        ensures
            final(self).wf(),
            n.0 == old(self).nodes_v().len(),
            final(self).nodes_v() == reparent(
                old(self).nodes_v().push(NodeV { name: name@, mesh, parent: None, children: Seq::empty() }),
                parent,
                n,
            ),
            final(self).buffers_v() == old(self).buffers_v(),
            final(self).views_v() == old(self).views_v(),
    {
        let n = self.create_node(name, mesh);
        self.set_node_parent(parent, n);
        n
    }

    /// Adds a node under the root.
    pub fn create_base_node(&mut self, name: String, mesh: Option<MeshIndex>) -> (n: NodeIndex)
        requires
            old(self).wf(),
        ensures
            final(self).wf(),
            n.0 == old(self).nodes_v().len(),
            final(self).nodes_v() == reparent(
                old(self).nodes_v().push(NodeV { name: name@, mesh, parent: None, children: Seq::empty() }),
                NodeIndex(0),
                n,
            ),
            final(self).buffers_v() == old(self).buffers_v(),
            final(self).views_v() == old(self).views_v(),
    {
        let root = self.get_root_node();
        self.create_child_node(root, name, mesh)
    }

    pub fn set_node_mesh(&mut self, node: NodeIndex, mesh: MeshIndex)
        requires
            old(self).wf(),
            node.0 < old(self).nodes_v().len(),
        ensures
            final(self).wf(),
            final(self).nodes_v() == old(self).nodes_v().update(
                node.0 as int,
                NodeV { mesh: Some(mesh), ..old(self).nodes_v()[node.0 as int] },
            ),
            final(self).buffers_v() == old(self).buffers_v(),
            final(self).views_v() == old(self).views_v(),
    {
        let ghost v = self.nodes_v();
        self.nodes[node.0].mesh = Some(mesh);
        let ghost w = self.nodes_v();
        assert(w =~= v.update(node.0 as int, NodeV { mesh: Some(mesh), ..v[node.0 as int] }));
        assert forall|i: int| 0 <= i < w.len() implies match #[trigger] w[i].parent {
            Some(p) => 0 <= p.0 < w.len() && w[p.0 as int].children.contains(NodeIndex(i as usize)),
            None => true,
        } by {
            assert(w[i].parent == v[i].parent);
            match v[i].parent {
                Some(p) => {
                    assert(w[p.0 as int].children == v[p.0 as int].children);
                },
                None => {},
            }
        }
        assert forall|p: int, j: int| 0 <= p < w.len() && 0 <= j < w[p].children.len() implies {
            let c = #[trigger] w[p].children[j];
            0 <= c.0 < w.len() && w[c.0 as int].parent == Some(NodeIndex(p as usize))
        } by {
            assert(w[p].children == v[p].children);
            let c = v[p].children[j];
            assert(w[c.0 as int].parent == v[c.0 as int].parent);
        }
        assert forall|p: int| 0 <= p < w.len() implies (#[trigger] w[p].children).no_duplicates() by {
            assert(w[p].children == v[p].children);
        }
    }

    pub fn get_node_mesh(&self, node: NodeIndex) -> (m: Option<MeshIndex>)
        requires
            node.0 < self.nodes_v().len(),
        ensures
            m == self.nodes_v()[node.0 as int].mesh,
    {
        self.nodes[node.0].mesh
    }

    /// The buffers, in order.
    pub fn buffers(&self) -> (r: &Vec<Buffer>)
        ensures
            r@.map_values(|b: Buffer| b@) == self.buffers_v(),
    {
        &self.buffers
    }

    /// The views of the buffers, in order.
    pub fn buffer_views(&self) -> (r: &Vec<BufferView>)
        ensures
            r@ == self.views_v(),
    {
        &self.buffer_views
    }

    /// Adds `data` as a buffer of its own, with a view of all of it; the
    /// result is the index of the view.
    pub fn add_buffer_data(&mut self, data: &[u8], target: Option<usize>) -> (view: usize)
        requires
            old(self).wf(),
        ensures
            final(self).wf(),
            final(self).nodes_v() == old(self).nodes_v(),
            view == old(self).views_v().len(),
            final(self).buffers_v() == old(self).buffers_v().push(
                BufferV { data: data@, byte_length: data@.len() as usize },
            ),
            final(self).views_v() == old(self).views_v().push(
                BufferView {
                    buffer: old(self).buffers_v().len() as usize,
                    byte_offset: 0,
                    byte_length: data@.len() as usize,
                    target,
                },
            ),
    {
        let ghost b0 = self.buffers_v();
        let buffer = self.buffers.len();
        let mut bytes: Vec<u8> = Vec::new();
        let mut k: usize = 0;
        while k < data.len()
            invariant
                k <= data@.len(),
                bytes@ == data@.take(k as int),
            decreases data@.len() - k,
        {
            bytes.push(data[k]);
            assert(data@.take(k + 1) =~= data@.take(k as int).push(data@[k as int]));
            k = k + 1;
        }
        assert(bytes@ =~= data@);
        let n = data.len();
        self.buffers.push(Buffer { data: bytes, byte_length: n });
        assert(self.buffers_v() =~= b0.push(BufferV { data: data@, byte_length: data@.len() as usize }));
        let view = self.buffer_views.len();
        self.buffer_views.push(BufferView { buffer, byte_offset: 0, byte_length: n, target });
        view
    }

    /// Moves the data of every view into the first buffer, each part starting
    /// at a multiple of four, and drops the other buffers.
    pub fn combine_buffers(&mut self)
        requires
            old(self).wf(),
            combine_ok(old(self).buffers_v(), old(self).views_v()),
        ensures
            final(self).wf(),
            final(self).nodes_v() == old(self).nodes_v(),
            final(self).buffers_v() == combined(old(self).buffers_v(), old(self).views_v()).0,
            final(self).views_v() == combined(old(self).buffers_v(), old(self).views_v()).1,
    {
        let ghost bufs = self.buffers_v();
        let ghost views = self.views_v();
        let mut i: usize = 0;
        while i < self.buffer_views.len()
            invariant
                self.wf(),
                self.nodes_v() == old(self).nodes_v(),
                bufs == old(self).buffers_v(),
                views == old(self).views_v(),
                combine_ok(bufs, views),
                i <= views.len(),
                self.buffer_views@.len() == views.len(),
                self.buffers@.len() == bufs.len(),
                bufs.len() >= 1 ==> self.buffers@[0].data@ == combine_upto(bufs, views, i as int).0,
                bufs.len() >= 1 ==> self.buffers@[0].byte_length == combine_upto(bufs, views, i as int).1,
                forall|b: int| 1 <= b < bufs.len() ==> #[trigger] self.buffers@[b]@ == bufs[b],
                self.buffer_views@.take(i as int) == combine_upto(bufs, views, i as int).2,
                forall|j: int| i <= j < views.len() ==> #[trigger] self.buffer_views@[j] == views[j],
            decreases views.len() - i,
        {
            let ghost before = combine_upto(bufs, views, i as int);
            let view = self.buffer_views[i];
            assert(view == views[i as int]);
            assert(combine_upto(bufs, views, i + 1).1 <= usize::MAX);
            if view.buffer == 0 {
                assert(self.buffer_views@.take(i + 1) =~= self.buffer_views@.take(i as int).push(view));
            } else {
                let b = view.buffer;
                assert(b < bufs.len());
                assert(self.buffers@[b as int]@ == bufs[b as int]);
                let bl = self.buffers[0].byte_length;
                let pc = (4 - bl % 4) % 4;
                assert(pc == pad_count(bl as int));
                let ghost d0 = self.buffers@[0].data@;
                let ghost bv0 = self.buffer_views@;
                let ghost nd0 = self.nodes@;
                let mut k: usize = 0;
                while k < pc
                    invariant
                        k <= pc,
                        pc <= 3,
                        self.buffers@.len() == bufs.len(),
                        b < bufs.len(),
                        b != 0,
                        self.buffers@[0].byte_length == bl,
                        self.buffers@[0].data@ == d0 + Seq::new(k as nat, |j: int| 0u8),
                        self.buffer_views@ == bv0,
                        self.nodes@ == nd0,
                        forall|c: int| 1 <= c < bufs.len() ==> #[trigger] self.buffers@[c]@ == bufs[c],
                    decreases pc - k,
                {
                    self.buffers[0].data.push(0);
                    assert(d0 + Seq::new((k + 1) as nat, |j: int| 0u8) =~= (d0 + Seq::new(k as nat, |j: int| 0u8)).push(0u8));
                    k = k + 1;
                }
                let offset = bl + pc;
                assert(self.buffers@[b as int]@ == bufs[b as int]);
                let n = self.buffers[b].byte_length;
                assert(combine_upto(bufs, views, i + 1).1 == bl + pc + n);
                let mut m: usize = 0;
                let ghost d1 = self.buffers@[0].data@;
                while m < self.buffers[b].data.len()
                    invariant
                        m <= bufs[b as int].data.len(),
                        self.buffers@.len() == bufs.len(),
                        b < bufs.len(),
                        b != 0,
                        self.buffers@[0].byte_length == bl,
                        self.buffers@[0].data@ == d1 + bufs[b as int].data.take(m as int),
                        self.buffer_views@ == bv0,
                        self.nodes@ == nd0,
                        self.buffers@[b as int]@ == bufs[b as int],
                        forall|c: int| 1 <= c < bufs.len() ==> #[trigger] self.buffers@[c]@ == bufs[c],
                    decreases bufs[b as int].data.len() - m,
                {
                    let x = self.buffers[b].data[m];
                    self.buffers[0].data.push(x);
                    assert(bufs[b as int].data.take(m + 1) =~= bufs[b as int].data.take(m as int).push(x));
                    m = m + 1;
                }
                assert(bufs[b as int].data.take(m as int) =~= bufs[b as int].data);
                self.buffers[0].byte_length = offset + n;
                let moved = BufferView { buffer: 0, byte_offset: offset, byte_length: view.byte_length, target: view.target };
                self.buffer_views.set(i, moved);
                assert(self.buffer_views@.take(i + 1) =~= before.2.push(moved));
                assert(self.buffers@[0].data@ =~= combine_upto(bufs, views, i + 1).0);
            }
            i = i + 1;
        }
        self.buffers.truncate(1);
        assert(self.buffer_views@.take(views.len() as int) =~= self.buffer_views@);
        proof {
            if bufs.len() >= 1 {
                assert(self.buffers_v() =~= combined(bufs, views).0);
            } else {
                assert(self.buffers_v() =~= Seq::<BufferV>::empty());
            }
        }
    }
}

} // verus!
