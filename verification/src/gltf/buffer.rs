//! The binary side of a glTF asset: one byte buffer, and the buffer views
//! and accessors that say how to read it. Every stream is packed tightly and
//! written least significant byte first.

use vstd::prelude::*;
use vstd::bytes::spec_u32_to_le_bytes;
use crate::model::{Mat4, Vec2, Vec3};
use crate::scalar::{infinity_bits, neg_infinity_bits, Scalar};
use crate::text::text_eq;

verus! {

/// The type of one component of an accessor.
#[derive(Clone, Copy, Debug, PartialEq, Eq, Structural)]
pub enum ComponentType {
    /// Unsigned 16-bit integer.
    U16,
    /// Unsigned 32-bit integer.
    U32,
    /// Single-precision number.
    F32,
}

/// The shape of one element of an accessor.
#[derive(Clone, Copy, Debug, PartialEq, Eq, Structural)]
pub enum ElementType {
    Scalar,
    Vec2,
    Vec3,
    Vec4,
    Mat4,
}

/// What a buffer view is bound as.
#[derive(Clone, Copy, Debug, PartialEq, Eq, Structural)]
pub enum BufferTarget {
    /// Vertex attributes.
    ArrayBuffer,
    /// Vertex indices.
    ElementArrayBuffer,
}

/// A range of bytes of the buffer.
#[derive(Clone, Copy, Debug, PartialEq, Eq, Structural)]
pub struct BufferView {
    pub byte_offset: usize,
    pub byte_length: usize,
    pub byte_stride: Option<usize>,
    pub target: BufferTarget,
}

/// The smallest and largest value of each component of a list of positions.
#[derive(Clone, Copy, Debug, PartialEq, Eq)]
pub struct Bounds {
    pub min: Vec3,
    pub max: Vec3,
}

/// How to read a buffer view as typed elements. An accessor starts at the
/// first byte of its view and is not normalised.
#[derive(Clone, Copy, Debug, PartialEq, Eq)]
pub struct Accessor {
    pub buffer_view: usize,
    pub component_type: ComponentType,
    pub count: usize,
    pub element_type: ElementType,
    pub bounds: Option<Bounds>,
}

/// The smaller of two numbers as IEEE-754 `minNum` picks it: a NaN yields
/// to the other number; of two equal numbers the first is kept.
pub open spec fn lesser(a: Scalar, b: Scalar) -> Scalar {
    if a.is_nan() {
        b
    } else if b.is_nan() {
        a
    } else if b.less_than(a) {
        b
    } else {
        a
    }
}

/// The larger of two numbers as IEEE-754 `maxNum` picks it: a NaN yields to
/// the other number; of two equal numbers the first is kept.
pub open spec fn greater(a: Scalar, b: Scalar) -> Scalar {
    if a.is_nan() {
        b
    } else if b.is_nan() {
        a
    } else if a.less_than(b) {
        b
    } else {
        a
    }
}

/// The smaller of two numbers.
pub fn min_scalar(a: Scalar, b: Scalar) -> (r: Scalar)
    ensures
        r == lesser(a, b),
{
    if a.nan() {
        b
    } else if b.nan() {
        a
    } else if b.lt(a) {
        b
    } else {
        a
    }
}

/// The larger of two numbers.
pub fn max_scalar(a: Scalar, b: Scalar) -> (r: Scalar)
    ensures
        r == greater(a, b),
{
    if a.nan() {
        b
    } else if b.nan() {
        a
    } else if a.lt(b) {
        b
    } else {
        a
    }
}

/// The least value of component `c` over `data`, starting from positive
/// infinity.
pub open spec fn least_component(data: Seq<Vec3>, c: int) -> Scalar
    decreases data.len(),
{
    if data.len() == 0 {
        Scalar { bits: infinity_bits() }
    } else {
        lesser(least_component(data.drop_last(), c), data.last()[c])
    }
}

/// The greatest value of component `c` over `data`, starting from negative
/// infinity.
pub open spec fn greatest_component(data: Seq<Vec3>, c: int) -> Scalar
    decreases data.len(),
{
    if data.len() == 0 {
        Scalar { bits: neg_infinity_bits() }
    } else {
        greater(greatest_component(data.drop_last(), c), data.last()[c])
    }
}

/// The bounds of a list of positions.
pub open spec fn bounds_of(data: Seq<Vec3>) -> Bounds {
    Bounds {
        min: [least_component(data, 0), least_component(data, 1), least_component(data, 2)],
        max: [
            greatest_component(data, 0),
            greatest_component(data, 1),
            greatest_component(data, 2),
        ],
    }
}

/// The bounds of a list of positions, found in one pass.
pub fn position_bounds(data: &[Vec3]) -> (r: Bounds)
    ensures
        r == bounds_of(data@),
{
    let mut min: Vec3 = [Scalar::infinity(), Scalar::infinity(), Scalar::infinity()];
    let mut max: Vec3 = [Scalar::neg_infinity(), Scalar::neg_infinity(), Scalar::neg_infinity()];
    let n = data.len();
    let mut i: usize = 0;
    proof {
        assert(data@.take(0) =~= Seq::<Vec3>::empty());
    }
    while i < n
        invariant
            i <= n,
            n == data@.len(),
            forall|c: int| 0 <= c < 3 ==> min[c] == least_component(data@.take(i as int), c),
            forall|c: int| 0 <= c < 3 ==> max[c] == greatest_component(data@.take(i as int), c),
        decreases n - i,
    {
        proof {
            assert(data@.take(i + 1).drop_last() =~= data@.take(i as int));
            assert(data@.take(i + 1).last() == data@[i as int]);
        }
        let v = data[i];
        min = [min_scalar(min[0], v[0]), min_scalar(min[1], v[1]), min_scalar(min[2], v[2])];
        max = [max_scalar(max[0], v[0]), max_scalar(max[1], v[1]), max_scalar(max[2], v[2])];
        i += 1;
    }
    proof {
        assert(data@.take(n as int) =~= data@);
        assert(min =~= bounds_of(data@).min);
        assert(max =~= bounds_of(data@).max);
    }
    Bounds { min, max }
}

/// The bytes of a list of 32-bit words, each least significant byte first.
pub open spec fn word_bytes(words: Seq<u32>) -> Seq<u8>
    decreases words.len(),
{
    if words.len() == 0 {
        Seq::empty()
    } else {
        word_bytes(words.drop_last()) + spec_u32_to_le_bytes(words.last())
    }
}

/// The bytes of a list of 16-bit words, each least significant byte first.
pub open spec fn short_bytes(words: Seq<u16>) -> Seq<u8>
    decreases words.len(),
{
    if words.len() == 0 {
        Seq::empty()
    } else {
        short_bytes(words.drop_last()) + vstd::bytes::spec_u16_to_le_bytes(words.last())
    }
}

/// Every 32-bit word takes four bytes.
pub proof fn lemma_word_bytes_len(words: Seq<u32>)
    ensures
        word_bytes(words).len() == 4 * words.len(),
    decreases words.len(),
{
    if words.len() > 0 {
        lemma_word_bytes_len(words.drop_last());
        vstd::bytes::lemma_auto_spec_u32_to_from_le_bytes();
    }
}

/// Every 16-bit word takes two bytes.
pub proof fn lemma_short_bytes_len(words: Seq<u16>)
    ensures
        short_bytes(words).len() == 2 * words.len(),
    decreases words.len(),
{
    if words.len() > 0 {
        lemma_short_bytes_len(words.drop_last());
        vstd::bytes::lemma_auto_spec_u16_to_from_le_bytes();
    }
}

/// Appends the bytes of `words` to the buffer.
pub fn append_words(buffer_data: &mut Vec<u8>, words: &[u32])
    ensures
        final(buffer_data)@ == old(buffer_data)@ + word_bytes(words@),
{
    let ghost before = buffer_data@;
    let n = words.len();
    let mut i: usize = 0;
    proof {
        assert(words@.take(0) =~= Seq::<u32>::empty());
        assert(before + Seq::<u8>::empty() =~= before);
    }
    while i < n
        invariant
            i <= n,
            n == words@.len(),
            buffer_data@ == before + word_bytes(words@.take(i as int)),
        decreases n - i,
    {
        proof {
            assert(words@.take(i + 1).drop_last() =~= words@.take(i as int));
            assert(words@.take(i + 1).last() == words@[i as int]);
        }
        let mut bytes = vstd::bytes::u32_to_le_bytes(words[i]);
        buffer_data.append(&mut bytes);
        proof {
            assert(buffer_data@ =~= before + word_bytes(words@.take(i + 1)));
        }
        i += 1;
    }
    proof {
        assert(words@.take(n as int) =~= words@);
    }
}

/// Appends the bytes of `words` to the buffer.
pub fn append_shorts(buffer_data: &mut Vec<u8>, words: &[u16])
    ensures
        final(buffer_data)@ == old(buffer_data)@ + short_bytes(words@),
{
    let ghost before = buffer_data@;
    let n = words.len();
    let mut i: usize = 0;
    proof {
        assert(words@.take(0) =~= Seq::<u16>::empty());
        assert(before + Seq::<u8>::empty() =~= before);
    }
    while i < n
        invariant
            i <= n,
            n == words@.len(),
            buffer_data@ == before + short_bytes(words@.take(i as int)),
        decreases n - i,
    {
        proof {
            assert(words@.take(i + 1).drop_last() =~= words@.take(i as int));
            assert(words@.take(i + 1).last() == words@[i as int]);
        }
        let mut bytes = vstd::bytes::u16_to_le_bytes(words[i]);
        buffer_data.append(&mut bytes);
        proof {
            assert(buffer_data@ =~= before + short_bytes(words@.take(i + 1)));
        }
        i += 1;
    }
    proof {
        assert(words@.take(n as int) =~= words@);
    }
}

/// The bit patterns of a list of vectors of three, number by number.
pub open spec fn vec3_words(data: Seq<Vec3>) -> Seq<u32>
    decreases data.len(),
{
    if data.len() == 0 {
        Seq::empty()
    } else {
        vec3_words(data.drop_last()) + seq![
            data.last()[0].bits,
            data.last()[1].bits,
            data.last()[2].bits,
        ]
    }
}

/// The bit patterns of a list of vectors of two, number by number.
pub open spec fn vec2_words(data: Seq<Vec2>) -> Seq<u32>
    decreases data.len(),
{
    if data.len() == 0 {
        Seq::empty()
    } else {
        vec2_words(data.drop_last()) + seq![data.last()[0].bits, data.last()[1].bits]
    }
}

/// The bit patterns of a list of vectors of four, number by number.
pub open spec fn vec4_words(data: Seq<[Scalar; 4]>) -> Seq<u32>
    decreases data.len(),
{
    if data.len() == 0 {
        Seq::empty()
    } else {
        vec4_words(data.drop_last()) + seq![
            data.last()[0].bits,
            data.last()[1].bits,
            data.last()[2].bits,
            data.last()[3].bits,
        ]
    }
}

/// The bit patterns of one matrix of sixteen numbers.
pub open spec fn matrix_words(m: [Scalar; 16]) -> Seq<u32> {
    Seq::new(16, |i: int| m[i].bits)
}

/// The bit patterns of a list of matrices, number by number.
pub open spec fn mat4_words(data: Seq<[Scalar; 16]>) -> Seq<u32>
    decreases data.len(),
{
    if data.len() == 0 {
        Seq::empty()
    } else {
        mat4_words(data.drop_last()) + matrix_words(data.last())
    }
}

/// The joints of a list of vertices, four by four.
pub open spec fn joint_shorts(data: Seq<[u16; 4]>) -> Seq<u16>
    decreases data.len(),
{
    if data.len() == 0 {
        Seq::empty()
    } else {
        joint_shorts(data.drop_last()) + seq![
            data.last()[0],
            data.last()[1],
            data.last()[2],
            data.last()[3],
        ]
    }
}

/// Every vector of three takes three words.
pub proof fn lemma_vec3_words_len(data: Seq<Vec3>)
    ensures
        vec3_words(data).len() == 3 * data.len(),
    decreases data.len(),
{
    if data.len() > 0 {
        lemma_vec3_words_len(data.drop_last());
    }
}

/// Every vector of two takes two words.
pub proof fn lemma_vec2_words_len(data: Seq<Vec2>)
    ensures
        vec2_words(data).len() == 2 * data.len(),
    decreases data.len(),
{
    if data.len() > 0 {
        lemma_vec2_words_len(data.drop_last());
    }
}

/// Every vector of four takes four words.
pub proof fn lemma_vec4_words_len(data: Seq<[Scalar; 4]>)
    ensures
        vec4_words(data).len() == 4 * data.len(),
    decreases data.len(),
{
    if data.len() > 0 {
        lemma_vec4_words_len(data.drop_last());
    }
}

/// Every matrix takes sixteen words.
pub proof fn lemma_mat4_words_len(data: Seq<[Scalar; 16]>)
    ensures
        mat4_words(data).len() == 16 * data.len(),
    decreases data.len(),
{
    if data.len() > 0 {
        lemma_mat4_words_len(data.drop_last());
    }
}

/// Every vertex takes four joints.
pub proof fn lemma_joint_shorts_len(data: Seq<[u16; 4]>)
    ensures
        joint_shorts(data).len() == 4 * data.len(),
    decreases data.len(),
{
    if data.len() > 0 {
        lemma_joint_shorts_len(data.drop_last());
    }
}

fn flatten3(data: &[Vec3]) -> (r: Vec<u32>)
    ensures
        r@ == vec3_words(data@),
{
    let mut out: Vec<u32> = Vec::new();
    let n = data.len();
    let mut i: usize = 0;
    proof {
        assert(data@.take(0) =~= Seq::<Vec3>::empty());
    }
    while i < n
        invariant
            i <= n,
            n == data@.len(),
            out@ == vec3_words(data@.take(i as int)),
        decreases n - i,
    {
        proof {
            assert(data@.take(i + 1).drop_last() =~= data@.take(i as int));
            assert(data@.take(i + 1).last() == data@[i as int]);
        }
        let ghost prev = out@;
        out.push(data[i][0].to_bits());
        out.push(data[i][1].to_bits());
        out.push(data[i][2].to_bits());
        proof {
            assert(out@ =~= prev + seq![
                data@[i as int][0].bits,
                data@[i as int][1].bits,
                data@[i as int][2].bits,
            ]);
        }
        i += 1;
    }
    proof {
        assert(data@.take(n as int) =~= data@);
    }
    out
}

fn flatten2(data: &[Vec2]) -> (r: Vec<u32>)
    ensures
        r@ == vec2_words(data@),
{
    let mut out: Vec<u32> = Vec::new();
    let n = data.len();
    let mut i: usize = 0;
    proof {
        assert(data@.take(0) =~= Seq::<Vec2>::empty());
    }
    while i < n
        invariant
            i <= n,
            n == data@.len(),
            out@ == vec2_words(data@.take(i as int)),
        decreases n - i,
    {
        proof {
            assert(data@.take(i + 1).drop_last() =~= data@.take(i as int));
            assert(data@.take(i + 1).last() == data@[i as int]);
        }
        let ghost prev = out@;
        out.push(data[i][0].to_bits());
        out.push(data[i][1].to_bits());
        proof {
            assert(out@ =~= prev + seq![data@[i as int][0].bits, data@[i as int][1].bits]);
        }
        i += 1;
    }
    proof {
        assert(data@.take(n as int) =~= data@);
    }
    out
}

fn flatten4(data: &[[Scalar; 4]]) -> (r: Vec<u32>)
    ensures
        r@ == vec4_words(data@),
{
    let mut out: Vec<u32> = Vec::new();
    let n = data.len();
    let mut i: usize = 0;
    proof {
        assert(data@.take(0) =~= Seq::<[Scalar; 4]>::empty());
    }
    while i < n
        invariant
            i <= n,
            n == data@.len(),
            out@ == vec4_words(data@.take(i as int)),
        decreases n - i,
    {
        proof {
            assert(data@.take(i + 1).drop_last() =~= data@.take(i as int));
            assert(data@.take(i + 1).last() == data@[i as int]);
        }
        let ghost prev = out@;
        out.push(data[i][0].to_bits());
        out.push(data[i][1].to_bits());
        out.push(data[i][2].to_bits());
        out.push(data[i][3].to_bits());
        proof {
            assert(out@ =~= prev + seq![
                data@[i as int][0].bits,
                data@[i as int][1].bits,
                data@[i as int][2].bits,
                data@[i as int][3].bits,
            ]);
        }
        i += 1;
    }
    proof {
        assert(data@.take(n as int) =~= data@);
    }
    out
}

fn flatten16(data: &[[Scalar; 16]]) -> (r: Vec<u32>)
    ensures
        r@ == mat4_words(data@),
{
    let mut out: Vec<u32> = Vec::new();
    let n = data.len();
    let mut i: usize = 0;
    proof {
        assert(data@.take(0) =~= Seq::<[Scalar; 16]>::empty());
    }
    while i < n
        invariant
            i <= n,
            n == data@.len(),
            out@ == mat4_words(data@.take(i as int)),
        decreases n - i,
    {
        proof {
            assert(data@.take(i + 1).drop_last() =~= data@.take(i as int));
            assert(data@.take(i + 1).last() == data@[i as int]);
        }
        let ghost prev = out@;
        let mut k: usize = 0;
        while k < 16
            invariant
                k <= 16,
                i < n,
                n == data@.len(),
                out@ == prev + matrix_words(data@[i as int]).take(k as int),
            decreases 16 - k,
        {
            out.push(data[i][k].to_bits());
            proof {
                assert(matrix_words(data@[i as int]).take(k + 1) =~= matrix_words(
                    data@[i as int],
                ).take(k as int).push(data@[i as int][k as int].bits));
                assert(out@ =~= prev + matrix_words(data@[i as int]).take(k + 1));
            }
            k += 1;
        }
        proof {
            assert(matrix_words(data@[i as int]).take(16) =~= matrix_words(data@[i as int]));
        }
        i += 1;
    }
    proof {
        assert(data@.take(n as int) =~= data@);
    }
    out
}

fn flatten_joints(data: &[[u16; 4]]) -> (r: Vec<u16>)
    ensures
        r@ == joint_shorts(data@),
{
    let mut out: Vec<u16> = Vec::new();
    let n = data.len();
    let mut i: usize = 0;
    proof {
        assert(data@.take(0) =~= Seq::<[u16; 4]>::empty());
    }
    while i < n
        invariant
            i <= n,
            n == data@.len(),
            out@ == joint_shorts(data@.take(i as int)),
        decreases n - i,
    {
        proof {
            assert(data@.take(i + 1).drop_last() =~= data@.take(i as int));
            assert(data@.take(i + 1).last() == data@[i as int]);
        }
        let ghost prev = out@;
        out.push(data[i][0]);
        out.push(data[i][1]);
        out.push(data[i][2]);
        out.push(data[i][3]);
        proof {
            assert(out@ =~= prev + seq![
                data@[i as int][0],
                data@[i as int][1],
                data@[i as int][2],
                data@[i as int][3],
            ]);
        }
        i += 1;
    }
    proof {
        assert(data@.take(n as int) =~= data@);
    }
    out
}

/// Notes the stream that fills the buffer from `byte_offset` to its end as
/// a buffer view with an accessor on it, and returns the position of the
/// accessor.
fn note_stream(
    buffer_data: &Vec<u8>,
    buffer_views: &mut Vec<BufferView>,
    accessors: &mut Vec<Accessor>,
    byte_offset: usize,
    byte_stride: Option<usize>,
    target: BufferTarget,
    component_type: ComponentType,
    count: usize,
    element_type: ElementType,
    bounds: Option<Bounds>,
) -> (r: usize)
    requires
        byte_offset <= buffer_data@.len(),
    ensures
        final(buffer_views)@ == old(buffer_views)@.push(
            BufferView {
                byte_offset,
                byte_length: (buffer_data@.len() - byte_offset) as usize,
                byte_stride,
                target,
            },
        ),
        final(accessors)@ == old(accessors)@.push(
            Accessor {
                buffer_view: old(buffer_views)@.len() as usize,
                component_type,
                count,
                element_type,
                bounds,
            },
        ),
        r == old(accessors)@.len(),
{
    let byte_length = buffer_data.len() - byte_offset;
    let view = buffer_views.len();
    buffer_views.push(BufferView { byte_offset, byte_length, byte_stride, target });
    let index = accessors.len();
    accessors.push(Accessor { buffer_view: view, component_type, count, element_type, bounds });
    index
}

/// The view of a stream of `count` elements of `size` bytes that starts at
/// `byte_offset`.
pub open spec fn stream_view(
    byte_offset: nat,
    count: nat,
    size: nat,
    byte_stride: Option<usize>,
    target: BufferTarget,
) -> BufferView {
    BufferView {
        byte_offset: byte_offset as usize,
        byte_length: (count * size) as usize,
        byte_stride,
        target,
    }
}

/// Appends a list of vectors of three numbers as a stream, and returns the
/// position of its accessor. A stream of positions, told by the semantic
/// `POSITION`, carries its bounds.
pub fn create_vec3_accessor(
    data: &[Vec3],
    buffer_data: &mut Vec<u8>,
    buffer_views: &mut Vec<BufferView>,
    accessors: &mut Vec<Accessor>,
    accessor_type: &str,
) -> (r: usize)
    ensures
        final(buffer_data)@ == old(buffer_data)@ + word_bytes(vec3_words(data@)),
        final(buffer_views)@ == old(buffer_views)@.push(
            stream_view(
                old(buffer_data)@.len(),
                data@.len(),
                12,
                Some(12usize),
                BufferTarget::ArrayBuffer,
            ),
        ),
        final(accessors)@ == old(accessors)@.push(
            Accessor {
                buffer_view: old(buffer_views)@.len() as usize,
                component_type: ComponentType::F32,
                count: data@.len() as usize,
                element_type: ElementType::Vec3,
                bounds: if accessor_type@ == "POSITION"@ {
                    Some(bounds_of(data@))
                } else {
                    None
                },
            },
        ),
        r == old(accessors)@.len(),
{
    let byte_offset = buffer_data.len();
    let words = flatten3(data);
    append_words(buffer_data, words.as_slice());
    proof {
        lemma_vec3_words_len(data@);
        lemma_word_bytes_len(words@);
    }
    let bounds = if text_eq(accessor_type, "POSITION") {
        Some(position_bounds(data))
    } else {
        None
    };
    note_stream(
        buffer_data,
        buffer_views,
        accessors,
        byte_offset,
        Some(12),
        BufferTarget::ArrayBuffer,
        ComponentType::F32,
        data.len(),
        ElementType::Vec3,
        bounds,
    )
}

/// Appends a list of vectors of two numbers as a stream, and returns the
/// position of its accessor.
pub fn create_vec2_accessor(
    data: &[Vec2],
    buffer_data: &mut Vec<u8>,
    buffer_views: &mut Vec<BufferView>,
    accessors: &mut Vec<Accessor>,
) -> (r: usize)
    ensures
        final(buffer_data)@ == old(buffer_data)@ + word_bytes(vec2_words(data@)),
        final(buffer_views)@ == old(buffer_views)@.push(
            stream_view(
                old(buffer_data)@.len(),
                data@.len(),
                8,
                Some(8usize),
                BufferTarget::ArrayBuffer,
            ),
        ),
        final(accessors)@ == old(accessors)@.push(
            Accessor {
                buffer_view: old(buffer_views)@.len() as usize,
                component_type: ComponentType::F32,
                count: data@.len() as usize,
                element_type: ElementType::Vec2,
                bounds: None,
            },
        ),
        r == old(accessors)@.len(),
{
    let byte_offset = buffer_data.len();
    let words = flatten2(data);
    append_words(buffer_data, words.as_slice());
    proof {
        lemma_vec2_words_len(data@);
        lemma_word_bytes_len(words@);
    }
    note_stream(
        buffer_data,
        buffer_views,
        accessors,
        byte_offset,
        Some(8),
        BufferTarget::ArrayBuffer,
        ComponentType::F32,
        data.len(),
        ElementType::Vec2,
        None,
    )
}

/// Appends a list of vertex indices as a stream, and returns the position of
/// its accessor.
pub fn create_indices_accessor(
    indices: &[u32],
    buffer_data: &mut Vec<u8>,
    buffer_views: &mut Vec<BufferView>,
    accessors: &mut Vec<Accessor>,
) -> (r: usize)
    ensures
        final(buffer_data)@ == old(buffer_data)@ + word_bytes(indices@),
        final(buffer_views)@ == old(buffer_views)@.push(
            stream_view(
                old(buffer_data)@.len(),
                indices@.len(),
                4,
                None,
                BufferTarget::ElementArrayBuffer,
            ),
        ),
        final(accessors)@ == old(accessors)@.push(
            Accessor {
                buffer_view: old(buffer_views)@.len() as usize,
                component_type: ComponentType::U32,
                count: indices@.len() as usize,
                element_type: ElementType::Scalar,
                bounds: None,
            },
        ),
        r == old(accessors)@.len(),
{
    let byte_offset = buffer_data.len();
    append_words(buffer_data, indices);
    proof {
        lemma_word_bytes_len(indices@);
    }
    note_stream(
        buffer_data,
        buffer_views,
        accessors,
        byte_offset,
        None,
        BufferTarget::ElementArrayBuffer,
        ComponentType::U32,
        indices.len(),
        ElementType::Scalar,
        None,
    )
}

/// Appends the joints of a list of vertices, four per vertex, as a stream,
/// and returns the position of its accessor.
pub fn create_joints_accessor(
    joints_data: &[[u16; 4]],
    buffer_data: &mut Vec<u8>,
    buffer_views: &mut Vec<BufferView>,
    accessors: &mut Vec<Accessor>,
) -> (r: usize)
    ensures
        final(buffer_data)@ == old(buffer_data)@ + short_bytes(joint_shorts(joints_data@)),
        final(buffer_views)@ == old(buffer_views)@.push(
            stream_view(
                old(buffer_data)@.len(),
                joints_data@.len(),
                8,
                Some(8usize),
                BufferTarget::ArrayBuffer,
            ),
        ),
        final(accessors)@ == old(accessors)@.push(
            Accessor {
                buffer_view: old(buffer_views)@.len() as usize,
                component_type: ComponentType::U16,
                count: joints_data@.len() as usize,
                element_type: ElementType::Vec4,
                bounds: None,
            },
        ),
        r == old(accessors)@.len(),
{
    let byte_offset = buffer_data.len();
    let words = flatten_joints(joints_data);
    append_shorts(buffer_data, words.as_slice());
    proof {
        lemma_joint_shorts_len(joints_data@);
        lemma_short_bytes_len(words@);
    }
    note_stream(
        buffer_data,
        buffer_views,
        accessors,
        byte_offset,
        Some(8),
        BufferTarget::ArrayBuffer,
        ComponentType::U16,
        joints_data.len(),
        ElementType::Vec4,
        None,
    )
}

/// Appends the weights of a list of vertices, four per vertex, as a stream,
/// and returns the position of its accessor.
pub fn create_weights_accessor(
    weights_data: &[[Scalar; 4]],
    buffer_data: &mut Vec<u8>,
    buffer_views: &mut Vec<BufferView>,
    accessors: &mut Vec<Accessor>,
) -> (r: usize)
    ensures
        final(buffer_data)@ == old(buffer_data)@ + word_bytes(vec4_words(weights_data@)),
        final(buffer_views)@ == old(buffer_views)@.push(
            stream_view(
                old(buffer_data)@.len(),
                weights_data@.len(),
                16,
                Some(16usize),
                BufferTarget::ArrayBuffer,
            ),
        ),
        final(accessors)@ == old(accessors)@.push(
            Accessor {
                buffer_view: old(buffer_views)@.len() as usize,
                component_type: ComponentType::F32,
                count: weights_data@.len() as usize,
                element_type: ElementType::Vec4,
                bounds: None,
            },
        ),
        r == old(accessors)@.len(),
{
    let byte_offset = buffer_data.len();
    let words = flatten4(weights_data);
    append_words(buffer_data, words.as_slice());
    proof {
        lemma_vec4_words_len(weights_data@);
        lemma_word_bytes_len(words@);
    }
    note_stream(
        buffer_data,
        buffer_views,
        accessors,
        byte_offset,
        Some(16),
        BufferTarget::ArrayBuffer,
        ComponentType::F32,
        weights_data.len(),
        ElementType::Vec4,
        None,
    )
}

/// Appends a list of matrices of sixteen numbers as a stream, and returns
/// the position of its accessor.
pub fn create_mat4_accessor(
    matrices: &[[Scalar; 16]],
    buffer_data: &mut Vec<u8>,
    buffer_views: &mut Vec<BufferView>,
    accessors: &mut Vec<Accessor>,
) -> (r: usize)
    ensures
        final(buffer_data)@ == old(buffer_data)@ + word_bytes(mat4_words(matrices@)),
        final(buffer_views)@ == old(buffer_views)@.push(
            stream_view(
                old(buffer_data)@.len(),
                matrices@.len(),
                64,
                Some(64usize),
                BufferTarget::ArrayBuffer,
            ),
        ),
        final(accessors)@ == old(accessors)@.push(
            Accessor {
                buffer_view: old(buffer_views)@.len() as usize,
                component_type: ComponentType::F32,
                count: matrices@.len() as usize,
                element_type: ElementType::Mat4,
                bounds: None,
            },
        ),
        r == old(accessors)@.len(),
{
    let byte_offset = buffer_data.len();
    let words = flatten16(matrices);
    append_words(buffer_data, words.as_slice());
    proof {
        lemma_mat4_words_len(matrices@);
        lemma_word_bytes_len(words@);
    }
    note_stream(
        buffer_data,
        buffer_views,
        accessors,
        byte_offset,
        Some(64),
        BufferTarget::ArrayBuffer,
        ComponentType::F32,
        matrices.len(),
        ElementType::Mat4,
        None,
    )
}

} // verus!
