//! The layout of the binary side of a glTF asset as plain values, and what
//! makes it packed.

use vstd::prelude::*;
use crate::gltf::buffer::{
    bounds_of,
    joint_shorts,
    lemma_joint_shorts_len,
    lemma_mat4_words_len,
    lemma_short_bytes_len,
    lemma_vec2_words_len,
    lemma_vec3_words_len,
    lemma_vec4_words_len,
    lemma_word_bytes_len,
    mat4_words,
    short_bytes,
    stream_view,
    vec2_words,
    vec3_words,
    vec4_words,
    word_bytes,
    Accessor,
    Bounds,
    BufferTarget,
    BufferView,
    ComponentType,
    ElementType,
};
use crate::model::{Vec2, Vec3};
use crate::scalar::Scalar;

verus! {

/// The binary side of an asset as plain values.
pub struct Layout {
    pub data: Seq<u8>,
    pub views: Seq<BufferView>,
    pub accessors: Seq<Accessor>,
}

/// A layout with one more stream: its bytes at the end of the buffer, a view
/// on them, and an accessor on the view.
pub open spec fn with_stream(
    l: Layout,
    bytes: Seq<u8>,
    count: nat,
    size: nat,
    byte_stride: Option<usize>,
    target: BufferTarget,
    component_type: ComponentType,
    element_type: ElementType,
    bounds: Option<Bounds>,
) -> Layout {
    Layout {
        data: l.data + bytes,
        views: l.views.push(stream_view(l.data.len(), count, size, byte_stride, target)),
        accessors: l.accessors.push(
            Accessor {
                buffer_view: l.views.len() as usize,
                component_type,
                count: count as usize,
                element_type,
                bounds,
            },
        ),
    }
}

/// A layout with one more stream of vectors of three numbers; positions
/// carry their bounds.
pub open spec fn with_vec3s(l: Layout, data: Seq<Vec3>, positions: bool) -> Layout {
    with_stream(
        l,
        word_bytes(vec3_words(data)),
        data.len(),
        12,
        Some(12usize),
        BufferTarget::ArrayBuffer,
        ComponentType::F32,
        ElementType::Vec3,
        if positions {
            Some(bounds_of(data))
        } else {
            None
        },
    )
}

/// A layout with one more stream of vectors of two numbers.
pub open spec fn with_vec2s(l: Layout, data: Seq<Vec2>) -> Layout {
    with_stream(
        l,
        word_bytes(vec2_words(data)),
        data.len(),
        8,
        Some(8usize),
        BufferTarget::ArrayBuffer,
        ComponentType::F32,
        ElementType::Vec2,
        None,
    )
}

/// A layout with one more stream of vertex indices.
pub open spec fn with_indices(l: Layout, indices: Seq<u32>) -> Layout {
    with_stream(
        l,
        word_bytes(indices),
        indices.len(),
        4,
        None,
        BufferTarget::ElementArrayBuffer,
        ComponentType::U32,
        ElementType::Scalar,
        None,
    )
}

/// A layout with the two streams of a skin: joints, then weights.
pub open spec fn with_skin(l: Layout, joints: Seq<[u16; 4]>, weights: Seq<[Scalar; 4]>) -> Layout {
    with_stream(
        with_stream(
            l,
            short_bytes(joint_shorts(joints)),
            joints.len(),
            8,
            Some(8usize),
            BufferTarget::ArrayBuffer,
            ComponentType::U16,
            ElementType::Vec4,
            None,
        ),
        word_bytes(vec4_words(weights)),
        weights.len(),
        16,
        Some(16usize),
        BufferTarget::ArrayBuffer,
        ComponentType::F32,
        ElementType::Vec4,
        None,
    )
}

/// A layout with one more stream of matrices.
pub open spec fn with_matrices(l: Layout, matrices: Seq<[Scalar; 16]>) -> Layout {
    with_stream(
        l,
        word_bytes(mat4_words(matrices)),
        matrices.len(),
        64,
        Some(64usize),
        BufferTarget::ArrayBuffer,
        ComponentType::F32,
        ElementType::Mat4,
        None,
    )
}

/// The layout that a buffer with its views and accessors makes.
pub open spec fn layout_of(data: Vec<u8>, views: Vec<BufferView>, accessors: Vec<Accessor>) -> Layout {
    Layout { data: data@, views: views@, accessors: accessors@ }
}

/// The empty layout.
pub open spec fn empty_layout() -> Layout {
    Layout { data: Seq::empty(), views: Seq::empty(), accessors: Seq::empty() }
}

/// How many bytes the first `upto` views take.
pub open spec fn filled(views: Seq<BufferView>, upto: nat) -> nat
    decreases upto,
{
    if upto == 0 {
        0
    } else {
        filled(views, (upto - 1) as nat) + views[upto - 1].byte_length as nat
    }
}

/// A packed layout: the first view starts at the first byte, each other
/// where the one before ends, and the last ends with the buffer; every view
/// starts at a multiple of four bytes; and the accessor at a position reads
/// the view at that position.
#[verifier::opaque]
pub open spec fn packed(l: Layout) -> bool {
    &&& l.views.len() == l.accessors.len()
    &&& forall|k: int|
        0 <= k < l.views.len() ==> {
            &&& (#[trigger] l.views[k]).byte_offset == filled(l.views, k as nat)
            &&& l.views[k].byte_offset % 4 == 0
        }
    &&& forall|k: int| 0 <= k < l.accessors.len() ==> (#[trigger] l.accessors[k]).buffer_view == k
    &&& filled(l.views, l.views.len()) == l.data.len()
    &&& l.data.len() % 4 == 0
}

proof fn lemma_filled_prefix(views: Seq<BufferView>, more: Seq<BufferView>, upto: nat)
    requires
        upto <= views.len(),
        views.len() <= more.len(),
        forall|k: int| 0 <= k < views.len() ==> more[k] == views[k],
    ensures
        filled(more, upto) == filled(views, upto),
    decreases upto,
{
    if upto > 0 {
        lemma_filled_prefix(views, more, (upto - 1) as nat);
    }
}

/// A stream of whole elements of a multiple of four bytes, added to a
/// packed layout that has room for it, leaves the layout packed.
pub proof fn lemma_with_stream_packed(
    l: Layout,
    bytes: Seq<u8>,
    count: nat,
    size: nat,
    byte_stride: Option<usize>,
    target: BufferTarget,
    component_type: ComponentType,
    element_type: ElementType,
    bounds: Option<Bounds>,
)
    requires
        packed(l),
        bytes.len() == count * size,
        size % 4 == 0,
        l.data.len() + bytes.len() <= usize::MAX,
        l.views.len() < usize::MAX,
    ensures
        packed(
            with_stream(
                l,
                bytes,
                count,
                size,
                byte_stride,
                target,
                component_type,
                element_type,
                bounds,
            ),
        ),
{
    reveal(packed);
    let after = with_stream(
        l,
        bytes,
        count,
        size,
        byte_stride,
        target,
        component_type,
        element_type,
        bounds,
    );
    let n = l.views.len();
    let quarter = size / 4;
    assert(count * size == 4 * (count * quarter)) by (nonlinear_arith)
        requires
            size == 4 * quarter,
    ;
    assert forall|k: int| 0 <= k < after.views.len() implies {
        &&& (#[trigger] after.views[k]).byte_offset == filled(after.views, k as nat)
        &&& after.views[k].byte_offset % 4 == 0
    } by {
        lemma_filled_prefix(l.views, after.views, if k < n {
            k as nat
        } else {
            n
        });
        if k < n {
            assert(after.views[k] == l.views[k]);
        }
    }
    assert forall|k: int| 0 <= k < after.accessors.len() implies (#[trigger] after.accessors[
        k
    ]).buffer_view == k by {
        if k < n {
            assert(after.accessors[k] == l.accessors[k]);
        }
    }
    lemma_filled_prefix(l.views, after.views, n);
}

/// Whether a layout fits the machine: its bytes and its views can be
/// counted.
pub open spec fn fits(l: Layout) -> bool {
    l.data.len() <= usize::MAX && l.views.len() <= usize::MAX
}

/// A layout never shrinks when a stream is added.
pub proof fn lemma_streams_grow(l: Layout)
    ensures
        forall|data: Seq<Vec3>, positions: bool|
            l.data.len() <= (#[trigger] with_vec3s(l, data, positions)).data.len() && l.views.len()
                <= with_vec3s(l, data, positions).views.len(),
        forall|data: Seq<Vec2>|
            l.data.len() <= (#[trigger] with_vec2s(l, data)).data.len() && l.views.len()
                <= with_vec2s(l, data).views.len(),
        forall|indices: Seq<u32>|
            l.data.len() <= (#[trigger] with_indices(l, indices)).data.len() && l.views.len()
                <= with_indices(l, indices).views.len(),
        forall|joints: Seq<[u16; 4]>, weights: Seq<[Scalar; 4]>|
            l.data.len() <= (#[trigger] with_skin(l, joints, weights)).data.len() && l.views.len()
                <= with_skin(l, joints, weights).views.len(),
        forall|matrices: Seq<[Scalar; 16]>|
            l.data.len() <= (#[trigger] with_matrices(l, matrices)).data.len() && l.views.len()
                <= with_matrices(l, matrices).views.len(),
{
}

/// Vectors of three numbers, added to a packed layout, leave it packed.
pub proof fn lemma_with_vec3s_packed(l: Layout, data: Seq<Vec3>, positions: bool)
    requires
        packed(l),
        fits(with_vec3s(l, data, positions)),
    ensures
        packed(with_vec3s(l, data, positions)),
{
    lemma_vec3_words_len(data);
    lemma_word_bytes_len(vec3_words(data));
    lemma_with_stream_packed(
        l,
        word_bytes(vec3_words(data)),
        data.len(),
        12,
        Some(12usize),
        BufferTarget::ArrayBuffer,
        ComponentType::F32,
        ElementType::Vec3,
        if positions {
            Some(bounds_of(data))
        } else {
            None
        },
    );
}

/// Vectors of two numbers, added to a packed layout, leave it packed.
pub proof fn lemma_with_vec2s_packed(l: Layout, data: Seq<Vec2>)
    requires
        packed(l),
        fits(with_vec2s(l, data)),
    ensures
        packed(with_vec2s(l, data)),
{
    lemma_vec2_words_len(data);
    lemma_word_bytes_len(vec2_words(data));
    lemma_with_stream_packed(
        l,
        word_bytes(vec2_words(data)),
        data.len(),
        8,
        Some(8usize),
        BufferTarget::ArrayBuffer,
        ComponentType::F32,
        ElementType::Vec2,
        None,
    );
}

/// Vertex indices, added to a packed layout, leave it packed.
pub proof fn lemma_with_indices_packed(l: Layout, indices: Seq<u32>)
    requires
        packed(l),
        fits(with_indices(l, indices)),
    ensures
        packed(with_indices(l, indices)),
{
    lemma_word_bytes_len(indices);
    lemma_with_stream_packed(
        l,
        word_bytes(indices),
        indices.len(),
        4,
        None,
        BufferTarget::ElementArrayBuffer,
        ComponentType::U32,
        ElementType::Scalar,
        None,
    );
}

/// Joints and weights, added to a packed layout, leave it packed.
pub proof fn lemma_with_skin_packed(l: Layout, joints: Seq<[u16; 4]>, weights: Seq<[Scalar; 4]>)
    requires
        packed(l),
        fits(with_skin(l, joints, weights)),
    ensures
        packed(with_skin(l, joints, weights)),
{
    lemma_vec4_words_len(weights);
    lemma_word_bytes_len(vec4_words(weights));
    lemma_joint_shorts_len(joints);
    lemma_short_bytes_len(joint_shorts(joints));
    lemma_with_stream_packed(
        l,
        short_bytes(joint_shorts(joints)),
        joints.len(),
        8,
        Some(8usize),
        BufferTarget::ArrayBuffer,
        ComponentType::U16,
        ElementType::Vec4,
        None,
    );
    let between = with_stream(
        l,
        short_bytes(joint_shorts(joints)),
        joints.len(),
        8,
        Some(8usize),
        BufferTarget::ArrayBuffer,
        ComponentType::U16,
        ElementType::Vec4,
        None,
    );
    lemma_vec4_words_len(weights);
    lemma_word_bytes_len(vec4_words(weights));
    lemma_with_stream_packed(
        between,
        word_bytes(vec4_words(weights)),
        weights.len(),
        16,
        Some(16usize),
        BufferTarget::ArrayBuffer,
        ComponentType::F32,
        ElementType::Vec4,
        None,
    );
}

/// Matrices, added to a packed layout, leave it packed.
pub proof fn lemma_with_matrices_packed(l: Layout, matrices: Seq<[Scalar; 16]>)
    requires
        packed(l),
        fits(with_matrices(l, matrices)),
    ensures
        packed(with_matrices(l, matrices)),
{
    lemma_mat4_words_len(matrices);
    lemma_word_bytes_len(mat4_words(matrices));
    lemma_with_stream_packed(
        l,
        word_bytes(mat4_words(matrices)),
        matrices.len(),
        64,
        Some(64usize),
        BufferTarget::ArrayBuffer,
        ComponentType::F32,
        ElementType::Mat4,
        None,
    );
}

} // verus!
