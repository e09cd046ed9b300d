//! Accessors: typed, strided views over the bytes of a buffer.

use crate::algebra::{Vec2, Vec3, Vec4};
use crate::scalar::ONE;
use crate::scene::error::GltfSceneError;
use vstd::prelude::*;

verus! {

/// The type of one component of an element.
#[derive(Clone, Copy, Debug, PartialEq, Eq, Structural)]
pub enum ComponentType {
    I8,
    U8,
    I16,
    U16,
    U32,
    F32,
}

/// How many components an element has.
#[derive(Clone, Copy, Debug, PartialEq, Eq, Structural)]
pub enum Dimensions {
    Scalar,
    Vec2,
    Vec3,
    Vec4,
    Mat2,
    Mat3,
    Mat4,
}

/// A range of bytes of one buffer.
#[derive(Clone, Copy, Debug, PartialEq, Eq)]
pub struct SourceView {
    /// Index of the buffer.
    pub buffer: usize,
    /// Where in the buffer the view begins.
    pub offset: usize,
    pub length: usize,
    /// Bytes from the start of one element to the start of the next; `None`
    /// when the elements are tightly packed.
    pub stride: Option<usize>,
}

/// The sparse part of an accessor: `count` elements are replaced. The
/// indices of the elements to replace lie in one view, their new values in
/// another, in the same order.
#[derive(Clone, Copy, Debug, PartialEq, Eq)]
pub struct SourceSparse {
    pub count: usize,
    /// Index of the view that holds the indices.
    pub indices_view: usize,
    /// Where in that view the first index begins.
    pub indices_offset: usize,
    /// The type of an index: an unsigned integer.
    pub index_type: ComponentType,
    /// Index of the view that holds the values.
    pub values_view: usize,
    /// Where in that view the first value begins.
    pub values_offset: usize,
}

/// A description of how to read `count` elements out of a view.
#[derive(Clone, Copy, Debug, PartialEq, Eq)]
pub struct SourceAccessor {
    /// Index of the view; an accessor without one holds no data.
    pub view: Option<usize>,
    /// Where in the view the first element begins.
    pub offset: usize,
    pub count: usize,
    pub component: ComponentType,
    pub dimensions: Dimensions,
    /// The elements that are replaced from a second source, if any.
    pub sparse: Option<SourceSparse>,
}

/// Where the elements of an accessor lie in their buffer, once the accessor
/// has been checked against its view and the view against its buffer.
#[derive(Clone, Copy, Debug, PartialEq, Eq)]
pub struct Layout {
    /// Index of the buffer; without meaning where the elements were laid
    /// out anew.
    pub buffer: usize,
    /// Where in the buffer element `0` begins.
    pub start: usize,
    pub stride: usize,
    pub count: usize,
    /// Bytes of one element.
    pub size: usize,
}

impl ComponentType {
    /// Bytes of one component.
    pub open spec fn width(self) -> nat {
        match self {
            ComponentType::I8 | ComponentType::U8 => 1,
            ComponentType::I16 | ComponentType::U16 => 2,
            ComponentType::U32 | ComponentType::F32 => 4,
        }
    }

    /// Bytes of one component.
    pub fn size(self) -> (n: usize)
        ensures
            n == self.width(),
    {
        match self {
            ComponentType::I8 | ComponentType::U8 => 1,
            ComponentType::I16 | ComponentType::U16 => 2,
            ComponentType::U32 | ComponentType::F32 => 4,
        }
    }
}

impl Dimensions {
    /// Components of one element.
    pub open spec fn arity(self) -> nat {
        match self {
            Dimensions::Scalar => 1,
            Dimensions::Vec2 => 2,
            Dimensions::Vec3 => 3,
            Dimensions::Vec4 | Dimensions::Mat2 => 4,
            Dimensions::Mat3 => 9,
            Dimensions::Mat4 => 16,
        }
    }

    /// Components of one element.
    pub fn multiplicity(self) -> (n: usize)
        ensures
            n == self.arity(),
    {
        match self {
            Dimensions::Scalar => 1,
            Dimensions::Vec2 => 2,
            Dimensions::Vec3 => 3,
            Dimensions::Vec4 | Dimensions::Mat2 => 4,
            Dimensions::Mat3 => 9,
            Dimensions::Mat4 => 16,
        }
    }
}

impl SourceAccessor {
    /// Bytes of one element.
    pub open spec fn element_bytes(self) -> nat {
        self.component.width() * self.dimensions.arity()
    }

    /// Bytes of one element.
    pub fn element_size(&self) -> (n: usize)
        ensures
            n == self.element_bytes(),
            1 <= n <= 64,
    {
        let size: usize = self.component.size();
        let multiplicity: usize = self.dimensions.multiplicity();
        assert(1 <= size * multiplicity <= 64) by (nonlinear_arith)
            requires
                1 <= size <= 4,
                1 <= multiplicity <= 16,
        ;
        size * multiplicity
    }

    /// Whether the elements are `dimensions` components of `component`.
    pub open spec fn holds(self, component: ComponentType, dimensions: Dimensions) -> bool {
        self.component == component && self.dimensions == dimensions
    }
}

impl Layout {
    /// The byte at which element `i` begins.
    pub open spec fn at(self, i: int) -> int {
        self.start + i * self.stride
    }

    /// Every element lies inside `length` bytes.
    pub open spec fn fits(self, length: nat) -> bool {
        &&& 1 <= self.size <= self.stride
        &&& 1 <= self.count
        &&& self.at(self.count - 1) + self.size <= length
    }
}

/// Where `count` elements of `size` bytes lie that begin `offset` bytes into
/// view `v`.
///
/// A view or a buffer that the document does not hold makes the document
/// malformed. No element at all, a stride shorter than an element, a view
/// that leaves its buffer and elements that leave their view are read
/// errors.
pub open spec fn placed(
    views: Seq<SourceView>,
    buffers: Seq<Vec<u8>>,
    v: usize,
    offset: usize,
    count: usize,
    size: nat,
) -> Result<Layout, GltfSceneError> {
    if v >= views.len() || views[v as int].buffer >= buffers.len() {
        Err(GltfSceneError::MalformedDocument)
    } else {
        let view = views[v as int];
        let stride = match view.stride {
            Some(stride) => stride,
            None => size as usize,
        };
        if count == 0 || stride < size || view.offset + view.length
            > buffers[view.buffer as int]@.len() || offset + (count - 1) * stride + size
            > view.length {
            Err(GltfSceneError::PrimitiveRead)
        } else {
            Ok(
                Layout {
                    buffer: view.buffer,
                    start: (view.offset + offset) as usize,
                    stride,
                    count,
                    size: size as usize,
                },
            )
        }
    }
}

/// The layout of the elements that an accessor has in its own view, `None`
/// for an accessor without a view.
pub open spec fn layout_of(
    accessor: SourceAccessor,
    views: Seq<SourceView>,
    buffers: Seq<Vec<u8>>,
) -> Result<Option<Layout>, GltfSceneError> {
    match accessor.view {
        None => Ok(None),
        Some(v) => match placed(
            views,
            buffers,
            v,
            accessor.offset,
            accessor.count,
            accessor.element_bytes(),
        ) {
            Err(e) => Err(e),
            Ok(layout) => Ok(Some(layout)),
        },
    }
}

/// Checks a range of elements against its view and the view against its
/// buffer.
pub fn place(
    views: &Vec<SourceView>,
    buffers: &Vec<Vec<u8>>,
    v: usize,
    offset: usize,
    count: usize,
    size: usize,
) -> (layout: Result<Layout, GltfSceneError>)
    requires
        1 <= size,
    ensures
        layout == placed(views@, buffers@, v, offset, count, size as nat),
        layout matches Ok(l) ==> l.buffer < buffers@.len() && l.count == count && l.size == size
            && l.fits(buffers@[l.buffer as int]@.len()),
{
    if v >= views.len() {
        return Err(GltfSceneError::MalformedDocument);
    }
    let view: SourceView = views[v];
    if view.buffer >= buffers.len() {
        return Err(GltfSceneError::MalformedDocument);
    }
    let available: usize = buffers[view.buffer].len();
    let stride: usize = match view.stride {
        Some(stride) => stride,
        None => size,
    };
    if count == 0 || stride < size {
        return Err(GltfSceneError::PrimitiveRead);
    }
    if view.offset > available || view.length > available - view.offset {
        return Err(GltfSceneError::PrimitiveRead);
    }
    let steps: usize = count - 1;
    if size > view.length || offset > view.length - size {
        assert(steps * stride >= 0) by (nonlinear_arith)
            requires
                steps >= 0,
                stride >= 0,
        ;
        return Err(GltfSceneError::PrimitiveRead);
    }
    let room: usize = view.length - size - offset;
    if steps > room / stride {
        assert(steps * stride > room) by (nonlinear_arith)
            requires
                steps > room / stride,
                stride >= 1,
                room >= 0,
        ;
        return Err(GltfSceneError::PrimitiveRead);
    }
    assert(steps * stride <= room) by (nonlinear_arith)
        requires
            steps <= room / stride,
            stride >= 1,
            room >= 0,
            steps >= 0,
    ;
    Ok(Layout { buffer: view.buffer, start: view.offset + offset, stride, count, size })
}

/// Checks the elements that an accessor has in its own view.
pub fn resolve(accessor: &SourceAccessor, views: &Vec<SourceView>, buffers: &Vec<Vec<u8>>) -> (layout:
    Result<Option<Layout>, GltfSceneError>)
    ensures
        layout == layout_of(*accessor, views@, buffers@),
        layout matches Ok(Some(l)) ==> l.buffer < buffers@.len() && l.count == accessor.count
            && l.size == accessor.element_bytes() && l.fits(buffers@[l.buffer as int]@.len()),
{
    let v: usize = match accessor.view {
        Some(v) => v,
        None => {
            return Ok(None);
        },
    };
    match place(views, buffers, v, accessor.offset, accessor.count, accessor.element_size()) {
        Err(e) => Err(e),
        Ok(layout) => Ok(Some(layout)),
    }
}

/// The little-endian value of the two bytes at `at`.
pub open spec fn le_u16(bytes: Seq<u8>, at: int) -> u16 {
    (bytes[at] + bytes[at + 1] * 0x100) as u16
}

/// The little-endian value of the four bytes at `at`. Read as a
/// single-precision value, these are its bits.
pub open spec fn le_u32(bytes: Seq<u8>, at: int) -> u32 {
    (bytes[at] + bytes[at + 1] * 0x100 + bytes[at + 2] * 0x1_0000 + bytes[at + 3] * 0x100_0000) as u32
}

fn read_u16(bytes: &Vec<u8>, at: usize) -> (value: u16)
    requires
        at + 2 <= bytes@.len(),
    ensures
        value == le_u16(bytes@, at as int),
{
    let length: usize = bytes.len();
    assert(at + 2 <= length);
    let b0: u16 = bytes[at] as u16;
    let b1: u16 = bytes[at + 1] as u16;
    b0 + b1 * 0x100
}

fn read_u32(bytes: &Vec<u8>, at: usize) -> (value: u32)
    requires
        at + 4 <= bytes@.len(),
    ensures
        value == le_u32(bytes@, at as int),
{
    let length: usize = bytes.len();
    assert(at + 4 <= length);
    let b0: u32 = bytes[at] as u32;
    let b1: u32 = bytes[at + 1] as u32;
    let b2: u32 = bytes[at + 2] as u32;
    let b3: u32 = bytes[at + 3] as u32;
    b0 + b1 * 0x100 + b2 * 0x1_0000 + b3 * 0x100_0000
}

/// The two words at `at`.
pub open spec fn vec2_at(bytes: Seq<u8>, at: int) -> Vec2 {
    Vec2 { x: le_u32(bytes, at), y: le_u32(bytes, at + 4) }
}

/// The three words at `at`.
pub open spec fn vec3_at(bytes: Seq<u8>, at: int) -> Vec3 {
    Vec3 { x: le_u32(bytes, at), y: le_u32(bytes, at + 4), z: le_u32(bytes, at + 8) }
}

/// The four words at `at`.
pub open spec fn vec4_at(bytes: Seq<u8>, at: int) -> Vec4 {
    Vec4 {
        x: le_u32(bytes, at),
        y: le_u32(bytes, at + 4),
        z: le_u32(bytes, at + 8),
        w: le_u32(bytes, at + 12),
    }
}

/// The three words at `at` as a colour without transparency.
pub open spec fn rgb_at(bytes: Seq<u8>, at: int) -> Vec4 {
    Vec4 { x: le_u32(bytes, at), y: le_u32(bytes, at + 4), z: le_u32(bytes, at + 8), w: ONE }
}

/// An index of `size` bytes at `at`, widened to 32 bits.
pub open spec fn index_at(bytes: Seq<u8>, at: int, size: nat) -> u32 {
    if size == 1 {
        bytes[at] as u32
    } else if size == 2 {
        le_u16(bytes, at) as u32
    } else {
        le_u32(bytes, at)
    }
}

/// The elements of a layout, each decoded by `element` from the byte at
/// which it begins.
pub open spec fn elements<T>(bytes: Seq<u8>, layout: Layout, element: spec_fn(Seq<u8>, int) -> T) -> Seq<T> {
    Seq::new(layout.count as nat, |i: int| element(bytes, layout.at(i)))
}

/// The byte at which element `i` begins, with the proof that the element
/// lies inside the buffer.
fn element_start(layout: &Layout, i: usize, length: usize) -> (at: usize)
    requires
        layout.fits(length as nat),
        i < layout.count,
    ensures
        at == layout.at(i as int),
        at + layout.size <= length,
{
    assert(0 <= i * layout.stride <= (layout.count - 1) * layout.stride) by (nonlinear_arith)
        requires
            0 <= i <= layout.count - 1,
            0 <= layout.stride,
    ;
    layout.start + i * layout.stride
}

/// Reads elements of two single-precision components.
pub fn read_vec2s(bytes: &Vec<u8>, layout: &Layout) -> (items: Vec<Vec2>)
    requires
        layout.fits(bytes@.len()),
        layout.size == 8,
    ensures
        items@ == elements(bytes@, *layout, |b: Seq<u8>, at: int| vec2_at(b, at)),
{
    let mut items: Vec<Vec2> = Vec::new();
    let mut i: usize = 0;
    while i < layout.count
        invariant
            i <= layout.count,
            layout.fits(bytes@.len()),
            layout.size == 8,
            items@.len() == i,
            forall|k: int| 0 <= k < i ==> (#[trigger] items@[k]) == vec2_at(bytes@, layout.at(k)),
        decreases layout.count - i,
    {
        let at: usize = element_start(layout, i, bytes.len());
        items.push(Vec2 { x: read_u32(bytes, at), y: read_u32(bytes, at + 4) });
        i = i + 1;
    }
    assert(items@ =~= elements(bytes@, *layout, |b: Seq<u8>, at: int| vec2_at(b, at)));
    items
}

/// Reads elements of three single-precision components.
pub fn read_vec3s(bytes: &Vec<u8>, layout: &Layout) -> (items: Vec<Vec3>)
    requires
        layout.fits(bytes@.len()),
        layout.size == 12,
    ensures
        items@ == elements(bytes@, *layout, |b: Seq<u8>, at: int| vec3_at(b, at)),
{
    let mut items: Vec<Vec3> = Vec::new();
    let mut i: usize = 0;
    while i < layout.count
        invariant
            i <= layout.count,
            layout.fits(bytes@.len()),
            layout.size == 12,
            items@.len() == i,
            forall|k: int| 0 <= k < i ==> (#[trigger] items@[k]) == vec3_at(bytes@, layout.at(k)),
        decreases layout.count - i,
    {
        let at: usize = element_start(layout, i, bytes.len());
        items.push(
            Vec3 { x: read_u32(bytes, at), y: read_u32(bytes, at + 4), z: read_u32(bytes, at + 8) },
        );
        i = i + 1;
    }
    assert(items@ =~= elements(bytes@, *layout, |b: Seq<u8>, at: int| vec3_at(b, at)));
    items
}

/// Reads elements of four single-precision components.
pub fn read_vec4s(bytes: &Vec<u8>, layout: &Layout) -> (items: Vec<Vec4>)
    requires
        layout.fits(bytes@.len()),
        layout.size == 16,
    ensures
        items@ == elements(bytes@, *layout, |b: Seq<u8>, at: int| vec4_at(b, at)),
{
    let mut items: Vec<Vec4> = Vec::new();
    let mut i: usize = 0;
    while i < layout.count
        invariant
            i <= layout.count,
            layout.fits(bytes@.len()),
            layout.size == 16,
            items@.len() == i,
            forall|k: int| 0 <= k < i ==> (#[trigger] items@[k]) == vec4_at(bytes@, layout.at(k)),
        decreases layout.count - i,
    {
        let at: usize = element_start(layout, i, bytes.len());
        items.push(
            Vec4 {
                x: read_u32(bytes, at),
                y: read_u32(bytes, at + 4),
                z: read_u32(bytes, at + 8),
                w: read_u32(bytes, at + 12),
            },
        );
        i = i + 1;
    }
    assert(items@ =~= elements(bytes@, *layout, |b: Seq<u8>, at: int| vec4_at(b, at)));
    items
}

/// Reads colours of three single-precision components and makes them
/// opaque.
pub fn read_rgbs(bytes: &Vec<u8>, layout: &Layout) -> (items: Vec<Vec4>)
    requires
        layout.fits(bytes@.len()),
        layout.size == 12,
    ensures
        items@ == elements(bytes@, *layout, |b: Seq<u8>, at: int| rgb_at(b, at)),
{
    let mut items: Vec<Vec4> = Vec::new();
    let mut i: usize = 0;
    while i < layout.count
        invariant
            i <= layout.count,
            layout.fits(bytes@.len()),
            layout.size == 12,
            items@.len() == i,
            forall|k: int| 0 <= k < i ==> (#[trigger] items@[k]) == rgb_at(bytes@, layout.at(k)),
        decreases layout.count - i,
    {
        let at: usize = element_start(layout, i, bytes.len());
        items.push(
            Vec4 {
                x: read_u32(bytes, at),
                y: read_u32(bytes, at + 4),
                z: read_u32(bytes, at + 8),
                w: ONE,
            },
        );
        i = i + 1;
    }
    assert(items@ =~= elements(bytes@, *layout, |b: Seq<u8>, at: int| rgb_at(b, at)));
    items
}

/// Reads indices of one, two or four bytes.
pub fn read_indices(bytes: &Vec<u8>, layout: &Layout) -> (items: Vec<u32>)
    requires
        layout.fits(bytes@.len()),
        layout.size == 1 || layout.size == 2 || layout.size == 4,
    ensures
        items@ == elements(
            bytes@,
            *layout,
            |b: Seq<u8>, at: int| index_at(b, at, layout.size as nat),
        ),
{
    let mut items: Vec<u32> = Vec::new();
    let mut i: usize = 0;
    while i < layout.count
        invariant
            i <= layout.count,
            layout.fits(bytes@.len()),
            layout.size == 1 || layout.size == 2 || layout.size == 4,
            items@.len() == i,
            forall|k: int|
                0 <= k < i ==> (#[trigger] items@[k]) == index_at(
                    bytes@,
                    layout.at(k),
                    layout.size as nat,
                ),
        decreases layout.count - i,
    {
        let at: usize = element_start(layout, i, bytes.len());
        let index: u32 = if layout.size == 1 {
            bytes[at] as u32
        } else if layout.size == 2 {
            read_u16(bytes, at) as u32
        } else {
            read_u32(bytes, at)
        };
        items.push(index);
        i = i + 1;
    }
    assert(items@ =~= elements(
        bytes@,
        *layout,
        |b: Seq<u8>, at: int| index_at(b, at, layout.size as nat),
    ));
    items
}

/// Whether the indices grow from each to the next and all stay below
/// `bound`.
pub open spec fn increasing_below(indices: Seq<u32>, bound: nat) -> bool {
    &&& forall|j: int, k: int|
        0 <= j < k < indices.len() ==> (#[trigger] indices[j]) < (#[trigger] indices[k])
    &&& forall|k: int| 0 <= k < indices.len() ==> (#[trigger] indices[k]) < bound
}

/// Which of the sparse values replaces element `i`, if one does.
pub open spec fn replacement(indices: Seq<u32>, i: int) -> Option<int> {
    if exists|k: int| 0 <= k < indices.len() && (#[trigger] indices[k]) == i {
        Some(choose|k: int| 0 <= k < indices.len() && (#[trigger] indices[k]) == i)
    } else {
        None
    }
}

/// The bytes of element `i` of a sparse accessor: those of the value that
/// replaces it, or else those that the accessor's own view holds, or else
/// zeros.
pub open spec fn patch(
    own: Option<(Seq<u8>, Layout)>,
    indices: Seq<u32>,
    values: (Seq<u8>, Layout),
    size: nat,
    i: int,
) -> Seq<u8> {
    match replacement(indices, i) {
        Some(k) => values.0.subrange(values.1.at(k), values.1.at(k) + size),
        None => match own {
            Some((bytes, layout)) => bytes.subrange(layout.at(i), layout.at(i) + size),
            None => Seq::new(size, |o: int| 0u8),
        },
    }
}

/// The bytes of the first `count` elements of a sparse accessor, one
/// element after the other without a gap.
pub open spec fn patched(
    own: Option<(Seq<u8>, Layout)>,
    indices: Seq<u32>,
    values: (Seq<u8>, Layout),
    size: nat,
    count: nat,
) -> Seq<u8>
    decreases count,
{
    if count == 0 {
        Seq::empty()
    } else {
        patched(own, indices, values, size, (count - 1) as nat) + patch(
            own,
            indices,
            values,
            size,
            count - 1,
        )
    }
}

/// The layout of `count` elements of `size` bytes that follow each other
/// without a gap from the first byte on.
pub open spec fn packed(count: usize, size: usize) -> Layout {
    Layout { buffer: 0, start: 0, stride: size, count, size }
}

/// An index of a sparse accessor is a single unsigned integer.
pub open spec fn is_sparse_index(component: ComponentType) -> bool {
    component == ComponentType::U8 || component == ComponentType::U16 || component
        == ComponentType::U32
}

/// The bytes that hold the elements of an accessor, and where the elements
/// lie in them; `None` for an accessor that has neither a view nor a sparse
/// part.
///
/// Without a sparse part these are the bytes of the accessor's buffer and
/// the layout of its view. With one, the elements are laid out anew, each
/// taken from the sparse values where its index is listed and from the
/// accessor's view, or from zeros, where it is not.
///
/// The sparse indices must be unsigned integers, grow from each to the
/// next and name elements of the accessor; an accessor that breaks this is
/// a read error, and so is one whose elements cannot be addressed. The
/// faults that `placed` finds in the three ranges count as they do there.
pub open spec fn data_of(
    accessor: SourceAccessor,
    views: Seq<SourceView>,
    buffers: Seq<Vec<u8>>,
) -> Result<Option<(Seq<u8>, Layout)>, GltfSceneError> {
    match layout_of(accessor, views, buffers) {
        Err(e) => Err(e),
        Ok(own) => {
            let held = match own {
                Some(layout) => Some((buffers[layout.buffer as int]@, layout)),
                None => None,
            };
            match accessor.sparse {
                None => Ok(held),
                Some(sparse) => {
                    let size = accessor.element_bytes();
                    if accessor.count == 0 || accessor.count * size > usize::MAX
                        || !is_sparse_index(sparse.index_type) {
                        Err(GltfSceneError::PrimitiveRead)
                    } else {
                        match placed(
                            views,
                            buffers,
                            sparse.indices_view,
                            sparse.indices_offset,
                            sparse.count,
                            sparse.index_type.width(),
                        ) {
                            Err(e) => Err(e),
                            Ok(at) => match placed(
                                views,
                                buffers,
                                sparse.values_view,
                                sparse.values_offset,
                                sparse.count,
                                size,
                            ) {
                                Err(e) => Err(e),
                                Ok(from) => {
                                    let indices = elements(
                                        buffers[at.buffer as int]@,
                                        at,
                                        |b: Seq<u8>, i: int| index_at(b, i, at.size as nat),
                                    );
                                    if increasing_below(indices, accessor.count as nat) {
                                        Ok(
                                            Some(
                                                (
                                                    patched(
                                                        held,
                                                        indices,
                                                        (buffers[from.buffer as int]@, from),
                                                        size,
                                                        accessor.count as nat,
                                                    ),
                                                    packed(accessor.count, size as usize),
                                                ),
                                            ),
                                        )
                                    } else {
                                        Err(GltfSceneError::PrimitiveRead)
                                    }
                                },
                            },
                        }
                    }
                },
            }
        },
    }
}

/// The elements of an accessor, ready to be read: a layout, and the bytes
/// that it lies in when they are not those of a buffer.
#[derive(Debug)]
pub struct ElementData {
    pub layout: Layout,
    /// The elements laid out anew, for an accessor with a sparse part.
    pub patched: Option<Vec<u8>>,
}

impl ElementData {
    /// The bytes that the layout lies in.
    pub open spec fn bytes(self, buffers: Seq<Vec<u8>>) -> Seq<u8> {
        match self.patched {
            Some(bytes) => bytes@,
            None => buffers[self.layout.buffer as int]@,
        }
    }

    /// The layout lies in the bytes, and they are at hand.
    pub open spec fn ready(self, buffers: Seq<Vec<u8>>) -> bool {
        &&& self.patched is None ==> self.layout.buffer < buffers.len()
        &&& self.layout.fits(self.bytes(buffers).len())
    }

    /// The bytes that the layout lies in.
    pub fn source<'a>(&'a self, buffers: &'a Vec<Vec<u8>>) -> (bytes: &'a Vec<u8>)
        requires
            self.ready(buffers@),
        ensures
            bytes@ == self.bytes(buffers@),
    {
        match &self.patched {
            Some(bytes) => bytes,
            None => &buffers[self.layout.buffer],
        }
    }
}

/// Whether the indices grow from each to the next and all stay below
/// `bound`.
fn check_increasing_below(indices: &Vec<u32>, bound: usize) -> (ok: bool)
    ensures
        ok == increasing_below(indices@, bound as nat),
{
    let mut i: usize = 0;
    while i < indices.len()
        invariant
            i <= indices@.len(),
            increasing_below(indices@.take(i as int), bound as nat),
        decreases indices@.len() - i,
    {
        let index: u32 = indices[i];
        if index as usize >= bound || (i > 0 && indices[i - 1] >= index) {
            assert(!increasing_below(indices@, bound as nat)) by {
                if increasing_below(indices@, bound as nat) {
                    assert(indices@[i as int] < bound);
                    if i > 0 {
                        assert(indices@[i - 1] < indices@[i as int]);
                    }
                }
            }
            return false;
        }
        proof {
            let before = indices@.take(i as int);
            let now = indices@.take(i + 1);
            assert forall|j: int, k: int| 0 <= j < k < now.len() implies (#[trigger] now[j]) < (
            #[trigger] now[k]) by {
                if k < i {
                    assert(before[j] < before[k]);
                } else if j < i - 1 {
                    assert(before[j] < before[i - 1]);
                }
            }
            assert forall|k: int| 0 <= k < now.len() implies (#[trigger] now[k]) < bound by {
                if k < i {
                    assert(before[k] < bound);
                }
            }
        }
        i = i + 1;
    }
    assert(indices@.take(i as int) =~= indices@);
    true
}

/// Appends `size` bytes of `from`, those from `at` on.
fn append_bytes(out: &mut Vec<u8>, from: &Vec<u8>, at: usize, size: usize)
    requires
        at + size <= from@.len(),
    ensures
        final(out)@ == old(out)@ + from@.subrange(at as int, at + size),
{
    let length: usize = from.len();
    let mut o: usize = 0;
    while o < size
        invariant
            o <= size,
            at + size <= length,
            length == from@.len(),
            out@ == old(out)@ + from@.subrange(at as int, at + o),
        decreases size - o,
    {
        out.push(from[at + o]);
        o = o + 1;
        assert(out@ =~= old(out)@ + from@.subrange(at as int, at + o));
    }
}

/// Appends `size` zero bytes.
fn append_zeros(out: &mut Vec<u8>, size: usize)
    ensures
        final(out)@ == old(out)@ + Seq::new(size as nat, |o: int| 0u8),
{
    let mut o: usize = 0;
    while o < size
        invariant
            o <= size,
            out@ == old(out)@ + Seq::new(o as nat, |k: int| 0u8),
        decreases size - o,
    {
        out.push(0);
        o = o + 1;
        assert(out@ =~= old(out)@ + Seq::new(o as nat, |k: int| 0u8));
    }
}

/// Lays the elements of a sparse accessor out anew.
fn patch_elements(
    buffers: &Vec<Vec<u8>>,
    own: Option<Layout>,
    indices: &Vec<u32>,
    from: &Layout,
    size: usize,
    count: usize,
) -> (out: Vec<u8>)
    requires
        1 <= size,
        count * size <= usize::MAX,
        increasing_below(indices@, count as nat),
        own matches Some(l) ==> l.buffer < buffers@.len() && l.count == count && l.size == size
            && l.fits(buffers@[l.buffer as int]@.len()),
        from.buffer < buffers@.len(),
        from.count == indices@.len(),
        from.size == size,
        from.fits(buffers@[from.buffer as int]@.len()),
    ensures
        out@ == patched(
            match own {
                Some(l) => Some((buffers@[l.buffer as int]@, l)),
                None => None,
            },
            indices@,
            (buffers@[from.buffer as int]@, *from),
            size as nat,
            count as nat,
        ),
        out@.len() == count * size,
{
    let ghost held: Option<(Seq<u8>, Layout)> = match own {
        Some(l) => Some((buffers@[l.buffer as int]@, l)),
        None => None,
    };
    let ghost values = (buffers@[from.buffer as int]@, *from);
    let mut out: Vec<u8> = Vec::new();
    let mut k: usize = 0;
    let mut i: usize = 0;
    assert(0 * size == 0) by (nonlinear_arith);
    while i < count
        invariant
            i <= count,
            k <= indices@.len(),
            1 <= size,
            increasing_below(indices@, count as nat),
            forall|j: int| 0 <= j < k ==> (#[trigger] indices@[j]) < i,
            k < indices@.len() ==> indices@[k as int] >= i,
            held == (match own {
                Some(l) => Some((buffers@[l.buffer as int]@, l)),
                None => None,
            }),
            values == (buffers@[from.buffer as int]@, *from),
            own matches Some(l) ==> l.buffer < buffers@.len() && l.count == count && l.size == size
                && l.fits(buffers@[l.buffer as int]@.len()),
            from.buffer < buffers@.len(),
            from.count == indices@.len(),
            from.size == size,
            from.fits(buffers@[from.buffer as int]@.len()),
            out@ == patched(held, indices@, values, size as nat, i as nat),
            out@.len() == i * size,
        decreases count - i,
    {
        let ghost before = out@;
        let replaced: bool = k < indices.len() && indices[k] as usize == i;
        proof {
            if replaced {
                let c = choose|c: int| 0 <= c < indices@.len() && (#[trigger] indices@[c]) == i;
                if c < k {
                    assert(indices@[c] < indices@[k as int]);
                } else if c > k {
                    assert(indices@[k as int] < indices@[c]);
                }
                assert(replacement(indices@, i as int) == Some(k as int));
            } else {
                assert forall|c: int| 0 <= c < indices@.len() implies (#[trigger] indices@[c])
                    != i by {
                    if c > k {
                        assert(indices@[k as int] < indices@[c]);
                    }
                }
                assert(replacement(indices@, i as int) is None);
            }
        }
        if replaced {
            let bytes: &Vec<u8> = &buffers[from.buffer];
            let at: usize = element_start(from, k, bytes.len());
            append_bytes(&mut out, bytes, at, size);
            k = k + 1;
            proof {
                if k < indices@.len() {
                    assert(indices@[k - 1] < indices@[k as int]);
                }
            }
        } else {
            match own {
                Some(layout) => {
                    let bytes: &Vec<u8> = &buffers[layout.buffer];
                    let at: usize = element_start(&layout, i, bytes.len());
                    append_bytes(&mut out, bytes, at, size);
                },
                None => {
                    append_zeros(&mut out, size);
                },
            }
        }
        assert(out@ == before + patch(held, indices@, values, size as nat, i as int));
        assert((i + 1) * size == i * size + size) by (nonlinear_arith);
        i = i + 1;
    }
    out
}

/// Finds the bytes that hold the elements of an accessor, laying them out
/// anew where the accessor has a sparse part.
pub fn resolve_data(accessor: &SourceAccessor, views: &Vec<SourceView>, buffers: &Vec<Vec<u8>>) -> (data:
    Result<Option<ElementData>, GltfSceneError>)
    ensures
        match data {
            Ok(Some(d)) => data_of(*accessor, views@, buffers@) == Ok::<_, GltfSceneError>(
                Some((d.bytes(buffers@), d.layout)),
            ) && d.ready(buffers@) && d.layout.count == accessor.count && d.layout.size
                == accessor.element_bytes(),
            Ok(None) => data_of(*accessor, views@, buffers@) == Ok::<
                Option<(Seq<u8>, Layout)>,
                GltfSceneError,
            >(None),
            Err(e) => data_of(*accessor, views@, buffers@) == Err::<Option<(Seq<u8>, Layout)>, _>(e),
        },
{
    let own: Option<Layout> = match resolve(accessor, views, buffers) {
        Err(e) => {
            return Err(e);
        },
        Ok(own) => own,
    };
    let sparse: SourceSparse = match accessor.sparse {
        Some(sparse) => sparse,
        None => {
            return match own {
                Some(layout) => Ok(Some(ElementData { layout, patched: None })),
                None => Ok(None),
            };
        },
    };
    let size: usize = accessor.element_size();
    let count: usize = accessor.count;
    let index_ok: bool = sparse.index_type == ComponentType::U8 || sparse.index_type
        == ComponentType::U16 || sparse.index_type == ComponentType::U32;
    if count == 0 || count > usize::MAX / size || !index_ok {
        proof {
            if count > usize::MAX / size {
                assert(count * size > usize::MAX) by (nonlinear_arith)
                    requires
                        count > usize::MAX / size,
                        size >= 1,
                ;
            }
        }
        return Err(GltfSceneError::PrimitiveRead);
    }
    assert(count * size <= usize::MAX) by (nonlinear_arith)
        requires
            count <= usize::MAX / size,
            size >= 1,
    ;
    let at: Layout = match place(
        views,
        buffers,
        sparse.indices_view,
        sparse.indices_offset,
        sparse.count,
        sparse.index_type.size(),
    ) {
        Err(e) => {
            return Err(e);
        },
        Ok(at) => at,
    };
    let from: Layout = match place(
        views,
        buffers,
        sparse.values_view,
        sparse.values_offset,
        sparse.count,
        size,
    ) {
        Err(e) => {
            return Err(e);
        },
        Ok(from) => from,
    };
    let indices: Vec<u32> = read_indices(&buffers[at.buffer], &at);
    if !check_increasing_below(&indices, count) {
        return Err(GltfSceneError::PrimitiveRead);
    }
    let bytes: Vec<u8> = patch_elements(buffers, own, &indices, &from, size, count);
    let layout = Layout { buffer: 0, start: 0, stride: size, count, size };
    assert((count - 1) * size + size == count * size) by (nonlinear_arith);
    Ok(Some(ElementData { layout, patched: Some(bytes) }))
}

} // verus!
