//! The render-backend abstraction the core hands its vertex streams to:
//! a backend-neutral description of vertex buffer layouts, and the small
//! capability interface a graphics backend implements. The core's meshing
//! logic never depends on which backend sits behind it.

use vstd::prelude::*;

verus! {

/// Which backend a caller asks for.
#[derive(Clone, Copy, PartialEq, Eq, Structural, Debug)]
pub enum ApiCreateInfo {
    VK,
    GL,
}

/// What a pipeline is built from; opaque to the core.
pub struct PipelineInfo {
    pub a: i32,
}

/// The capability interface a render backend implements: resources are
/// plain integer handles, and the core never sees past them.
pub trait Api {
    fn create_pipeline(&self, pipeline_info: PipelineInfo) -> Result<u32, ()>;

    fn destroy_pipeline(&self, pipeline: u32) -> Result<(), ()>;

    fn draw(&self, start: i32, end: i32);

    fn draw_indexed(&self, start: i32, end: i32);

    fn create_buffer(&self, buffer_info: u32) -> Result<u32, ()>;

    fn destroy_buffer(&self, buffer: u32) -> Result<(), ()>;
}

/// The scalar type of one vertex attribute.
#[derive(Clone, Copy, PartialEq, Eq, Structural, Debug)]
pub enum BufferElementType {
    I32,
    U32,
    F32,
}

impl BufferElementType {
    pub open spec fn spec_size(self) -> int {
        4
    }

    /// Bytes of one scalar of this type.
    pub fn size(&self) -> (r: usize)
        ensures
            r == self.spec_size(),
    {
        match self {
            Self::I32 => 4,
            Self::U32 => 4,
            Self::F32 => 4,
        }
    }

    /// Whether the attribute is handed to the shader as an integer.
    pub fn is_integral(&self) -> (r: bool)
        ensures
            r == (*self == BufferElementType::I32 || *self == BufferElementType::U32),
    {
        if let Self::I32 | Self::U32 = self {
            true
        } else {
            false
        }
    }
}

/// One vertex attribute: its scalar type, how many scalars, and whether
/// the backend should normalize them.
pub struct BufferElement {
    pub element_type: BufferElementType,
    pub quantity: usize,
    pub normalized: bool,
}

/// The byte size of the attributes of `s`, in order.
pub open spec fn spec_layout_size(s: Seq<BufferElement>) -> int
    decreases s.len(),
{
    if s.len() == 0 {
        0
    } else {
        spec_layout_size(s.drop_last()) + s.last().quantity * s.last().element_type.spec_size()
    }
}

/// The attributes of one vertex, in order; their total byte size is the
/// buffer's stride.
pub struct BufferLayout {
    pub elements: Vec<BufferElement>,
}

impl BufferLayout {
    /// An empty layout with no attributes.
    pub fn new() -> (r: BufferLayout)
        ensures
            r.elements@ =~= Seq::<BufferElement>::empty(),
    {
        BufferLayout { elements: Vec::new() }
    }

    /// Appends one attribute.
    pub fn add(&mut self, element: BufferElement)
        ensures
            final(self).elements@ == old(self).elements@.push(element),
    {
        self.elements.push(element);
    }

    /// The stride in bytes of one vertex under this layout.
    pub fn size(&self) -> (r: usize)
        requires
            spec_layout_size(self.elements@) <= usize::MAX,
        ensures
            r == spec_layout_size(self.elements@),
    {
        let mut size: usize = 0;
        let mut i: usize = 0;
        proof {
            assert(self.elements@.take(0) =~= Seq::<BufferElement>::empty());
            lemma_layout_size_monotonic(self.elements@, 0);
        }
        while i < self.elements.len()
            invariant
                i <= self.elements@.len(),
                spec_layout_size(self.elements@) <= usize::MAX,
                size == spec_layout_size(self.elements@.take(i as int)),
            decreases self.elements@.len() - i,
        {
            let element = &self.elements[i];
            proof {
                let t1 = self.elements@.take(i as int + 1);
                assert(t1.drop_last() =~= self.elements@.take(i as int));
                assert(t1.last() == self.elements@[i as int]);
                lemma_layout_size_monotonic(self.elements@, i as int + 1);
            }
            size = size + element.quantity * element.element_type.size();
            i += 1;
        }
        proof {
            assert(self.elements@.take(self.elements@.len() as int) =~= self.elements@);
        }
        size
    }
}

/// Attribute sizes are non-negative, so every prefix of a layout is no
/// larger than the whole.
proof fn lemma_layout_size_monotonic(s: Seq<BufferElement>, i: int)
    requires
        0 <= i <= s.len(),
    ensures
        0 <= spec_layout_size(s.take(i)),
        spec_layout_size(s.take(i)) <= spec_layout_size(s),
    decreases s.len() - i,
{
    lemma_layout_size_nonneg(s.take(i));
    if i < s.len() {
        lemma_layout_size_monotonic(s, i + 1);
        let t1 = s.take(i + 1);
        assert(t1.drop_last() =~= s.take(i));
        assert(t1.last() == s[i]);
    } else {
        assert(s.take(i) =~= s);
    }
}

proof fn lemma_layout_size_nonneg(s: Seq<BufferElement>)
    ensures
        0 <= spec_layout_size(s),
    decreases s.len(),
{
    if s.len() > 0 {
        lemma_layout_size_nonneg(s.drop_last());
    }
}

} // verus!
