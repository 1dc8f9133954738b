//! The scene description: an immutable, already-parsed graph of resource and
//! job declarations, with all cross-references by name. Also the small device
//! facts the planner needs: copy-alignment limits, memory types, and the
//! image access/layout states between which barriers move.
use vstd::prelude::*;

use crate::errors::SceneError;
use crate::table::Table;

verus! {

// Image access masks, as the device abstraction defines them.
pub const ACCESS_NONE: u32 = 0;
pub const ACCESS_SHADER_READ: u32 = 0x20;
pub const ACCESS_COLOR_ATTACHMENT_WRITE: u32 = 0x100;
pub const ACCESS_DEPTH_STENCIL_ATTACHMENT_WRITE: u32 = 0x400;
pub const ACCESS_TRANSFER_READ: u32 = 0x800;
pub const ACCESS_TRANSFER_WRITE: u32 = 0x1000;

// Memory property masks.
pub const MEMORY_DEVICE_LOCAL: u32 = 0x1;
pub const MEMORY_CPU_VISIBLE: u32 = 0x2;
pub const MEMORY_CPU_CACHED: u32 = 0x8;

/// The layout an image resides in.
#[derive(Clone, Copy, PartialEq, Eq, Structural, Debug)]
pub enum ImageLayout {
    Undefined,
    ColorAttachmentOptimal,
    DepthStencilAttachmentOptimal,
    ShaderReadOnlyOptimal,
    TransferSrcOptimal,
    TransferDstOptimal,
}

/// An image state: the access rights and layout an image holds at a point in
/// time. An image's *stable state* is the state it is guaranteed to be in
/// whenever it is not inside a transient operation.
#[derive(Clone, Copy, PartialEq, Eq, Structural, Debug)]
pub struct ImageState {
    pub access: u32,
    pub layout: ImageLayout,
}

/// Width, height and depth of an image, in pixels.
#[derive(Clone, Copy, PartialEq, Eq, Structural, Debug)]
pub struct Dimensions {
    pub width: u32,
    pub height: u32,
    pub depth: u32,
}

/// A pixel format, described by its bit depths: the total bits per pixel and
/// how many of them carry color (zero for depth/stencil formats).
#[derive(Clone, Copy, PartialEq, Eq, Structural, Debug)]
pub struct PixelFormat {
    pub total_bits: u8,
    pub color_bits: u8,
}

/// Device copy-alignment constraints consulted by the planner.
#[derive(Clone, Copy, PartialEq, Eq, Structural, Debug)]
pub struct DeviceLimits {
    pub min_buffer_copy_pitch_alignment: u64,
}

/// One memory type the device offers.
#[derive(Clone, Copy, PartialEq, Eq, Structural, Debug)]
pub struct MemoryType {
    pub id: u32,
    pub properties: u32,
}

/// A subresource range selecting mip levels and array layers of an image.
#[derive(Clone, Copy, PartialEq, Eq, Structural, Debug)]
pub struct SubresourceRange {
    pub aspects: u32,
    pub level_start: u32,
    pub level_end: u32,
    pub layer_start: u32,
    pub layer_end: u32,
}

/// What the device should do with an attachment's contents, passed through
/// to render-pass creation.
#[derive(Clone, Copy, PartialEq, Eq, Structural, Debug)]
pub struct AttachmentDesc {
    pub format: PixelFormat,
    pub ops: u32,
}

/// A subpass declaration: attachment references by name, with the layout
/// each is used in, and a list of attachments to preserve.
pub struct SubpassDesc {
    pub colors: Vec<(String, ImageLayout)>,
    pub depth_stencil: Option<(String, ImageLayout)>,
    pub inputs: Vec<(String, ImageLayout)>,
    pub preserves: Vec<String>,
}

/// An inter-subpass dependency edge; an empty subpass name means the edge
/// reaches outside the render pass.
pub struct DependencyDesc {
    pub from_pass: String,
    pub to_pass: String,
    pub stages: (u32, u32),
    pub accesses: (u32, u32),
}

/// One descriptor binding of a set layout, passed through to the device.
#[derive(Clone, Copy, PartialEq, Eq, Structural, Debug)]
pub struct DescriptorBinding {
    pub binding: u32,
    pub ty: u32,
    pub count: u32,
}

/// A per-type capacity range of a descriptor pool.
#[derive(Clone, Copy, PartialEq, Eq, Structural, Debug)]
pub struct PoolRange {
    pub ty: u32,
    pub count: u32,
}

/// A resource declaration, keyed by name in the description.
pub enum Resource {
    Buffer,
    Image {
        dims: Dimensions,
        levels: u8,
        format: PixelFormat,
        usage: u32,
        /// Name of a raw pixel file to upload, or empty for no initial data.
        data: String,
    },
    RenderPass {
        attachments: Vec<(String, AttachmentDesc)>,
        subpasses: Vec<(String, SubpassDesc)>,
        dependencies: Vec<DependencyDesc>,
    },
    DescriptorSetLayout {
        bindings: Vec<DescriptorBinding>,
    },
    DescriptorPool {
        capacity: u32,
        ranges: Vec<PoolRange>,
    },
    ImageView {
        image: String,
        format: PixelFormat,
        swizzle: u32,
        range: SubresourceRange,
    },
    DescriptorSet {
        pool: String,
        layout: String,
    },
    PipelineLayout {
        set_layouts: Vec<String>,
    },
    Framebuffer {
        pass: String,
        views: Vec<(String, String)>,
        extent: Dimensions,
    },
}

/// A clear value for one attachment, passed through as raw words.
#[derive(Clone, Copy, PartialEq, Eq, Structural, Debug)]
pub struct ClearValue {
    pub word0: u32,
    pub word1: u32,
    pub word2: u32,
    pub word3: u32,
}

/// One draw-level command of a graphics job.
pub enum DrawCommand {
    BindIndexBuffer { buffer: String, offset: u64, index_type: u32 },
    BindVertexBuffers { buffers: Vec<(String, u64)> },
    BindPipeline { pipeline: String },
    BindDescriptorSets { layout: String, first: u32, sets: Vec<String> },
    Draw { vertex_start: u32, vertex_count: u32, instance_start: u32, instance_count: u32 },
    DrawIndexed {
        index_start: u32,
        index_count: u32,
        base_vertex: i32,
        instance_start: u32,
        instance_count: u32,
    },
}

/// One command of a transfer job.
pub enum TransferCommand {
    CopyBufferToImage,
}

/// The ordered draw commands one subpass of a job records.
pub struct SubpassJob {
    pub commands: Vec<DrawCommand>,
}

/// A job declaration, keyed by name in the description.
pub enum Job {
    Transfer {
        commands: Vec<TransferCommand>,
    },
    Graphics {
        descriptors: Vec<(String, String)>,
        framebuffer: String,
        pass: String,
        subpasses: Vec<(String, SubpassJob)>,
        clear_values: Vec<ClearValue>,
    },
}

/// The whole scene description: resources and jobs, each keyed by a name
/// unique within its table.
pub struct SceneDesc {
    pub resources: Table<Resource>,
    pub jobs: Table<Job>,
}

/// The stable state an image settles into: uploaded images rest readable by
/// shaders; images without initial data rest as attachments, chosen by
/// whether the format carries color.
pub open spec fn stable_state_spec(format: PixelFormat, has_data: bool) -> ImageState {
    if has_data {
        ImageState { access: ACCESS_SHADER_READ, layout: ImageLayout::ShaderReadOnlyOptimal }
    } else if format.color_bits != 0 {
        ImageState {
            access: ACCESS_COLOR_ATTACHMENT_WRITE,
            layout: ImageLayout::ColorAttachmentOptimal,
        }
    } else {
        ImageState {
            access: ACCESS_DEPTH_STENCIL_ATTACHMENT_WRITE,
            layout: ImageLayout::DepthStencilAttachmentOptimal,
        }
    }
}

/// Chooses the stable state for an image from its format and whether it is
/// uploaded with initial data.
pub fn stable_state_for(format: PixelFormat, has_data: bool) -> (r: ImageState)
    ensures
        r == stable_state_spec(format, has_data),
{
    if has_data {
        ImageState { access: ACCESS_SHADER_READ, layout: ImageLayout::ShaderReadOnlyOptimal }
    } else if format.color_bits != 0 {
        ImageState {
            access: ACCESS_COLOR_ATTACHMENT_WRITE,
            layout: ImageLayout::ColorAttachmentOptimal,
        }
    } else {
        ImageState {
            access: ACCESS_DEPTH_STENCIL_ATTACHMENT_WRITE,
            layout: ImageLayout::DepthStencilAttachmentOptimal,
        }
    }
}

/// Whether a memory type has all the wanted property bits.
pub open spec fn has_properties(mt: MemoryType, props: u32) -> bool {
    mt.properties & props == props
}

/// Whether a memory type is admitted by a requirement mask from the device.
pub open spec fn in_type_mask(mt: MemoryType, type_mask: u32) -> bool {
    mt.id < 32 && type_mask & (1u32 << mt.id) != 0
}

/// Picks the first memory type admitted by the requirement mask that has all
/// the wanted properties; fails when none qualifies.
pub fn choose_memory_type(types: &Vec<MemoryType>, type_mask: u32, props: u32) -> (r: Result<
    usize,
    SceneError,
>)
    ensures
        match r {
            Ok(i) => {
                &&& i < types@.len()
                &&& in_type_mask(types@[i as int], type_mask)
                &&& has_properties(types@[i as int], props)
                &&& forall|j: int|
                    0 <= j < i ==> !(in_type_mask(#[trigger] types@[j], type_mask)
                        && has_properties(types@[j], props))
            },
            Err(e) => {
                &&& e == SceneError::UnsupportedMemoryType
                &&& forall|j: int|
                    0 <= j < types@.len() ==> !(in_type_mask(#[trigger] types@[j], type_mask)
                        && has_properties(types@[j], props))
            },
        },
{
    let n = types.len();
    let mut i: usize = 0;
    while i < n
        invariant
            n == types@.len(),
            i <= n,
            forall|j: int|
                0 <= j < i ==> !(in_type_mask(#[trigger] types@[j], type_mask) && has_properties(
                    types@[j],
                    props,
                )),
        decreases n - i,
    {
        let mt = types[i];
        if mt.id < 32 && type_mask & (1u32 << mt.id) != 0 && mt.properties & props == props {
            return Ok(i);
        }
        i += 1;
    }
    Err(SceneError::UnsupportedMemoryType)
}

/// Picks the memory type uploads are staged in: the first that the host can
/// see.
pub fn choose_upload_type(types: &Vec<MemoryType>) -> (r: Result<usize, SceneError>)
    ensures
        match r {
            Ok(i) => i < types@.len() && has_properties(types@[i as int], MEMORY_CPU_VISIBLE),
            Err(e) => {
                &&& e == SceneError::UnsupportedMemoryType
                &&& forall|j: int|
                    0 <= j < types@.len() && (#[trigger] types@[j]).id < 32 ==> !has_properties(
                        types@[j],
                        MEMORY_CPU_VISIBLE,
                    )
            },
        },
{
    let r = choose_memory_type(types, 0xffff_ffff, MEMORY_CPU_VISIBLE);
    proof {
        assert forall|j: int| 0 <= j < types@.len() && (#[trigger] types@[j]).id < 32 implies
            in_type_mask(types@[j], 0xffff_ffffu32) by {
            let id = types@[j].id;
            assert(0xffff_ffffu32 & (1u32 << id) != 0) by (bit_vector)
                requires
                    id < 32,
            ;
        }
    }
    r
}

/// Picks the memory type read-backs land in: the first that the host can see
/// and cache.
pub fn choose_download_type(types: &Vec<MemoryType>) -> (r: Result<usize, SceneError>)
    ensures
        match r {
            Ok(i) => i < types@.len() && has_properties(
                types@[i as int],
                MEMORY_CPU_VISIBLE | MEMORY_CPU_CACHED,
            ),
            Err(e) => {
                &&& e == SceneError::UnsupportedMemoryType
                &&& forall|j: int|
                    0 <= j < types@.len() && (#[trigger] types@[j]).id < 32 ==> !has_properties(
                        types@[j],
                        MEMORY_CPU_VISIBLE | MEMORY_CPU_CACHED,
                    )
            },
        },
{
    let r = choose_memory_type(types, 0xffff_ffff, MEMORY_CPU_VISIBLE | MEMORY_CPU_CACHED);
    proof {
        assert forall|j: int| 0 <= j < types@.len() && (#[trigger] types@[j]).id < 32 implies
            in_type_mask(types@[j], 0xffff_ffffu32) by {
            let id = types@[j].id;
            assert(0xffff_ffffu32 & (1u32 << id) != 0) by (bit_vector)
                requires
                    id < 32,
            ;
        }
    }
    r
}

} // verus!
