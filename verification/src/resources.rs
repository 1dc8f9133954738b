//! The built resource table: for every declared resource, the realized entry
//! the device will be driven with, with every name reference resolved. Subpass
//! and attachment references resolve to *positions* in the render pass's
//! declared order, fixed once at build time.
use vstd::prelude::*;

use crate::align_spec;
use crate::desc::{
    AttachmentDesc, DependencyDesc, DeviceLimits, Dimensions, ImageLayout, ImageState, PixelFormat,
    SubresourceRange, SubpassDesc,
};
use crate::desc::stable_state_spec;
use crate::errors::SceneError;
use crate::table::Table;

verus! {

/// The index of the first entry carrying a name, if any.
pub open spec fn pair_position<T>(s: Seq<(String, T)>, k: Seq<char>) -> Option<int>
    decreases s.len(),
{
    if s.len() == 0 {
        None
    } else if s[0].0@ == k {
        Some(0int)
    } else {
        match pair_position(s.subrange(1, s.len() as int), k) {
            Some(i) => Some(i + 1),
            None => None,
        }
    }
}

/// What `pair_position` finds: the first entry with the name, or a promise
/// that no entry carries it.
pub proof fn lemma_pair_position<T>(s: Seq<(String, T)>, k: Seq<char>)
    ensures
        match pair_position(s, k) {
            Some(i) => 0 <= i < s.len() && s[i].0@ == k && forall|j: int|
                0 <= j < i ==> #[trigger] s[j].0@ != k,
            None => forall|j: int| 0 <= j < s.len() ==> #[trigger] s[j].0@ != k,
        },
    decreases s.len(),
{
    if s.len() > 0 && s[0].0@ != k {
        let rest = s.subrange(1, s.len() as int);
        lemma_pair_position(rest, k);
        assert forall|j: int| 1 <= j < s.len() implies #[trigger] s[j].0@ == rest[j - 1].0@ by {}
    }
}

/// Finds the first entry carrying a name, with its position.
pub fn find_pair<'a, T>(entries: &'a Vec<(String, T)>, name: &str) -> (r: Option<(usize, &'a T)>)
    ensures
        match r {
            Some((i, v)) => pair_position(entries@, name@) == Some(i as int) && *v == entries@[i as int].1,
            None => pair_position(entries@, name@) is None,
        },
{
    proof {
        lemma_pair_position(entries@, name@);
    }
    let n = entries.len();
    let mut i: usize = 0;
    while i < n
        invariant
            n == entries@.len(),
            i <= n,
            forall|j: int| 0 <= j < i ==> #[trigger] entries@[j].0@ != name@,
        decreases n - i,
    {
        if crate::table::str_eq(entries[i].0.as_str(), name) {
            proof {
                lemma_pair_position(entries@, name@);
                assert(pair_position(entries@, name@) == Some(i as int));
            }
            return Some((i, &entries[i].1));
        }
        i += 1;
    }
    None
}

/// A reference to a subpass by position, or to outside the render pass.
#[derive(Clone, Copy, PartialEq, Eq, Structural, Debug)]
pub enum SubpassRef {
    External,
    Pass(usize),
}

/// A subpass with every attachment reference resolved to a position in the
/// render pass's declared attachment order.
pub struct ResolvedSubpass {
    pub colors: Vec<(usize, ImageLayout)>,
    pub depth_stencil: Option<(usize, ImageLayout)>,
    pub inputs: Vec<(usize, ImageLayout)>,
    pub preserves: Vec<usize>,
}

/// A dependency edge with both endpoints resolved.
pub struct ResolvedDependency {
    pub from_pass: SubpassRef,
    pub to_pass: SubpassRef,
    pub stages: (u32, u32),
    pub accesses: (u32, u32),
}

/// A built render pass: the device-facing resolved description plus the
/// declared attachment and subpass name orders, which later resolution and
/// job recording go by.
pub struct RenderPass {
    pub attachments: Vec<String>,
    pub subpasses: Vec<String>,
    pub attachment_descs: Vec<AttachmentDesc>,
    pub subpass_descs: Vec<ResolvedSubpass>,
    pub dependencies: Vec<ResolvedDependency>,
}

/// A built image: its geometry, its format, and the stable access/layout it
/// is guaranteed to rest in outside transient operations.
pub struct Image {
    pub dims: Dimensions,
    pub levels: u8,
    pub format: PixelFormat,
    pub usage: u32,
    pub stable_state: ImageState,
    pub has_data: bool,
}

/// A built image view.
pub struct ImageView {
    pub image: String,
    pub format: PixelFormat,
    pub swizzle: u32,
    pub range: SubresourceRange,
}

/// A built framebuffer: its render pass, the image-view name bound to each
/// attachment position in the pass's declared order, and its extent.
pub struct Framebuffer {
    pub pass: String,
    pub view_order: Vec<String>,
    pub extent: Dimensions,
}

/// A buffer entry; the builder creates none in this core, so the buffer
/// table stays empty and jobs that bind buffers fail to resolve.
pub struct BufferEntry {
    pub size: u64,
}

/// A built descriptor-set layout.
pub struct DescSetLayout {
    pub bindings: Vec<crate::desc::DescriptorBinding>,
}

/// A built descriptor pool.
pub struct DescPool {
    pub capacity: u32,
    pub ranges: Vec<crate::desc::PoolRange>,
}

/// A built descriptor set: which pool it came from, against which layout.
pub struct DescSet {
    pub pool: String,
    pub layout: String,
}

/// A built pipeline layout: the resolved list of set-layout names.
pub struct PipelineLayout {
    pub set_layouts: Vec<String>,
}

/// The resource table: every realized entry, one table per kind, keyed by
/// name.
pub struct Resources {
    pub buffers: Table<BufferEntry>,
    pub images: Table<Image>,
    pub image_views: Table<ImageView>,
    pub render_passes: Table<RenderPass>,
    pub framebuffers: Table<Framebuffer>,
    pub desc_set_layouts: Table<DescSetLayout>,
    pub desc_pools: Table<DescPool>,
    pub desc_sets: Table<DescSet>,
    pub pipeline_layouts: Table<PipelineLayout>,
}

impl Resources {
    /// Every table keyed soundly.
    pub open spec fn wf(&self) -> bool {
        &&& self.buffers.wf()
        &&& self.images.wf()
        &&& self.image_views.wf()
        &&& self.render_passes.wf()
        &&& self.framebuffers.wf()
        &&& self.desc_set_layouts.wf()
        &&& self.desc_pools.wf()
        &&& self.desc_sets.wf()
        &&& self.pipeline_layouts.wf()
    }

    /// Empty tables, before the builder runs.
    pub fn new() -> (r: Resources)
        ensures
            r.wf(),
            r.buffers.entries@.len() == 0,
            r.images.entries@.len() == 0,
            r.image_views.entries@.len() == 0,
            r.render_passes.entries@.len() == 0,
            r.framebuffers.entries@.len() == 0,
            r.desc_set_layouts.entries@.len() == 0,
            r.desc_pools.entries@.len() == 0,
            r.desc_sets.entries@.len() == 0,
            r.pipeline_layouts.entries@.len() == 0,
    {
        Resources {
            buffers: Table::new(),
            images: Table::new(),
            image_views: Table::new(),
            render_passes: Table::new(),
            framebuffers: Table::new(),
            desc_set_layouts: Table::new(),
            desc_pools: Table::new(),
            desc_sets: Table::new(),
            pipeline_layouts: Table::new(),
        }
    }
}

// ---- size arithmetic -------------------------------------------------------

/// Bytes one row of pixels occupies before padding.
pub open spec fn width_bytes_spec(format: PixelFormat, dims: Dimensions) -> int {
    format.total_bits * dims.width / 8
}

/// How many rows a linear copy of the image has: one per line of every slice.
pub open spec fn rows_spec(dims: Dimensions) -> int {
    dims.height * dims.depth
}

/// The padded byte stride between consecutive rows.
pub open spec fn row_pitch_spec(format: PixelFormat, dims: Dimensions, limits: DeviceLimits) -> int {
    align_spec(width_bytes_spec(format, dims), limits.min_buffer_copy_pitch_alignment as int)
}

/// Bytes a staging buffer for the whole image needs.
pub open spec fn buffer_size_spec(
    format: PixelFormat,
    dims: Dimensions,
    limits: DeviceLimits,
) -> int {
    row_pitch_spec(format, dims, limits) * rows_spec(dims)
}

/// The staging arithmetic for this image stays within machine bounds.
pub open spec fn image_fits(format: PixelFormat, dims: Dimensions, limits: DeviceLimits) -> bool {
    &&& row_pitch_spec(format, dims, limits) <= u64::MAX
    &&& buffer_size_spec(format, dims, limits) <= u64::MAX
}

/// A nonempty row is never shrunk by alignment: the padded pitch covers the
/// payload.
pub proof fn lemma_row_pitch_covers(format: PixelFormat, dims: Dimensions, limits: DeviceLimits)
    ensures
        width_bytes_spec(format, dims) > 0 ==> row_pitch_spec(format, dims, limits)
            >= width_bytes_spec(format, dims),
{
    let w = width_bytes_spec(format, dims);
    let a = limits.min_buffer_copy_pitch_alignment as int;
    if w > 0 && a > 0 {
        crate::lemma_align_properties(w, a);
    }
}

/// Rounds a byte size up to the pitch alignment, in the wider type staging
/// sizes are computed in.
pub fn align_u64(x: u64, y: u64) -> (r: u64)
    requires
        align_spec(x as int, y as int) <= u64::MAX,
    ensures
        r == align_spec(x as int, y as int),
{
    if x > 0 && y > 0 {
        proof {
            crate::lemma_align_properties(x as int, y as int);
            let q = (x as int - 1) / (y as int);
            vstd::arithmetic::div_mod::lemma_div_pos_is_pos(x as int - 1, y as int);
            assert((q + 1) * (y as int) >= q + 1) by (nonlinear_arith)
                requires
                    q >= 0,
                    y >= 1,
            ;
        }
        ((x - 1) / y + 1) * y
    } else {
        x
    }
}

/// The pitch arithmetic of one image, computed together: row bytes, padded
/// pitch, row count, and staging-buffer size.
pub fn staging_layout(format: PixelFormat, dims: Dimensions, limits: DeviceLimits) -> (r: (
    u64,
    u64,
    u64,
    u64,
))
    requires
        image_fits(format, dims, limits),
    ensures
        r.0 == width_bytes_spec(format, dims),
        r.1 == row_pitch_spec(format, dims, limits),
        r.2 == rows_spec(dims),
        r.3 == buffer_size_spec(format, dims, limits),
{
    proof {
        let tb = format.total_bits as int;
        let w = dims.width as int;
        let h = dims.height as int;
        let d = dims.depth as int;
        assert(tb * w <= 0xff * 0xffff_ffff && h * d <= 0xffff_ffff * 0xffff_ffff)
            by (nonlinear_arith)
            requires
                0 <= tb <= 0xff,
                0 <= w <= 0xffff_ffff,
                0 <= h <= 0xffff_ffff,
                0 <= d <= 0xffff_ffff,
        ;
    }
    let width_bytes: u64 = format.total_bits as u64 * dims.width as u64 / 8;
    proof {
        if width_bytes > 0 && limits.min_buffer_copy_pitch_alignment > 0 {
            crate::lemma_align_properties(
                width_bytes as int,
                limits.min_buffer_copy_pitch_alignment as int,
            );
        }
    }
    let row_pitch: u64 = align_u64(width_bytes, limits.min_buffer_copy_pitch_alignment);
    let rows: u64 = dims.height as u64 * dims.depth as u64;
    proof {
        assert(row_pitch * rows <= u64::MAX);
    }
    let size: u64 = row_pitch * rows;
    (width_bytes, row_pitch, rows, size)
}

// ---- per-kind resolution ---------------------------------------------------

/// The image entry an image declaration builds.
pub open spec fn image_entry_spec(
    dims: Dimensions,
    levels: u8,
    format: PixelFormat,
    usage: u32,
    has_data: bool,
) -> Image {
    Image { dims, levels, format, usage, stable_state: stable_state_spec(format, has_data), has_data }
}

/// Every reference in the list names a declared attachment.
pub open spec fn refs_resolve(
    atts: Seq<(String, AttachmentDesc)>,
    refs: Seq<(String, ImageLayout)>,
) -> bool {
    forall|i: int| 0 <= i < refs.len() ==> pair_position(atts, (#[trigger] refs[i]).0@) is Some
}

/// Every preserve name names a declared attachment.
pub open spec fn names_resolve(atts: Seq<(String, AttachmentDesc)>, names: Seq<String>) -> bool {
    forall|i: int| 0 <= i < names.len() ==> pair_position(atts, (#[trigger] names[i])@) is Some
}

/// Every attachment reference of the subpass resolves.
pub open spec fn subpass_resolves(atts: Seq<(String, AttachmentDesc)>, sp: SubpassDesc) -> bool {
    &&& refs_resolve(atts, sp.colors@)
    &&& match sp.depth_stencil {
        Some(r) => pair_position(atts, r.0@) is Some,
        None => true,
    }
    &&& refs_resolve(atts, sp.inputs@)
    &&& names_resolve(atts, sp.preserves@)
}

/// A dependency endpoint is either empty (outside the pass) or a declared
/// subpass name.
pub open spec fn dep_endpoint_resolves(subs: Seq<(String, SubpassDesc)>, name: Seq<char>) -> bool {
    name.len() == 0 || pair_position(subs, name) is Some
}

/// Every name reference inside the render-pass declaration resolves.
pub open spec fn rp_resolves(
    atts: Seq<(String, AttachmentDesc)>,
    subs: Seq<(String, SubpassDesc)>,
    deps: Seq<DependencyDesc>,
) -> bool {
    &&& forall|i: int| 0 <= i < subs.len() ==> subpass_resolves(atts, (#[trigger] subs[i]).1)
    &&& forall|i: int|
        0 <= i < deps.len() ==> dep_endpoint_resolves(subs, (#[trigger] deps[i]).from_pass@)
            && dep_endpoint_resolves(subs, deps[i].to_pass@)
}

/// The resolved reference points at the position of the named attachment.
pub open spec fn ref_resolved(
    atts: Seq<(String, AttachmentDesc)>,
    rf: (String, ImageLayout),
    out: (usize, ImageLayout),
) -> bool {
    pair_position(atts, rf.0@) == Some(out.0 as int) && out.1 == rf.1
}

/// The resolved subpass mirrors the declaration, reference by reference.
pub open spec fn subpass_resolved(
    atts: Seq<(String, AttachmentDesc)>,
    sp: SubpassDesc,
    out: ResolvedSubpass,
) -> bool {
    &&& out.colors@.len() == sp.colors@.len()
    &&& forall|i: int|
        0 <= i < sp.colors@.len() ==> ref_resolved(atts, sp.colors@[i], #[trigger] out.colors@[i])
    &&& match (sp.depth_stencil, out.depth_stencil) {
        (None, None) => true,
        (Some(r), Some(o)) => ref_resolved(atts, r, o),
        _ => false,
    }
    &&& out.inputs@.len() == sp.inputs@.len()
    &&& forall|i: int|
        0 <= i < sp.inputs@.len() ==> ref_resolved(atts, sp.inputs@[i], #[trigger] out.inputs@[i])
    &&& out.preserves@.len() == sp.preserves@.len()
    &&& forall|i: int|
        0 <= i < sp.preserves@.len() ==> pair_position(atts, sp.preserves@[i]@) == Some(
            (#[trigger] out.preserves@[i]) as int,
        )
}

/// The resolved endpoint points outside the pass for an empty name, else at
/// the named subpass's position.
pub open spec fn subpass_ref_resolved(
    subs: Seq<(String, SubpassDesc)>,
    name: Seq<char>,
    out: SubpassRef,
) -> bool {
    if name.len() == 0 {
        out == SubpassRef::External
    } else {
        match out {
            SubpassRef::Pass(i) => pair_position(subs, name) == Some(i as int),
            SubpassRef::External => false,
        }
    }
}

/// The resolved dependency mirrors the declared edge.
pub open spec fn dep_resolved(
    subs: Seq<(String, SubpassDesc)>,
    d: DependencyDesc,
    out: ResolvedDependency,
) -> bool {
    &&& subpass_ref_resolved(subs, d.from_pass@, out.from_pass)
    &&& subpass_ref_resolved(subs, d.to_pass@, out.to_pass)
    &&& out.stages == d.stages
    &&& out.accesses == d.accesses
}

/// The built render pass carries the declared attachment and subpass orders
/// and the fully resolved device-facing description.
pub open spec fn rp_entry_matches(
    atts: Seq<(String, AttachmentDesc)>,
    subs: Seq<(String, SubpassDesc)>,
    deps: Seq<DependencyDesc>,
    out: RenderPass,
) -> bool {
    &&& out.attachments@.len() == atts.len()
    &&& forall|i: int| 0 <= i < atts.len() ==> (#[trigger] out.attachments@[i])@ == atts[i].0@
    &&& out.attachment_descs@.len() == atts.len()
    &&& forall|i: int| 0 <= i < atts.len() ==> #[trigger] out.attachment_descs@[i] == atts[i].1
    &&& out.subpasses@.len() == subs.len()
    &&& forall|i: int| 0 <= i < subs.len() ==> (#[trigger] out.subpasses@[i])@ == subs[i].0@
    &&& out.subpass_descs@.len() == subs.len()
    &&& forall|i: int|
        0 <= i < subs.len() ==> subpass_resolved(atts, subs[i].1, #[trigger] out.subpass_descs@[i])
    &&& out.dependencies@.len() == deps.len()
    &&& forall|i: int|
        0 <= i < deps.len() ==> dep_resolved(subs, deps[i], #[trigger] out.dependencies@[i])
}

/// The names of a pair list, in declared order.
pub fn clone_keys<T>(entries: &Vec<(String, T)>) -> (r: Vec<String>)
    ensures
        r@.len() == entries@.len(),
        forall|i: int| 0 <= i < entries@.len() ==> (#[trigger] r@[i])@ == entries@[i].0@,
{
    let mut out: Vec<String> = Vec::new();
    let n = entries.len();
    let mut i: usize = 0;
    while i < n
        invariant
            n == entries@.len(),
            i <= n,
            out@.len() == i,
            forall|j: int| 0 <= j < i ==> (#[trigger] out@[j])@ == entries@[j].0@,
        decreases n - i,
    {
        out.push(entries[i].0.clone());
        i += 1;
    }
    out
}

fn resolve_ref_list(atts: &Vec<(String, AttachmentDesc)>, refs: &Vec<(String, ImageLayout)>) -> (r:
    Result<Vec<(usize, ImageLayout)>, SceneError>)
    ensures
        match r {
            Ok(out) => {
                &&& refs_resolve(atts@, refs@)
                &&& out@.len() == refs@.len()
                &&& forall|i: int|
                    0 <= i < refs@.len() ==> ref_resolved(atts@, refs@[i], #[trigger] out@[i])
            },
            Err(e) => e == SceneError::NameResolutionFailure && !refs_resolve(atts@, refs@),
        },
{
    let mut out: Vec<(usize, ImageLayout)> = Vec::new();
    let n = refs.len();
    let mut i: usize = 0;
    while i < n
        invariant
            n == refs@.len(),
            i <= n,
            out@.len() == i,
            forall|j: int| 0 <= j < i ==> pair_position(atts@, (#[trigger] refs@[j]).0@) is Some,
            forall|j: int| 0 <= j < i ==> ref_resolved(atts@, refs@[j], #[trigger] out@[j]),
        decreases n - i,
    {
        match find_pair(atts, refs[i].0.as_str()) {
            Some((p, _)) => {
                out.push((p, refs[i].1));
            },
            None => {
                return Err(SceneError::NameResolutionFailure);
            },
        }
        i += 1;
    }
    Ok(out)
}

fn resolve_preserve_list(atts: &Vec<(String, AttachmentDesc)>, names: &Vec<String>) -> (r: Result<
    Vec<usize>,
    SceneError,
>)
    ensures
        match r {
            Ok(out) => {
                &&& names_resolve(atts@, names@)
                &&& out@.len() == names@.len()
                &&& forall|i: int|
                    0 <= i < names@.len() ==> pair_position(atts@, names@[i]@) == Some(
                        (#[trigger] out@[i]) as int,
                    )
            },
            Err(e) => e == SceneError::NameResolutionFailure && !names_resolve(atts@, names@),
        },
{
    let mut out: Vec<usize> = Vec::new();
    let n = names.len();
    let mut i: usize = 0;
    while i < n
        invariant
            n == names@.len(),
            i <= n,
            out@.len() == i,
            forall|j: int| 0 <= j < i ==> pair_position(atts@, (#[trigger] names@[j])@) is Some,
            forall|j: int|
                0 <= j < i ==> pair_position(atts@, names@[j]@) == Some((#[trigger] out@[j]) as int),
        decreases n - i,
    {
        match find_pair(atts, names[i].as_str()) {
            Some((p, _)) => {
                out.push(p);
            },
            None => {
                return Err(SceneError::NameResolutionFailure);
            },
        }
        i += 1;
    }
    Ok(out)
}

fn resolve_subpass(atts: &Vec<(String, AttachmentDesc)>, sp: &SubpassDesc) -> (r: Result<
    ResolvedSubpass,
    SceneError,
>)
    ensures
        match r {
            Ok(out) => subpass_resolves(atts@, *sp) && subpass_resolved(atts@, *sp, out),
            Err(e) => e == SceneError::NameResolutionFailure && !subpass_resolves(atts@, *sp),
        },
{
    let colors = match resolve_ref_list(atts, &sp.colors) {
        Ok(v) => v,
        Err(e) => {
            return Err(e);
        },
    };
    let depth_stencil = match &sp.depth_stencil {
        None => None,
        Some(r) => match find_pair(atts, r.0.as_str()) {
            Some((p, _)) => Some((p, r.1)),
            None => {
                return Err(SceneError::NameResolutionFailure);
            },
        },
    };
    let inputs = match resolve_ref_list(atts, &sp.inputs) {
        Ok(v) => v,
        Err(e) => {
            return Err(e);
        },
    };
    let preserves = match resolve_preserve_list(atts, &sp.preserves) {
        Ok(v) => v,
        Err(e) => {
            return Err(e);
        },
    };
    Ok(ResolvedSubpass { colors, depth_stencil, inputs, preserves })
}

fn resolve_subpass_ref(subs: &Vec<(String, SubpassDesc)>, name: &String) -> (r: Result<
    SubpassRef,
    SceneError,
>)
    ensures
        match r {
            Ok(out) => dep_endpoint_resolves(subs@, name@) && subpass_ref_resolved(
                subs@,
                name@,
                out,
            ),
            Err(e) => e == SceneError::NameResolutionFailure && !dep_endpoint_resolves(
                subs@,
                name@,
            ),
        },
{
    if name.as_str().is_empty() {
        Ok(SubpassRef::External)
    } else {
        match find_pair(subs, name.as_str()) {
            Some((p, _)) => Ok(SubpassRef::Pass(p)),
            None => Err(SceneError::NameResolutionFailure),
        }
    }
}

/// Builds a render pass: resolves every attachment and subpass reference to
/// its position in the declared order, and keeps that order alongside.
/// Fails exactly when some reference names nothing.
pub fn resolve_render_pass(
    atts: &Vec<(String, AttachmentDesc)>,
    subs: &Vec<(String, SubpassDesc)>,
    deps: &Vec<DependencyDesc>,
) -> (r: Result<RenderPass, SceneError>)
    ensures
        match r {
            Ok(out) => rp_resolves(atts@, subs@, deps@) && rp_entry_matches(
                atts@,
                subs@,
                deps@,
                out,
            ),
            Err(e) => e == SceneError::NameResolutionFailure && !rp_resolves(atts@, subs@, deps@),
        },
{
    let mut subpass_descs: Vec<ResolvedSubpass> = Vec::new();
    let ns = subs.len();
    let mut i: usize = 0;
    while i < ns
        invariant
            ns == subs@.len(),
            i <= ns,
            subpass_descs@.len() == i,
            forall|j: int| 0 <= j < i ==> subpass_resolves(atts@, (#[trigger] subs@[j]).1),
            forall|j: int|
                0 <= j < i ==> subpass_resolved(atts@, subs@[j].1, #[trigger] subpass_descs@[j]),
        decreases ns - i,
    {
        match resolve_subpass(atts, &subs[i].1) {
            Ok(rs) => {
                subpass_descs.push(rs);
            },
            Err(e) => {
                return Err(e);
            },
        }
        i += 1;
    }
    let mut dependencies: Vec<ResolvedDependency> = Vec::new();
    let nd = deps.len();
    let mut k: usize = 0;
    while k < nd
        invariant
            nd == deps@.len(),
            k <= nd,
            dependencies@.len() == k,
            forall|j: int|
                0 <= j < k ==> dep_endpoint_resolves(subs@, (#[trigger] deps@[j]).from_pass@)
                    && dep_endpoint_resolves(subs@, deps@[j].to_pass@),
            forall|j: int|
                0 <= j < k ==> dep_resolved(subs@, deps@[j], #[trigger] dependencies@[j]),
        decreases nd - k,
    {
        let from_pass = match resolve_subpass_ref(subs, &deps[k].from_pass) {
            Ok(v) => v,
            Err(e) => {
                return Err(e);
            },
        };
        let to_pass = match resolve_subpass_ref(subs, &deps[k].to_pass) {
            Ok(v) => v,
            Err(e) => {
                return Err(e);
            },
        };
        dependencies.push(
            ResolvedDependency { from_pass, to_pass, stages: deps[k].stages, accesses: deps[k].accesses },
        );
        k += 1;
    }
    let mut attachment_descs: Vec<AttachmentDesc> = Vec::new();
    let na = atts.len();
    let mut a: usize = 0;
    while a < na
        invariant
            na == atts@.len(),
            a <= na,
            attachment_descs@.len() == a,
            forall|j: int| 0 <= j < a ==> #[trigger] attachment_descs@[j] == atts@[j].1,
        decreases na - a,
    {
        attachment_descs.push(atts[a].1);
        a += 1;
    }
    Ok(
        RenderPass {
            attachments: clone_keys(atts),
            subpasses: clone_keys(subs),
            attachment_descs,
            subpass_descs,
            dependencies,
        },
    )
}

} // verus!
