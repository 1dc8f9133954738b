//! The resource graph builder. Resource kinds reference each other by name
//! with no guaranteed declaration order, so the builder runs three fixed
//! passes: images, render passes, descriptor-set layouts and pools first;
//! image views, descriptor sets and pipeline layouts second; framebuffers
//! last. Every pass only dereferences names a previous pass has realized, so
//! a missing name is always a deliberate `NameResolutionFailure`, never an
//! ordering accident.
use vstd::prelude::*;

use crate::desc::{
    stable_state_spec, DeviceLimits, Dimensions, ImageState, ImageLayout, PixelFormat, Resource,
    ACCESS_NONE, ACCESS_TRANSFER_WRITE,
};
use crate::errors::SceneError;
use crate::fetch::packed_spec;
use crate::resources::{
    buffer_size_spec, image_entry_spec, image_fits, pair_position, resolve_render_pass,
    row_pitch_spec, rows_spec, rp_entry_matches, rp_resolves, width_bytes_spec, Framebuffer, Image,
    ImageView, DescPool, DescSet, DescSetLayout, PipelineLayout, Resources,
};
use crate::table::{distinct_names, lemma_map_of_at, lemma_map_of_contains, map_of, Table};

verus! {

// ---- reading one declaration -----------------------------------------------

pub open spec fn img_dims(r: Resource) -> Dimensions {
    r->Image_dims
}

pub open spec fn img_levels(r: Resource) -> u8 {
    r->Image_levels
}

pub open spec fn img_format(r: Resource) -> PixelFormat {
    r->Image_format
}

pub open spec fn img_usage(r: Resource) -> u32 {
    r->Image_usage
}

pub open spec fn img_data(r: Resource) -> Seq<char> {
    r->Image_data@
}

/// An image declared with a data file is uploaded at initialization.
pub open spec fn has_upload(r: Resource) -> bool {
    r is Image && img_data(r).len() > 0
}

// ---- what it means for the description to resolve --------------------------

/// One declaration's name references all resolve against the description map.
pub open spec fn entry_resolves(dm: Map<Seq<char>, Resource>, r: Resource) -> bool {
    match r {
        Resource::RenderPass { attachments, subpasses, dependencies } => rp_resolves(
            attachments@,
            subpasses@,
            dependencies@,
        ),
        Resource::ImageView { image, .. } => dm.contains_key(image@) && dm[image@] is Image,
        Resource::DescriptorSet { pool, layout } => dm.contains_key(pool@) && dm[pool@]
            is DescriptorPool && dm.contains_key(layout@) && dm[layout@] is DescriptorSetLayout,
        Resource::PipelineLayout { set_layouts } => forall|i: int|
            0 <= i < set_layouts@.len() ==> dm.contains_key((#[trigger] set_layouts@[i])@)
                && dm[set_layouts@[i]@] is DescriptorSetLayout,
        Resource::Framebuffer { pass, views, .. } => fb_resolves(dm, pass@, views@),
        _ => true,
    }
}

/// The view name a framebuffer's binding list gives for one attachment name.
pub open spec fn bound_view(views: Seq<(String, String)>, att: Seq<char>) -> Seq<char> {
    views[pair_position(views, att).unwrap()].1@
}

/// One attachment name is bound, and bound to an existing image view.
pub open spec fn fb_att_resolved(
    dm: Map<Seq<char>, Resource>,
    views: Seq<(String, String)>,
    att: Seq<char>,
) -> bool {
    &&& pair_position(views, att) is Some
    &&& dm.contains_key(bound_view(views, att))
    &&& dm[bound_view(views, att)] is ImageView
}

/// A framebuffer resolves when its render pass exists and every attachment
/// of that pass, in declared order, is bound to an existing image view.
pub open spec fn fb_resolves(
    dm: Map<Seq<char>, Resource>,
    pass: Seq<char>,
    views: Seq<(String, String)>,
) -> bool {
    &&& dm.contains_key(pass)
    &&& dm[pass] is RenderPass
    &&& forall|i: int|
        0 <= i < dm[pass]->RenderPass_attachments@.len() ==> fb_att_resolved(
            dm,
            views,
            (#[trigger] dm[pass]->RenderPass_attachments@[i]).0@,
        )
}

/// Every name reference in the whole description resolves.
pub open spec fn resolves(dm: Map<Seq<char>, Resource>) -> bool {
    forall|k: Seq<char>| #[trigger] dm.contains_key(k) ==> entry_resolves(dm, dm[k])
}

// ---- what each built table must hold ----------------------------------------

/// Up to entry `n` of the description, the table holds exactly the names of
/// declarations satisfying `p`, each entry related to its declaration by `m`.
pub open spec fn table_match_upto<A, V>(
    d: Seq<(String, A)>,
    n: int,
    t: Table<V>,
    p: spec_fn(A) -> bool,
    m: spec_fn(A, V) -> bool,
) -> bool {
    &&& forall|k: Seq<char>|
        #[trigger] t.contains_spec(k) ==> exists|j: int|
            0 <= j < n && (#[trigger] d[j]).0@ == k && p(d[j].1)
    &&& forall|j: int|
        0 <= j < n && p((#[trigger] d[j]).1) ==> t.contains_spec(d[j].0@) && m(
            d[j].1,
            t.view_map()[d[j].0@],
        )
}

/// The table holds exactly the names the description map declares with kind
/// `p`, each entry related to its declaration by `m`. Stated over the map, so
/// it cannot depend on the description's iteration order.
pub open spec fn table_match<A, V>(
    dm: Map<Seq<char>, A>,
    t: Table<V>,
    p: spec_fn(A) -> bool,
    m: spec_fn(A, V) -> bool,
) -> bool {
    &&& forall|k: Seq<char>|
        #![trigger t.contains_spec(k)]
        #![trigger dm.contains_key(k)]
        t.contains_spec(k) <==> dm.contains_key(k) && p(dm[k])
    &&& forall|k: Seq<char>| #[trigger] t.contains_spec(k) ==> m(dm[k], t.view_map()[k])
}

/// A table matching every entry of the description list matches its map.
pub proof fn lemma_table_match<A, V>(
    d: Seq<(String, A)>,
    t: Table<V>,
    p: spec_fn(A) -> bool,
    m: spec_fn(A, V) -> bool,
)
    requires
        distinct_names(d),
        table_match_upto(d, d.len() as int, t, p, m),
    ensures
        table_match(map_of(d), t, p, m),
{
    let dm = map_of(d);
    assert forall|k: Seq<char>| #[trigger] t.contains_spec(k) implies dm.contains_key(k) && p(dm[k])
        && m(dm[k], t.view_map()[k]) by {
        let j = choose|j: int| 0 <= j < d.len() && (#[trigger] d[j]).0@ == k && p(d[j].1);
        lemma_map_of_at(d, j);
    }
    assert forall|k: Seq<char>| dm.contains_key(k) && p(dm[k]) implies #[trigger] t.contains_spec(
        k,
    ) by {
        lemma_map_of_contains(d, k);
        let j = choose|j: int| 0 <= j < d.len() && (#[trigger] d[j]).0@ == k;
        lemma_map_of_at(d, j);
    }
}

// ---- per-kind selection and matching ----------------------------------------

pub open spec fn image_sel() -> spec_fn(Resource) -> bool {
    |r: Resource| r is Image
}

pub open spec fn image_rel() -> spec_fn(Resource, Image) -> bool {
    |r: Resource, v: Image|
        v == image_entry_spec(
            img_dims(r),
            img_levels(r),
            img_format(r),
            img_usage(r),
            img_data(r).len() > 0,
        )
}

pub open spec fn rp_sel() -> spec_fn(Resource) -> bool {
    |r: Resource| r is RenderPass
}

pub open spec fn rp_rel() -> spec_fn(Resource, crate::resources::RenderPass) -> bool {
    |r: Resource, v: crate::resources::RenderPass|
        rp_entry_matches(
            r->RenderPass_attachments@,
            r->RenderPass_subpasses@,
            r->RenderPass_dependencies@,
            v,
        )
}

pub open spec fn dsl_sel() -> spec_fn(Resource) -> bool {
    |r: Resource| r is DescriptorSetLayout
}

pub open spec fn dsl_rel() -> spec_fn(Resource, DescSetLayout) -> bool {
    |r: Resource, v: DescSetLayout| v.bindings@ == r->DescriptorSetLayout_bindings@
}

pub open spec fn pool_sel() -> spec_fn(Resource) -> bool {
    |r: Resource| r is DescriptorPool
}

pub open spec fn pool_rel() -> spec_fn(Resource, DescPool) -> bool {
    |r: Resource, v: DescPool|
        v.capacity == r->DescriptorPool_capacity && v.ranges@ == r->DescriptorPool_ranges@
}

pub open spec fn view_sel() -> spec_fn(Resource) -> bool {
    |r: Resource| r is ImageView
}

pub open spec fn view_rel() -> spec_fn(Resource, ImageView) -> bool {
    |r: Resource, v: ImageView|
        {
            &&& v.image@ == r->ImageView_image@
            &&& v.format == r->ImageView_format
            &&& v.swizzle == r->ImageView_swizzle
            &&& v.range == r->ImageView_range
        }
}

pub open spec fn set_sel() -> spec_fn(Resource) -> bool {
    |r: Resource| r is DescriptorSet
}

pub open spec fn set_rel() -> spec_fn(Resource, DescSet) -> bool {
    |r: Resource, v: DescSet|
        v.pool@ == r->DescriptorSet_pool@ && v.layout@ == r->DescriptorSet_layout@
}

pub open spec fn pl_sel() -> spec_fn(Resource) -> bool {
    |r: Resource| r is PipelineLayout
}

pub open spec fn pl_rel() -> spec_fn(Resource, PipelineLayout) -> bool {
    |r: Resource, v: PipelineLayout|
        {
            &&& v.set_layouts@.len() == r->PipelineLayout_set_layouts@.len()
            &&& forall|i: int|
                0 <= i < v.set_layouts@.len() ==> (#[trigger] v.set_layouts@[i])@
                    == r->PipelineLayout_set_layouts@[i]@
        }
}

pub open spec fn fb_sel() -> spec_fn(Resource) -> bool {
    |r: Resource| r is Framebuffer
}

/// The built framebuffer binds, for each attachment position of its render
/// pass, the image view the declaration names for that attachment.
pub open spec fn fb_rel(dm: Map<Seq<char>, Resource>) -> spec_fn(Resource, Framebuffer) -> bool {
    |r: Resource, v: Framebuffer|
        {
            let pass = r->Framebuffer_pass@;
            let views = r->Framebuffer_views@;
            let atts = dm[pass]->RenderPass_attachments@;
            &&& v.pass@ == pass
            &&& v.extent == r->Framebuffer_extent
            &&& v.view_order@.len() == atts.len()
            &&& forall|i: int|
                0 <= i < atts.len() ==> (#[trigger] v.view_order@[i])@ == bound_view(
                    views,
                    atts[i].0@,
                )
        }
}

/// One staged upload buffer: its geometry and the pitch-padded bytes the
/// host writes into the mapped staging memory.
pub struct UploadBuffer {
    pub width_bytes: u64,
    pub row_pitch: u64,
    pub size: u64,
    pub contents: Vec<u8>,
}

pub open spec fn upload_rel(limits: DeviceLimits, dfm: Map<Seq<char>, Vec<u8>>) -> spec_fn(
    Resource,
    UploadBuffer,
) -> bool {
    |r: Resource, v: UploadBuffer|
        {
            let format = img_format(r);
            let dims = img_dims(r);
            &&& v.width_bytes == width_bytes_spec(format, dims)
            &&& v.row_pitch == row_pitch_spec(format, dims, limits)
            &&& v.size == buffer_size_spec(format, dims, limits)
            &&& v.contents@ == packed_spec(
                dfm[img_data(r)]@,
                width_bytes_spec(format, dims),
                row_pitch_spec(format, dims, limits),
                rows_spec(dims),
            )
        }
}

// ---- the initialization command buffer ---------------------------------------

/// A command recorded into the one-time initialization buffer.
pub enum InitCommand {
    /// Moves an image between states, after all prior accesses complete.
    Barrier { image: String, from: ImageState, to: ImageState },
    /// Copies a staged upload buffer into the image at the padded pitch.
    CopyBufferToImage { image: String, row_pitch: u64, slice_pitch: u64, extent: Dimensions },
}

/// The state uploads transition out of: freshly created, contents undefined.
pub open spec fn undefined_state() -> ImageState {
    ImageState { access: ACCESS_NONE, layout: ImageLayout::Undefined }
}

/// The transient state an image is uploaded through.
pub open spec fn transfer_dest_state() -> ImageState {
    ImageState { access: ACCESS_TRANSFER_WRITE, layout: ImageLayout::TransferDstOptimal }
}

/// What one declaration appends to the initialization buffer: for an
/// uploaded image, a barrier into the transfer-destination state, the copy,
/// and a barrier into the image's stable state; nothing for anything else.
pub open spec fn init_cmds_for(name: String, r: Resource, limits: DeviceLimits) -> Seq<
    InitCommand,
> {
    if has_upload(r) {
        seq![
            InitCommand::Barrier { image: name, from: undefined_state(), to: transfer_dest_state() },
            InitCommand::CopyBufferToImage {
                image: name,
                row_pitch: row_pitch_spec(img_format(r), img_dims(r), limits) as u64,
                slice_pitch: (row_pitch_spec(img_format(r), img_dims(r), limits)
                    * img_dims(r).height) as u64,
                extent: img_dims(r),
            },
            InitCommand::Barrier {
                image: name,
                from: transfer_dest_state(),
                to: stable_state_spec(img_format(r), true),
            },
        ]
    } else {
        Seq::empty()
    }
}

/// The initialization buffer the whole description records, in declaration
/// order.
pub open spec fn init_cmds_of(d: Seq<(String, Resource)>, limits: DeviceLimits) -> Seq<InitCommand>
    decreases d.len(),
{
    if d.len() == 0 {
        Seq::empty()
    } else {
        init_cmds_of(d.drop_last(), limits) + init_cmds_for(d.last().0, d.last().1, limits)
    }
}

// ---- machine-limit preconditions ---------------------------------------------

/// Every declared image's staging arithmetic stays within machine bounds.
pub open spec fn all_images_fit(d: Seq<(String, Resource)>, limits: DeviceLimits) -> bool {
    forall|j: int|
        0 <= j < d.len() && (#[trigger] d[j]).1 is Image ==> image_fits(
            img_format(d[j].1),
            img_dims(d[j].1),
            limits,
        ) && row_pitch_spec(img_format(d[j].1), img_dims(d[j].1), limits) * img_dims(d[j].1).height
            <= u64::MAX
}

/// Every upload's data file is on hand, long enough for all its rows, and
/// the staged size fits the host's address range.
pub open spec fn uploads_available(
    d: Seq<(String, Resource)>,
    dfm: Map<Seq<char>, Vec<u8>>,
    limits: DeviceLimits,
) -> bool {
    forall|j: int|
        0 <= j < d.len() && has_upload((#[trigger] d[j]).1) ==> {
            let format = img_format(d[j].1);
            let dims = img_dims(d[j].1);
            &&& dfm.contains_key(img_data(d[j].1))
            &&& dfm[img_data(d[j].1)]@.len() >= rows_spec(dims) * width_bytes_spec(format, dims)
            &&& buffer_size_spec(format, dims, limits) <= usize::MAX
        }
}

/// Resource resolution is order-independent: two descriptions that declare
/// the same resources under the same names, in whatever order, build
/// resource tables with the same identity relationships — the same image
/// entries under the same names, and framebuffers that bind the same image
/// views at the same attachment positions.
pub proof fn lemma_build_order_independent(
    d1: Seq<(String, Resource)>,
    d2: Seq<(String, Resource)>,
    r1: Resources,
    r2: Resources,
)
    requires
        map_of(d1) == map_of(d2),
        tables_match(map_of(d1), r1),
        tables_match(map_of(d2), r2),
    ensures
        forall|k: Seq<char>|
            #![trigger r1.images.contains_spec(k)]
            #![trigger r2.images.contains_spec(k)]
            r1.images.contains_spec(k) == r2.images.contains_spec(k),
        forall|k: Seq<char>|
            #[trigger] r1.images.contains_spec(k) ==> r1.images.view_map()[k]
                == r2.images.view_map()[k],
        forall|k: Seq<char>|
            #![trigger r1.framebuffers.contains_spec(k)]
            #![trigger r2.framebuffers.contains_spec(k)]
            r1.framebuffers.contains_spec(k) == r2.framebuffers.contains_spec(k),
        forall|k: Seq<char>|
            #[trigger] r1.framebuffers.contains_spec(k) ==> {
                let f1 = r1.framebuffers.view_map()[k];
                let f2 = r2.framebuffers.view_map()[k];
                &&& f1.pass@ == f2.pass@
                &&& f1.extent == f2.extent
                &&& f1.view_order@.len() == f2.view_order@.len()
                &&& forall|i: int|
                    0 <= i < f1.view_order@.len() ==> (#[trigger] f1.view_order@[i])@
                        == f2.view_order@[i]@
            },
{
    let dm = map_of(d1);
    assert forall|k: Seq<char>| #[trigger] r1.images.contains_spec(k)
        implies r1.images.view_map()[k] == r2.images.view_map()[k] by {
        assert(image_rel()(dm[k], r1.images.view_map()[k]));
        assert(image_rel()(dm[k], r2.images.view_map()[k]));
    }
    assert forall|k: Seq<char>| #[trigger] r1.framebuffers.contains_spec(k) implies {
        let f1 = r1.framebuffers.view_map()[k];
        let f2 = r2.framebuffers.view_map()[k];
        &&& f1.pass@ == f2.pass@
        &&& f1.extent == f2.extent
        &&& f1.view_order@.len() == f2.view_order@.len()
        &&& forall|i: int|
            0 <= i < f1.view_order@.len() ==> (#[trigger] f1.view_order@[i])@ == f2.view_order@[i]@
    } by {
        let f1 = r1.framebuffers.view_map()[k];
        let f2 = r2.framebuffers.view_map()[k];
        assert(fb_rel(dm)(dm[k], f1));
        assert(fb_rel(dm)(dm[k], f2));
        assert forall|i: int| 0 <= i < f1.view_order@.len() implies (#[trigger] f1.view_order@[i])@
            == f2.view_order@[i]@ by {
            let atts = dm[dm[k]->Framebuffer_pass@]->RenderPass_attachments@;
            assert(f1.view_order@[i]@ == bound_view(dm[k]->Framebuffer_views@, atts[i].0@));
            assert(f2.view_order@[i]@ == bound_view(dm[k]->Framebuffer_views@, atts[i].0@));
        }
    }
}

/// The upload-kind selector.
pub open spec fn upload_sel() -> spec_fn(Resource) -> bool {
    |r: Resource| has_upload(r)
}

/// Every built table holds exactly what the description map declares of its
/// kind, entry for entry.
pub open spec fn tables_match(dm: Map<Seq<char>, Resource>, res: Resources) -> bool {
    &&& res.buffers.entries@.len() == 0
    &&& table_match(dm, res.images, image_sel(), image_rel())
    &&& table_match(dm, res.render_passes, rp_sel(), rp_rel())
    &&& table_match(dm, res.desc_set_layouts, dsl_sel(), dsl_rel())
    &&& table_match(dm, res.desc_pools, pool_sel(), pool_rel())
    &&& table_match(dm, res.image_views, view_sel(), view_rel())
    &&& table_match(dm, res.desc_sets, set_sel(), set_rel())
    &&& table_match(dm, res.pipeline_layouts, pl_sel(), pl_rel())
    &&& table_match(dm, res.framebuffers, fb_sel(), fb_rel(dm))
}

/// Inserting the entry built for declaration `i` advances the match by one.
pub proof fn lemma_upto_insert<A, V>(
    d: Seq<(String, A)>,
    i: int,
    t_old: Table<V>,
    t_new: Table<V>,
    v: V,
    p: spec_fn(A) -> bool,
    m: spec_fn(A, V) -> bool,
)
    requires
        0 <= i < d.len(),
        distinct_names(d),
        table_match_upto(d, i, t_old, p, m),
        p(d[i].1),
        m(d[i].1, v),
        t_new.view_map() == t_old.view_map().insert(d[i].0@, v),
    ensures
        table_match_upto(d, i + 1, t_new, p, m),
{
    assert forall|k: Seq<char>| #[trigger] t_new.contains_spec(k) implies exists|j: int|
        0 <= j < i + 1 && (#[trigger] d[j]).0@ == k && p(d[j].1) by {
        if k == d[i].0@ {
            assert(0 <= i < i + 1 && d[i].0@ == k && p(d[i].1));
        } else {
            assert(t_old.contains_spec(k));
            let j = choose|j: int| 0 <= j < i && (#[trigger] d[j]).0@ == k && p(d[j].1);
            assert(0 <= j < i + 1 && d[j].0@ == k && p(d[j].1));
        }
    }
    assert forall|j: int| 0 <= j < i + 1 && p((#[trigger] d[j]).1) implies t_new.contains_spec(
        d[j].0@,
    ) && m(d[j].1, t_new.view_map()[d[j].0@]) by {
        if j < i {
            assert(d[j].0@ != d[i].0@);
            assert(t_old.contains_spec(d[j].0@) && m(d[j].1, t_old.view_map()[d[j].0@]));
        }
    }
}

/// Builds the resource table in three passes, recording the initialization
/// buffer and staging the uploads on the way. Succeeds exactly when every
/// name reference in the description resolves; a miss aborts construction
/// with a `NameResolutionFailure` before any later resource is realized.
#[verifier::rlimit(50)]
pub fn build_resources(
    desc: &Table<Resource>,
    limits: DeviceLimits,
    data_files: &Table<Vec<u8>>,
) -> (r: Result<(Resources, Vec<InitCommand>, Table<UploadBuffer>), SceneError>)
    requires
        desc.wf(),
        data_files.wf(),
        all_images_fit(desc.entries@, limits),
        uploads_available(desc.entries@, data_files.view_map(), limits),
    ensures
        match r {
            Ok(out) => {
                &&& resolves(map_of(desc.entries@))
                &&& out.0.wf()
                &&& tables_match(map_of(desc.entries@), out.0)
                &&& out.1@ == init_cmds_of(desc.entries@, limits)
                &&& out.2.wf()
                &&& table_match(
                    map_of(desc.entries@),
                    out.2,
                    upload_sel(),
                    upload_rel(limits, data_files.view_map()),
                )
            },
            Err(e) => e == SceneError::NameResolutionFailure && !resolves(map_of(desc.entries@)),
        },
{
    let ghost d = desc.entries@;
    let ghost dm = map_of(d);
    let ghost dfm = data_files.view_map();
    let mut res = Resources::new();
    let mut init: Vec<InitCommand> = Vec::new();
    let mut uploads: Table<UploadBuffer> = Table::new();
    let n = desc.entries.len();

    // Pass 1: images (with staged uploads), render passes, descriptor-set
    // layouts, descriptor pools.
    let mut i: usize = 0;
    proof {
        assert(d.take(0) =~= Seq::<(String, Resource)>::empty());
    }
    while i < n
        invariant
            desc.wf(),
            data_files.wf(),
            all_images_fit(d, limits),
            uploads_available(d, dfm, limits),
            d == desc.entries@,
            dm == map_of(d),
            dfm == data_files.view_map(),
            n == d.len(),
            i <= n,
            res.images.wf(),
            res.render_passes.wf(),
            res.desc_set_layouts.wf(),
            res.desc_pools.wf(),
            uploads.wf(),
            table_match_upto(d, i as int, res.images, image_sel(), image_rel()),
            table_match_upto(d, i as int, res.render_passes, rp_sel(), rp_rel()),
            table_match_upto(d, i as int, res.desc_set_layouts, dsl_sel(), dsl_rel()),
            table_match_upto(d, i as int, res.desc_pools, pool_sel(), pool_rel()),
            table_match_upto(d, i as int, uploads, upload_sel(), upload_rel(limits, dfm)),
            forall|j: int|
                0 <= j < i && (#[trigger] d[j]).1 is RenderPass ==> rp_resolves(
                    d[j].1->RenderPass_attachments@,
                    d[j].1->RenderPass_subpasses@,
                    d[j].1->RenderPass_dependencies@,
                ),
            init@ == init_cmds_of(d.take(i as int), limits),
            res.buffers.entries@.len() == 0,
            res.image_views.entries@.len() == 0,
            res.desc_sets.entries@.len() == 0,
            res.pipeline_layouts.entries@.len() == 0,
            res.framebuffers.entries@.len() == 0,
        decreases n - i,
    {
        let ghost init0 = init@;
        match &desc.entries[i].1 {
            Resource::Image { dims, levels, format, usage, data } => {
                let has_data = !data.as_str().is_empty();
                let entry = Image {
                    dims: *dims,
                    levels: *levels,
                    format: *format,
                    usage: *usage,
                    stable_state: crate::desc::stable_state_for(*format, has_data),
                    has_data,
                };
                let name = desc.entries[i].0.clone();
                let ghost t0 = res.images;
                let ghost ev = entry;
                res.images.insert(name, entry);
                proof {
                    lemma_upto_insert(d, i as int, t0, res.images, ev, image_sel(), image_rel());
                }
                if has_data {
                    let (width_bytes, row_pitch, rows, size) = crate::resources::staging_layout(
                        *format,
                        *dims,
                        limits,
                    );
                    let file = match data_files.get(data.as_str()) {
                        Some(f) => f,
                        None => {
                            proof {
                                assert(false);
                            }
                            return Err(SceneError::NameResolutionFailure);
                        },
                    };
                    let contents: Vec<u8> = if width_bytes == 0 || rows == 0 {
                        Vec::new()
                    } else {
                        proof {
                            assert(has_upload(d[i as int].1));
                            assert(img_format(d[i as int].1) == *format && img_dims(d[i as int].1)
                                == *dims);
                            crate::resources::lemma_row_pitch_covers(*format, *dims, limits);
                            assert(0 < width_bytes && width_bytes <= row_pitch);
                            assert(rows * 1 <= rows * row_pitch && 1 * row_pitch <= rows
                                * row_pitch) by (nonlinear_arith)
                                requires
                                    rows >= 1,
                                    row_pitch >= 1,
                            ;
                            assert(buffer_size_spec(*format, *dims, limits) <= usize::MAX);
                            assert(rows * row_pitch <= usize::MAX);
                            assert(file@.len() >= rows_spec(*dims) * width_bytes_spec(
                                *format,
                                *dims,
                            ));
                            assert(file@.len() >= rows * width_bytes);
                        }
                        crate::fetch::pack_rows(
                            file,
                            width_bytes as usize,
                            row_pitch as usize,
                            rows as usize,
                        )
                    };
                    proof {
                        assert(has_upload(d[i as int].1));
                        assert(file@ == dfm[img_data(d[i as int].1)]@);
                        if width_bytes == 0 || rows == 0 {
                            assert(width_bytes == 0 ==> row_pitch == 0);
                            assert(row_pitch as int * rows as int == 0) by (nonlinear_arith)
                                requires
                                    row_pitch == 0 || rows == 0,
                            ;
                            assert(packed_spec(
                                dfm[img_data(d[i as int].1)]@,
                                width_bytes as int,
                                row_pitch as int,
                                rows as int,
                            ).len() == 0);
                        }
                        assert(contents@ =~= packed_spec(
                            dfm[img_data(d[i as int].1)]@,
                            width_bytes as int,
                            row_pitch as int,
                            rows as int,
                        ));
                    }
                    let up = UploadBuffer { width_bytes, row_pitch, size, contents };
                    let ghost u0 = uploads;
                    let ghost uv = up;
                    uploads.insert(desc.entries[i].0.clone(), up);
                    proof {
                        lemma_upto_insert(
                            d,
                            i as int,
                            u0,
                            uploads,
                            uv,
                            upload_sel(),
                            upload_rel(limits, dfm),
                        );
                    }
                    init.push(
                        InitCommand::Barrier {
                            image: desc.entries[i].0.clone(),
                            from: ImageState { access: ACCESS_NONE, layout: ImageLayout::Undefined },
                            to: ImageState {
                                access: ACCESS_TRANSFER_WRITE,
                                layout: ImageLayout::TransferDstOptimal,
                            },
                        },
                    );
                    init.push(
                        InitCommand::CopyBufferToImage {
                            image: desc.entries[i].0.clone(),
                            row_pitch,
                            slice_pitch: row_pitch * dims.height as u64,
                            extent: *dims,
                        },
                    );
                    init.push(
                        InitCommand::Barrier {
                            image: desc.entries[i].0.clone(),
                            from: ImageState {
                                access: ACCESS_TRANSFER_WRITE,
                                layout: ImageLayout::TransferDstOptimal,
                            },
                            to: crate::desc::stable_state_for(*format, true),
                        },
                    );
                }
            },
            Resource::RenderPass { attachments, subpasses, dependencies } => {
                match resolve_render_pass(attachments, subpasses, dependencies) {
                    Ok(rp) => {
                        let ghost t0 = res.render_passes;
                        let ghost rv = rp;
                        res.render_passes.insert(desc.entries[i].0.clone(), rp);
                        proof {
                            lemma_upto_insert(
                                d,
                                i as int,
                                t0,
                                res.render_passes,
                                rv,
                                rp_sel(),
                                rp_rel(),
                            );
                        }
                    },
                    Err(e) => {
                        proof {
                            lemma_map_of_at(d, i as int);
                            assert(!entry_resolves(dm, d[i as int].1));
                            assert(!resolves(dm));
                        }
                        return Err(e);
                    },
                }
            },
            Resource::DescriptorSetLayout { bindings } => {
                let entry = DescSetLayout { bindings: crate::table::clone_plain(bindings) };
                let ghost t0 = res.desc_set_layouts;
                let ghost ev = entry;
                res.desc_set_layouts.insert(desc.entries[i].0.clone(), entry);
                proof {
                    lemma_upto_insert(
                        d,
                        i as int,
                        t0,
                        res.desc_set_layouts,
                        ev,
                        dsl_sel(),
                        dsl_rel(),
                    );
                }
            },
            Resource::DescriptorPool { capacity, ranges } => {
                let entry = DescPool {
                    capacity: *capacity,
                    ranges: crate::table::clone_plain(ranges),
                };
                let ghost t0 = res.desc_pools;
                let ghost ev = entry;
                res.desc_pools.insert(desc.entries[i].0.clone(), entry);
                proof {
                    lemma_upto_insert(d, i as int, t0, res.desc_pools, ev, pool_sel(), pool_rel());
                }
            },
            _ => {},
        }
        proof {
            assert(d.take(i + 1).drop_last() =~= d.take(i as int));
            assert(d.take(i + 1).last() == d[i as int]);
            assert(init@ =~= init0 + init_cmds_for(d[i as int].0, d[i as int].1, limits));
        }
        i += 1;
    }
    proof {
        assert(d.take(n as int) =~= d);
        lemma_table_match(d, res.images, image_sel(), image_rel());
        lemma_table_match(d, res.render_passes, rp_sel(), rp_rel());
        lemma_table_match(d, res.desc_set_layouts, dsl_sel(), dsl_rel());
        lemma_table_match(d, res.desc_pools, pool_sel(), pool_rel());
    }

    // Pass 2: image views, descriptor sets, pipeline layouts.
    let mut i2: usize = 0;
    while i2 < n
        invariant
            desc.wf(),
            d == desc.entries@,
            dm == map_of(d),
            n == d.len(),
            i2 <= n,
            res.images.wf(),
            res.render_passes.wf(),
            res.desc_set_layouts.wf(),
            res.desc_pools.wf(),
            res.image_views.wf(),
            res.desc_sets.wf(),
            res.pipeline_layouts.wf(),
            table_match(dm, res.images, image_sel(), image_rel()),
            table_match(dm, res.render_passes, rp_sel(), rp_rel()),
            table_match(dm, res.desc_set_layouts, dsl_sel(), dsl_rel()),
            table_match(dm, res.desc_pools, pool_sel(), pool_rel()),
            table_match_upto(d, i2 as int, res.image_views, view_sel(), view_rel()),
            table_match_upto(d, i2 as int, res.desc_sets, set_sel(), set_rel()),
            table_match_upto(d, i2 as int, res.pipeline_layouts, pl_sel(), pl_rel()),
            forall|j: int|
                0 <= j < i2 && ((#[trigger] d[j]).1 is ImageView || d[j].1 is DescriptorSet
                    || d[j].1 is PipelineLayout) ==> entry_resolves(dm, d[j].1),
            res.buffers.entries@.len() == 0,
            res.framebuffers.entries@.len() == 0,
        decreases n - i2,
    {
        match &desc.entries[i2].1 {
            Resource::ImageView { image, format, swizzle, range } => {
                if !res.images.contains(image.as_str()) {
                    proof {
                        lemma_map_of_at(d, i2 as int);
                        assert(!entry_resolves(dm, d[i2 as int].1));
                        assert(!resolves(dm));
                    }
                    return Err(SceneError::NameResolutionFailure);
                }
                let entry = ImageView {
                    image: image.clone(),
                    format: *format,
                    swizzle: *swizzle,
                    range: *range,
                };
                let ghost t0 = res.image_views;
                let ghost ev = entry;
                res.image_views.insert(desc.entries[i2].0.clone(), entry);
                proof {
                    lemma_upto_insert(
                        d,
                        i2 as int,
                        t0,
                        res.image_views,
                        ev,
                        view_sel(),
                        view_rel(),
                    );
                }
            },
            Resource::DescriptorSet { pool, layout } => {
                if !res.desc_pools.contains(pool.as_str()) || !res.desc_set_layouts.contains(
                    layout.as_str(),
                ) {
                    proof {
                        lemma_map_of_at(d, i2 as int);
                        assert(!entry_resolves(dm, d[i2 as int].1));
                        assert(!resolves(dm));
                    }
                    return Err(SceneError::NameResolutionFailure);
                }
                let entry = DescSet { pool: pool.clone(), layout: layout.clone() };
                let ghost t0 = res.desc_sets;
                let ghost ev = entry;
                res.desc_sets.insert(desc.entries[i2].0.clone(), entry);
                proof {
                    lemma_upto_insert(d, i2 as int, t0, res.desc_sets, ev, set_sel(), set_rel());
                }
            },
            Resource::PipelineLayout { set_layouts } => {
                let m = set_layouts.len();
                let mut s: usize = 0;
                while s < m
                    invariant
                        desc.wf(),
                        d == desc.entries@,
                        dm == map_of(d),
                        n == d.len(),
                        i2 < n,
                        m == set_layouts@.len(),
                        s <= m,
                        d[i2 as int].1 is PipelineLayout,
                        set_layouts@ == d[i2 as int].1->PipelineLayout_set_layouts@,
                        res.desc_set_layouts.wf(),
                        table_match(dm, res.desc_set_layouts, dsl_sel(), dsl_rel()),
                        forall|j: int|
                            0 <= j < s ==> dm.contains_key((#[trigger] set_layouts@[j])@)
                                && dm[set_layouts@[j]@] is DescriptorSetLayout,
                    decreases m - s,
                {
                    if !res.desc_set_layouts.contains(set_layouts[s].as_str()) {
                        proof {
                            lemma_map_of_at(d, i2 as int);
                            assert(!entry_resolves(dm, d[i2 as int].1));
                            assert(!resolves(dm));
                        }
                        return Err(SceneError::NameResolutionFailure);
                    }
                    s += 1;
                }
                let entry = PipelineLayout { set_layouts: crate::table::clone_names(set_layouts) };
                let ghost t0 = res.pipeline_layouts;
                let ghost ev = entry;
                res.pipeline_layouts.insert(desc.entries[i2].0.clone(), entry);
                proof {
                    lemma_upto_insert(
                        d,
                        i2 as int,
                        t0,
                        res.pipeline_layouts,
                        ev,
                        pl_sel(),
                        pl_rel(),
                    );
                }
            },
            _ => {},
        }
        i2 += 1;
    }
    proof {
        lemma_table_match(d, res.image_views, view_sel(), view_rel());
        lemma_table_match(d, res.desc_sets, set_sel(), set_rel());
        lemma_table_match(d, res.pipeline_layouts, pl_sel(), pl_rel());
    }

    // Pass 3: framebuffers.
    let mut i3: usize = 0;
    while i3 < n
        invariant
            desc.wf(),
            d == desc.entries@,
            dm == map_of(d),
            n == d.len(),
            i3 <= n,
            res.images.wf(),
            res.render_passes.wf(),
            res.desc_set_layouts.wf(),
            res.desc_pools.wf(),
            res.image_views.wf(),
            res.desc_sets.wf(),
            res.pipeline_layouts.wf(),
            res.framebuffers.wf(),
            table_match(dm, res.images, image_sel(), image_rel()),
            table_match(dm, res.render_passes, rp_sel(), rp_rel()),
            table_match(dm, res.desc_set_layouts, dsl_sel(), dsl_rel()),
            table_match(dm, res.desc_pools, pool_sel(), pool_rel()),
            table_match(dm, res.image_views, view_sel(), view_rel()),
            table_match(dm, res.desc_sets, set_sel(), set_rel()),
            table_match(dm, res.pipeline_layouts, pl_sel(), pl_rel()),
            table_match_upto(d, i3 as int, res.framebuffers, fb_sel(), fb_rel(dm)),
            forall|j: int|
                0 <= j < d.len() && ((#[trigger] d[j]).1 is ImageView || d[j].1 is DescriptorSet
                    || d[j].1 is PipelineLayout) ==> entry_resolves(dm, d[j].1),
            forall|j: int|
                0 <= j < d.len() && (#[trigger] d[j]).1 is RenderPass ==> rp_resolves(
                    d[j].1->RenderPass_attachments@,
                    d[j].1->RenderPass_subpasses@,
                    d[j].1->RenderPass_dependencies@,
                ),
            forall|j: int|
                0 <= j < i3 && (#[trigger] d[j]).1 is Framebuffer ==> entry_resolves(dm, d[j].1),
            res.buffers.entries@.len() == 0,
        decreases n - i3,
    {
        match &desc.entries[i3].1 {
            Resource::Framebuffer { pass, views, extent } => {
                let rp = match res.render_passes.get(pass.as_str()) {
                    Some(rp) => rp,
                    None => {
                        proof {
                            lemma_map_of_at(d, i3 as int);
                            assert(!entry_resolves(dm, d[i3 as int].1));
                            assert(!resolves(dm));
                        }
                        return Err(SceneError::NameResolutionFailure);
                    },
                };
                let ghost atts = dm[pass@]->RenderPass_attachments@;
                let na = rp.attachments.len();
                let mut view_order: Vec<String> = Vec::new();
                let mut a: usize = 0;
                while a < na
                    invariant
                        desc.wf(),
                        d == desc.entries@,
                        dm == map_of(d),
                        i3 < d.len(),
                        d[i3 as int].1 is Framebuffer,
                        views@ == d[i3 as int].1->Framebuffer_views@,
                        pass@ == d[i3 as int].1->Framebuffer_pass@,
                        dm.contains_key(pass@),
                        dm[pass@] is RenderPass,
                        atts == dm[pass@]->RenderPass_attachments@,
                        na == rp.attachments@.len(),
                        na == atts.len(),
                        forall|t: int|
                            0 <= t < na ==> (#[trigger] rp.attachments@[t])@ == atts[t].0@,
                        res.image_views.wf(),
                        table_match(dm, res.image_views, view_sel(), view_rel()),
                        a <= na,
                        view_order@.len() == a,
                        forall|t: int|
                            0 <= t < a ==> fb_att_resolved(dm, views@, (#[trigger] atts[t]).0@),
                        forall|t: int|
                            0 <= t < a ==> (#[trigger] view_order@[t])@ == bound_view(
                                views@,
                                atts[t].0@,
                            ),
                    decreases na - a,
                {
                    let (pos, view_name) = match crate::resources::find_pair(
                        views,
                        rp.attachments[a].as_str(),
                    ) {
                        Some((p, v)) => (p, v),
                        None => {
                            proof {
                                lemma_map_of_at(d, i3 as int);
                                assert(rp.attachments@[a as int]@ == atts[a as int].0@);
                                assert(pair_position(views@, atts[a as int].0@) is None);
                                assert(!fb_att_resolved(dm, views@, atts[a as int].0@));
                                if fb_resolves(dm, pass@, views@) {
                                    assert(fb_att_resolved(
                                        dm,
                                        views@,
                                        dm[pass@]->RenderPass_attachments@[a as int].0@,
                                    ));
                                }
                                assert(!fb_resolves(dm, pass@, views@));
                                assert(!entry_resolves(dm, d[i3 as int].1));
                                assert(!resolves(dm));
                            }
                            return Err(SceneError::NameResolutionFailure);
                        },
                    };
                    proof {
                        assert(pair_position(views@, atts[a as int].0@) == Some(pos as int));
                        assert(view_name@ == bound_view(views@, atts[a as int].0@));
                    }
                    if !res.image_views.contains(view_name.as_str()) {
                        proof {
                            lemma_map_of_at(d, i3 as int);
                            assert(!(dm.contains_key(view_name@) && dm[view_name@] is ImageView));
                            assert(!fb_att_resolved(dm, views@, atts[a as int].0@));
                            if fb_resolves(dm, pass@, views@) {
                                assert(fb_att_resolved(
                                    dm,
                                    views@,
                                    dm[pass@]->RenderPass_attachments@[a as int].0@,
                                ));
                            }
                            assert(!fb_resolves(dm, pass@, views@));
                            assert(!entry_resolves(dm, d[i3 as int].1));
                            assert(!resolves(dm));
                        }
                        return Err(SceneError::NameResolutionFailure);
                    }
                    let ghost vo0 = view_order@;
                    view_order.push(view_name.clone());
                    proof {
                        assert(fb_att_resolved(dm, views@, atts[a as int].0@));
                        assert forall|t: int| 0 <= t < a + 1 implies fb_att_resolved(
                            dm,
                            views@,
                            (#[trigger] atts[t]).0@,
                        ) by {}
                        assert forall|t: int| 0 <= t < a + 1 implies (
                        #[trigger] view_order@[t])@ == bound_view(views@, atts[t].0@) by {
                            if t < a {
                                assert(view_order@[t]@ == vo0[t]@);
                            } else {
                                assert(view_order@[t]@ == view_name@);
                            }
                        }
                    }
                    a += 1;
                }
                let entry = Framebuffer { pass: pass.clone(), view_order, extent: *extent };
                proof {
                    lemma_map_of_at(d, i3 as int);
                    assert forall|t: int|
                        0 <= t < dm[pass@]->RenderPass_attachments@.len() implies fb_att_resolved(
                        dm,
                        views@,
                        (#[trigger] dm[pass@]->RenderPass_attachments@[t]).0@,
                    ) by {
                        assert(fb_att_resolved(dm, views@, atts[t].0@) && view_order@[t]@
                            == bound_view(views@, atts[t].0@));
                    }
                    assert(fb_resolves(dm, pass@, views@));
                    assert forall|t: int| 0 <= t < dm[pass@]->RenderPass_attachments@.len()
                        implies (#[trigger] entry.view_order@[t])@ == bound_view(
                        views@,
                        dm[pass@]->RenderPass_attachments@[t].0@,
                    ) by {
                        assert(view_order@[t]@ == bound_view(views@, atts[t].0@));
                    }
                    assert(fb_rel(dm)(d[i3 as int].1, entry));
                }
                let ghost t0 = res.framebuffers;
                let ghost ev = entry;
                res.framebuffers.insert(desc.entries[i3].0.clone(), entry);
                proof {
                    lemma_upto_insert(
                        d,
                        i3 as int,
                        t0,
                        res.framebuffers,
                        ev,
                        fb_sel(),
                        fb_rel(dm),
                    );
                }
            },
            _ => {},
        }
        i3 += 1;
    }

    proof {
        lemma_table_match(d, res.framebuffers, fb_sel(), fb_rel(dm));
        lemma_table_match(d, uploads, upload_sel(), upload_rel(limits, dfm));
        assert forall|k: Seq<char>| #[trigger] dm.contains_key(k) implies entry_resolves(
            dm,
            dm[k],
        ) by {
            lemma_map_of_contains(d, k);
            let j = choose|j: int| 0 <= j < d.len() && (#[trigger] d[j]).0@ == k;
            lemma_map_of_at(d, j);
        }
    }
    Ok((res, init, uploads))
}

} // verus!
