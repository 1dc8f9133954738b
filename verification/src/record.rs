//! The job recorder: turns each job declaration into one finished command
//! buffer, without submitting it. A graphics job begins its render pass over
//! the framebuffer's extent, then records each subpass's draw commands in the
//! render pass's declared subpass order, advancing between subpasses.
//! Pipeline and descriptor-set binding, and the transfer job's only command,
//! are accepted by the description grammar but not supported by this
//! recorder: they fail with a clear error rather than dropping state.
use vstd::prelude::*;

use crate::desc::{ClearValue, Job, DrawCommand, SubpassJob};
use crate::errors::SceneError;
use crate::resources::{pair_position, BufferEntry, Resources};

verus! {

/// One command of a finished job buffer.
pub enum JobCommand {
    BeginRenderPass {
        pass: String,
        framebuffer: String,
        width: u32,
        height: u32,
        clear_values: Vec<ClearValue>,
    },
    NextSubpass,
    BindIndexBuffer { buffer: String, offset: u64, index_type: u32 },
    BindVertexBuffers { buffers: Vec<(String, u64)> },
    Draw { vertex_start: u32, vertex_count: u32, instance_start: u32, instance_count: u32 },
    DrawIndexed {
        index_start: u32,
        index_count: u32,
        base_vertex: i32,
        instance_start: u32,
        instance_count: u32,
    },
}

/// What a recorded command says, with names and lists taken up to their
/// contents: the shape contracts and proofs compare.
pub enum JobCmdV {
    BeginRenderPass {
        pass: Seq<char>,
        framebuffer: Seq<char>,
        width: u32,
        height: u32,
        clear_values: Seq<ClearValue>,
    },
    NextSubpass,
    BindIndexBuffer { buffer: Seq<char>, offset: u64, index_type: u32 },
    BindVertexBuffers { buffers: Seq<(Seq<char>, u64)> },
    Draw { vertex_start: u32, vertex_count: u32, instance_start: u32, instance_count: u32 },
    DrawIndexed {
        index_start: u32,
        index_count: u32,
        base_vertex: i32,
        instance_start: u32,
        instance_count: u32,
    },
}

/// Buffer bindings up to their contents.
pub open spec fn pair_views(s: Seq<(String, u64)>) -> Seq<(Seq<char>, u64)> {
    s.map_values(|p: (String, u64)| (p.0@, p.1))
}

/// What one recorded command says.
pub open spec fn cmd_view(c: JobCommand) -> JobCmdV {
    match c {
        JobCommand::BeginRenderPass { pass, framebuffer, width, height, clear_values } => JobCmdV::BeginRenderPass {
            pass: pass@,
            framebuffer: framebuffer@,
            width,
            height,
            clear_values: clear_values@,
        },
        JobCommand::NextSubpass => JobCmdV::NextSubpass,
        JobCommand::BindIndexBuffer { buffer, offset, index_type } => JobCmdV::BindIndexBuffer {
            buffer: buffer@,
            offset,
            index_type,
        },
        JobCommand::BindVertexBuffers { buffers } => JobCmdV::BindVertexBuffers {
            buffers: pair_views(buffers@),
        },
        JobCommand::Draw { vertex_start, vertex_count, instance_start, instance_count } => JobCmdV::Draw {
            vertex_start,
            vertex_count,
            instance_start,
            instance_count,
        },
        JobCommand::DrawIndexed {
            index_start,
            index_count,
            base_vertex,
            instance_start,
            instance_count,
        } => JobCmdV::DrawIndexed {
            index_start,
            index_count,
            base_vertex,
            instance_start,
            instance_count,
        },
    }
}

/// What a recorded command list says.
pub open spec fn views_of(s: Seq<JobCommand>) -> Seq<JobCmdV> {
    s.map_values(|c: JobCommand| cmd_view(c))
}

/// A finished, single-use command buffer for one job.
pub struct JobBuffer {
    pub commands: Vec<JobCommand>,
}

/// What one draw command records: the translated command, or the error it
/// fails with — a missing buffer name, or a command this recorder does not
/// support.
pub open spec fn translate_draw(buffers: Map<Seq<char>, BufferEntry>, c: DrawCommand) -> Result<
    JobCmdV,
    SceneError,
> {
    match c {
        DrawCommand::BindIndexBuffer { buffer, offset, index_type } => if buffers.contains_key(
            buffer@,
        ) {
            Ok(JobCmdV::BindIndexBuffer { buffer: buffer@, offset, index_type })
        } else {
            Err(SceneError::NameResolutionFailure)
        },
        DrawCommand::BindVertexBuffers { buffers: bl } => if forall|i: int|
            0 <= i < bl@.len() ==> buffers.contains_key((#[trigger] bl@[i]).0@) {
            Ok(JobCmdV::BindVertexBuffers { buffers: pair_views(bl@) })
        } else {
            Err(SceneError::NameResolutionFailure)
        },
        DrawCommand::BindPipeline { .. } => Err(SceneError::UnsupportedCommand),
        DrawCommand::BindDescriptorSets { .. } => Err(SceneError::UnsupportedCommand),
        DrawCommand::Draw { vertex_start, vertex_count, instance_start, instance_count } => Ok(
            JobCmdV::Draw { vertex_start, vertex_count, instance_start, instance_count },
        ),
        DrawCommand::DrawIndexed {
            index_start,
            index_count,
            base_vertex,
            instance_start,
            instance_count,
        } => Ok(
            JobCmdV::DrawIndexed {
                index_start,
                index_count,
                base_vertex,
                instance_start,
                instance_count,
            },
        ),
    }
}

/// What a list of draw commands records, in order; the first failure wins.
pub open spec fn translate_draws(
    buffers: Map<Seq<char>, BufferEntry>,
    cmds: Seq<DrawCommand>,
) -> Result<Seq<JobCmdV>, SceneError>
    decreases cmds.len(),
{
    if cmds.len() == 0 {
        Ok(Seq::empty())
    } else {
        match translate_draws(buffers, cmds.drop_last()) {
            Err(e) => Err(e),
            Ok(pre) => match translate_draw(buffers, cmds.last()) {
                Err(e) => Err(e),
                Ok(c) => Ok(pre.push(c)),
            },
        }
    }
}

/// The declared subpass names of a render-pass declaration, in order.
pub open spec fn subpass_names(subs: Seq<(String, crate::desc::SubpassDesc)>) -> Seq<Seq<char>> {
    subs.map_values(|p: (String, crate::desc::SubpassDesc)| p.0@)
}

/// What recording the render pass's subpasses gives, in declared order: each
/// subpass's command list from the job, preceded by an advance for every
/// subpass but the first. A subpass name the job does not cover fails.
pub open spec fn record_subpasses(
    buffers: Map<Seq<char>, BufferEntry>,
    job_sp: Seq<(String, SubpassJob)>,
    names: Seq<Seq<char>>,
) -> Result<Seq<JobCmdV>, SceneError>
    decreases names.len(),
{
    if names.len() == 0 {
        Ok(Seq::empty())
    } else {
        match record_subpasses(buffers, job_sp, names.drop_last()) {
            Err(e) => Err(e),
            Ok(pre) => match pair_position(job_sp, names.last()) {
                None => Err(SceneError::NameResolutionFailure),
                Some(p) => match translate_draws(buffers, job_sp[p].1.commands@) {
                    Err(e) => Err(e),
                    Ok(cs) => Ok(
                        pre + (if names.len() == 1 {
                            Seq::empty()
                        } else {
                            seq![JobCmdV::NextSubpass]
                        }) + cs,
                    ),
                },
            },
        }
    }
}

/// What recording one job gives, judged against the description map: its
/// finished command list, or its first failure. A transfer job's only
/// command is not supported here; a graphics job begins its named render
/// pass over its named framebuffer's extent. The buffer table is the built
/// one, which this core leaves empty: a buffer bind never resolves.
pub open spec fn record_job_spec(
    dm: Map<Seq<char>, crate::desc::Resource>,
    buffers: Map<Seq<char>, BufferEntry>,
    job: Job,
) -> Result<Seq<JobCmdV>, SceneError> {
    match job {
        Job::Transfer { commands } => if commands@.len() == 0 {
            Ok(Seq::empty())
        } else {
            Err(SceneError::UnsupportedCommand)
        },
        Job::Graphics { descriptors, framebuffer, pass, subpasses, clear_values } => if !(
        dm.contains_key(framebuffer@) && dm[framebuffer@] is Framebuffer) {
            Err(SceneError::NameResolutionFailure)
        } else if !(dm.contains_key(pass@) && dm[pass@] is RenderPass) {
            Err(SceneError::NameResolutionFailure)
        } else {
            let extent = dm[framebuffer@]->Framebuffer_extent;
            match record_subpasses(
                buffers,
                subpasses@,
                subpass_names(dm[pass@]->RenderPass_subpasses@),
            ) {
                Err(e) => Err(e),
                Ok(cs) => Ok(
                    seq![
                        JobCmdV::BeginRenderPass {
                            pass: pass@,
                            framebuffer: framebuffer@,
                            width: extent.width,
                            height: extent.height,
                            clear_values: clear_values@,
                        },
                    ] + cs,
                ),
            }
        },
    }
}

/// Copies a list of buffer bindings.
fn clone_bindings(v: &Vec<(String, u64)>) -> (r: Vec<(String, u64)>)
    ensures
        r@ == v@,
{
    let mut out: Vec<(String, u64)> = Vec::new();
    let n = v.len();
    let mut i: usize = 0;
    while i < n
        invariant
            n == v@.len(),
            i <= n,
            out@ == v@.take(i as int),
        decreases n - i,
    {
        out.push((v[i].0.clone(), v[i].1));
        proof {
            assert(out@ =~= v@.take(i + 1));
        }
        i += 1;
    }
    proof {
        assert(v@.take(n as int) =~= v@);
    }
    out
}

/// A failure at draw command `k` fails the whole list with the same error.
pub proof fn lemma_translate_draws_err(
    buffers: Map<Seq<char>, BufferEntry>,
    cmds: Seq<DrawCommand>,
    k: int,
    e: SceneError,
)
    requires
        0 <= k < cmds.len(),
        translate_draws(buffers, cmds.take(k)) is Ok,
        translate_draw(buffers, cmds[k]) == Err::<JobCmdV, SceneError>(e),
    ensures
        translate_draws(buffers, cmds) == Err::<Seq<JobCmdV>, SceneError>(e),
    decreases cmds.len(),
{
    if k == cmds.len() - 1 {
        assert(cmds.drop_last() =~= cmds.take(k));
    } else {
        assert(cmds.drop_last().take(k) =~= cmds.take(k));
        assert(cmds.drop_last()[k] == cmds[k]);
        lemma_translate_draws_err(buffers, cmds.drop_last(), k, e);
    }
}

/// A failure at subpass `k` fails the whole recording with the same error.
pub proof fn lemma_record_subpasses_err(
    buffers: Map<Seq<char>, BufferEntry>,
    job_sp: Seq<(String, SubpassJob)>,
    names: Seq<Seq<char>>,
    k: int,
    e: SceneError,
)
    requires
        0 <= k < names.len(),
        record_subpasses(buffers, job_sp, names.take(k)) is Ok,
        match pair_position(job_sp, names[k]) {
            None => e == SceneError::NameResolutionFailure,
            Some(p) => translate_draws(buffers, job_sp[p].1.commands@) == Err::<
                Seq<JobCmdV>,
                SceneError,
            >(e),
        },
    ensures
        record_subpasses(buffers, job_sp, names) == Err::<Seq<JobCmdV>, SceneError>(e),
    decreases names.len(),
{
    if k == names.len() - 1 {
        assert(names.drop_last() =~= names.take(k));
    } else {
        assert(names.drop_last().take(k) =~= names.take(k));
        assert(names.drop_last()[k] == names[k]);
        lemma_record_subpasses_err(buffers, job_sp, names.drop_last(), k, e);
    }
}

/// Records one subpass's draw-command list: exactly what `translate_draws`
/// gives, or exactly its error.
fn record_draws(res: &Resources, cmds: &Vec<DrawCommand>) -> (r: Result<Vec<JobCommand>, SceneError>)
    requires
        res.wf(),
    ensures
        match r {
            Ok(out) => translate_draws(res.buffers.view_map(), cmds@) == Ok::<
                Seq<JobCmdV>,
                SceneError,
            >(views_of(out@)),
            Err(e) => translate_draws(res.buffers.view_map(), cmds@) == Err::<
                Seq<JobCmdV>,
                SceneError,
            >(e),
        },
{
    let ghost bufs = res.buffers.view_map();
    let mut out: Vec<JobCommand> = Vec::new();
    proof {
        assert(views_of(out@) =~= Seq::<JobCmdV>::empty());
        assert(cmds@.take(0) =~= Seq::<DrawCommand>::empty());
    }
    let nc = cmds.len();
    let mut c: usize = 0;
    while c < nc
        invariant
            res.wf(),
            bufs == res.buffers.view_map(),
            nc == cmds@.len(),
            c <= nc,
            translate_draws(bufs, cmds@.take(c as int)) == Ok::<Seq<JobCmdV>, SceneError>(
                views_of(out@),
            ),
        decreases nc - c,
    {
        proof {
            assert(cmds@.take(c + 1).drop_last() =~= cmds@.take(c as int));
            assert(cmds@.take(c + 1).last() == cmds@[c as int]);
        }
        let ghost out0 = out@;
        match &cmds[c] {
            DrawCommand::BindIndexBuffer { buffer, offset, index_type } => {
                if !res.buffers.contains(buffer.as_str()) {
                    proof {
                        lemma_translate_draws_err(
                            bufs,
                            cmds@,
                            c as int,
                            SceneError::NameResolutionFailure,
                        );
                    }
                    return Err(SceneError::NameResolutionFailure);
                }
                out.push(
                    JobCommand::BindIndexBuffer {
                        buffer: buffer.clone(),
                        offset: *offset,
                        index_type: *index_type,
                    },
                );
            },
            DrawCommand::BindVertexBuffers { buffers: bl } => {
                let nb = bl.len();
                let mut b: usize = 0;
                while b < nb
                    invariant
                        res.wf(),
                        bufs == res.buffers.view_map(),
                        nc == cmds@.len(),
                        c < nc,
                        cmds@[c as int] is BindVertexBuffers,
                        cmds@[c as int]->BindVertexBuffers_buffers == *bl,
                        translate_draws(bufs, cmds@.take(c as int)) == Ok::<
                            Seq<JobCmdV>,
                            SceneError,
                        >(views_of(out@)),
                        nb == bl@.len(),
                        b <= nb,
                        forall|t: int| 0 <= t < b ==> bufs.contains_key((#[trigger] bl@[t]).0@),
                    decreases nb - b,
                {
                    if !res.buffers.contains(bl[b].0.as_str()) {
                        proof {
                            assert(!bufs.contains_key(bl@[b as int].0@));
                            lemma_translate_draws_err(
                                bufs,
                                cmds@,
                                c as int,
                                SceneError::NameResolutionFailure,
                            );
                        }
                        return Err(SceneError::NameResolutionFailure);
                    }
                    b += 1;
                }
                let copied = clone_bindings(bl);
                proof {
                    assert(pair_views(copied@) =~= pair_views(bl@));
                }
                out.push(JobCommand::BindVertexBuffers { buffers: copied });
            },
            DrawCommand::BindPipeline { .. } => {
                proof {
                    lemma_translate_draws_err(bufs, cmds@, c as int, SceneError::UnsupportedCommand);
                }
                return Err(SceneError::UnsupportedCommand);
            },
            DrawCommand::BindDescriptorSets { .. } => {
                proof {
                    lemma_translate_draws_err(bufs, cmds@, c as int, SceneError::UnsupportedCommand);
                }
                return Err(SceneError::UnsupportedCommand);
            },
            DrawCommand::Draw { vertex_start, vertex_count, instance_start, instance_count } => {
                out.push(
                    JobCommand::Draw {
                        vertex_start: *vertex_start,
                        vertex_count: *vertex_count,
                        instance_start: *instance_start,
                        instance_count: *instance_count,
                    },
                );
            },
            DrawCommand::DrawIndexed {
                index_start,
                index_count,
                base_vertex,
                instance_start,
                instance_count,
            } => {
                out.push(
                    JobCommand::DrawIndexed {
                        index_start: *index_start,
                        index_count: *index_count,
                        base_vertex: *base_vertex,
                        instance_start: *instance_start,
                        instance_count: *instance_count,
                    },
                );
            },
        }
        proof {
            assert(views_of(out@) =~= views_of(out0).push(cmd_view(out@.last())));
        }
        c += 1;
    }
    proof {
        assert(cmds@.take(nc as int) =~= cmds@);
    }
    Ok(out)
}

/// Records one job against the built resource table: exactly the commands
/// `record_job_spec` gives against the description the table was built from,
/// or exactly its error.
pub fn record_job(
    res: &Resources,
    job: &Job,
    Ghost(dm): Ghost<Map<Seq<char>, crate::desc::Resource>>,
) -> (r: Result<JobBuffer, SceneError>)
    requires
        res.wf(),
        crate::builder::table_match(dm, res.render_passes, crate::builder::rp_sel(), crate::builder::rp_rel()),
        crate::builder::table_match(dm, res.framebuffers, crate::builder::fb_sel(), crate::builder::fb_rel(dm)),
    ensures
        ({
            let spec_r = record_job_spec(dm, res.buffers.view_map(), *job);
            match r {
                Ok(jb) => spec_r == Ok::<Seq<JobCmdV>, SceneError>(views_of(jb.commands@)),
                Err(e) => spec_r == Err::<Seq<JobCmdV>, SceneError>(e),
            }
        }),
{
    let ghost bufs = res.buffers.view_map();
    match job {
        Job::Transfer { commands } => {
            if commands.len() == 0 {
                let out: Vec<JobCommand> = Vec::new();
                proof {
                    assert(views_of(out@) =~= Seq::<JobCmdV>::empty());
                }
                Ok(JobBuffer { commands: out })
            } else {
                Err(SceneError::UnsupportedCommand)
            }
        },
        Job::Graphics { descriptors, framebuffer, pass, subpasses, clear_values } => {
            let fb = match res.framebuffers.get(framebuffer.as_str()) {
                Some(fb) => fb,
                None => {
                    return Err(SceneError::NameResolutionFailure);
                },
            };
            let rp = match res.render_passes.get(pass.as_str()) {
                Some(rp) => rp,
                None => {
                    return Err(SceneError::NameResolutionFailure);
                },
            };
            let mut commands: Vec<JobCommand> = Vec::new();
            commands.push(
                JobCommand::BeginRenderPass {
                    pass: pass.clone(),
                    framebuffer: framebuffer.clone(),
                    width: fb.extent.width,
                    height: fb.extent.height,
                    clear_values: crate::table::clone_plain(clear_values),
                },
            );
            let ghost begin_v = cmd_view(commands@[0]);
            let ghost names = subpass_names(dm[pass@]->RenderPass_subpasses@);
            proof {
                assert(names.take(0) =~= Seq::<Seq<char>>::empty());
                assert(views_of(commands@.skip(1)) =~= Seq::<JobCmdV>::empty());
                assert(dm.contains_key(pass@) && dm[pass@] is RenderPass);
                assert(crate::builder::rp_rel()(dm[pass@], *rp));
            }
            let ns = rp.subpasses.len();
            let mut s: usize = 0;
            while s < ns
                invariant
                    res.wf(),
                    bufs == res.buffers.view_map(),
                    *job is Graphics,
                    dm.contains_key(framebuffer@) && dm[framebuffer@] is Framebuffer,
                    dm.contains_key(pass@) && dm[pass@] is RenderPass,
                    names == subpass_names(dm[pass@]->RenderPass_subpasses@),
                    ns == names.len(),
                    pass@ == job->Graphics_pass@,
                    framebuffer@ == job->Graphics_framebuffer@,
                    ns == rp.subpasses@.len(),
                    forall|t: int| 0 <= t < ns ==> (#[trigger] rp.subpasses@[t])@ == names[t],
                    subpasses@ == job->Graphics_subpasses@,
                    s <= ns,
                    commands@.len() >= 1,
                    cmd_view(commands@[0]) == begin_v,
                    record_subpasses(bufs, subpasses@, names.take(s as int)) == Ok::<
                        Seq<JobCmdV>,
                        SceneError,
                    >(views_of(commands@.skip(1))),
                decreases ns - s,
            {
                proof {
                    assert(names.take(s + 1).drop_last() =~= names.take(s as int));
                    assert(names.take(s + 1).last() == names[s as int]);
                    assert(rp.subpasses@[s as int]@ == names[s as int]);
                }
                let sp = match crate::resources::find_pair(subpasses, rp.subpasses[s].as_str()) {
                    Some((_, sp)) => sp,
                    None => {
                        proof {
                            lemma_record_subpasses_err(
                                bufs,
                                subpasses@,
                                names,
                                s as int,
                                SceneError::NameResolutionFailure,
                            );
                        }
                        return Err(SceneError::NameResolutionFailure);
                    },
                };
                let cs = match record_draws(res, &sp.commands) {
                    Ok(cs) => cs,
                    Err(e) => {
                        proof {
                            lemma_record_subpasses_err(bufs, subpasses@, names, s as int, e);
                        }
                        return Err(e);
                    },
                };
                let ghost c0 = commands@;
                let ghost csv = views_of(cs@);
                if s > 0 {
                    commands.push(JobCommand::NextSubpass);
                }
                let mut tail = cs;
                commands.append(&mut tail);
                proof {
                    if s > 0 {
                        assert(views_of(commands@.skip(1)) =~= views_of(c0.skip(1)) + seq![
                            JobCmdV::NextSubpass,
                        ] + csv);
                    } else {
                        assert(c0.skip(1) =~= Seq::<JobCommand>::empty());
                        assert(views_of(commands@.skip(1)) =~= views_of(c0.skip(1)) + Seq::<
                            JobCmdV,
                        >::empty() + csv);
                    }
                }
                s += 1;
            }
            proof {
                assert(names.take(ns as int) =~= names);
                assert(views_of(commands@) =~= seq![begin_v] + views_of(commands@.skip(1)));
                assert(crate::builder::fb_rel(dm)(dm[framebuffer@], *fb));
                assert(fb.extent == dm[framebuffer@]->Framebuffer_extent);
            }
            Ok(JobBuffer { commands })
        },
    }
}

} // verus!
