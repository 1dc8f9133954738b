//! The scene: the sole entry point. Construction builds the resource table,
//! stages uploads, records the one-time initialization buffer and one
//! finished buffer per job; `run` submits jobs after the initialization
//! buffer, never before; `fetch_image` plans a synchronous read-back that
//! leaves the image's stable state exactly as it found it.
use vstd::prelude::*;

use crate::builder::{
    all_images_fit, build_resources, init_cmds_of, resolves, table_match, tables_match,
    upload_rel, upload_sel, uploads_available, InitCommand, UploadBuffer,
};
use crate::desc::{DeviceLimits, Job, SceneDesc};
use crate::errors::SceneError;
use crate::fetch::FetchPlan;
use crate::record::{record_job, record_job_spec, views_of, JobBuffer, JobCmdV};
use crate::resources::{
    buffer_size_spec, image_fits, row_pitch_spec, rows_spec, staging_layout, width_bytes_spec,
    BufferEntry, Resources,
};
use crate::table::{map_of, Table};

verus! {

/// Every job is selected for recording.
pub open spec fn job_sel() -> spec_fn(Job) -> bool {
    |job: Job| true
}

/// The recorded buffer says exactly what the recorder's contract gives for
/// the declaration.
pub open spec fn job_rel(
    dm: Map<Seq<char>, crate::desc::Resource>,
    bufs: Map<Seq<char>, BufferEntry>,
) -> spec_fn(Job, JobBuffer) -> bool {
    |job: Job, jb: JobBuffer|
        record_job_spec(dm, bufs, job) == Ok::<Seq<JobCmdV>, SceneError>(views_of(jb.commands@))
}

/// The first failure recording the jobs in declaration order, if any.
pub open spec fn jobs_problem(
    dm: Map<Seq<char>, crate::desc::Resource>,
    bufs: Map<Seq<char>, BufferEntry>,
    jobs: Seq<(String, Job)>,
) -> Option<SceneError>
    decreases jobs.len(),
{
    if jobs.len() == 0 {
        None
    } else {
        match jobs_problem(dm, bufs, jobs.drop_last()) {
            Some(e) => Some(e),
            None => match record_job_spec(dm, bufs, jobs.last().1) {
                Err(e) => Some(e),
                Ok(_) => None,
            },
        }
    }
}

/// A failure recording job `k` is the whole description's first problem when
/// the jobs before it record.
pub proof fn lemma_jobs_problem_err(
    dm: Map<Seq<char>, crate::desc::Resource>,
    bufs: Map<Seq<char>, BufferEntry>,
    jobs: Seq<(String, Job)>,
    k: int,
    e: SceneError,
)
    requires
        0 <= k < jobs.len(),
        jobs_problem(dm, bufs, jobs.take(k)) is None,
        record_job_spec(dm, bufs, jobs[k].1) == Err::<Seq<JobCmdV>, SceneError>(e),
    ensures
        jobs_problem(dm, bufs, jobs) == Some(e),
    decreases jobs.len(),
{
    if k == jobs.len() - 1 {
        assert(jobs.drop_last() =~= jobs.take(k));
    } else {
        assert(jobs.drop_last().take(k) =~= jobs.take(k));
        assert(jobs.drop_last()[k] == jobs[k]);
        lemma_jobs_problem_err(dm, bufs, jobs.drop_last(), k, e);
    }
}

/// One element of a submission, in submission order.
pub enum SubmitItem {
    /// The one-time initialization buffer: uploads and layout transitions.
    Init { commands: Vec<InitCommand> },
    /// One named job's finished buffer.
    Job { name: String, buffer: JobBuffer },
}

/// One queue submission: its items execute in order, so everything a later
/// item reads from an earlier item's writes is visible.
pub struct Submission {
    pub items: Vec<SubmitItem>,
}

/// Running these names takes each out of the job table once: every name is
/// present and no name repeats.
pub open spec fn can_run(jobs: Map<Seq<char>, JobBuffer>, names: Seq<String>) -> bool {
    &&& forall|i: int| 0 <= i < names.len() ==> jobs.contains_key((#[trigger] names[i])@)
    &&& forall|i: int, j: int|
        0 <= i < j < names.len() ==> (#[trigger] names[i])@ != (#[trigger] names[j])@
}

/// The job table after the named buffers are taken out.
pub open spec fn remove_all(
    m: Map<Seq<char>, JobBuffer>,
    names: Seq<String>,
) -> Map<Seq<char>, JobBuffer>
    decreases names.len(),
{
    if names.len() == 0 {
        m
    } else {
        remove_all(m, names.drop_last()).remove(names.last()@)
    }
}

/// Taking names out leaves every other name bound as it was.
pub proof fn lemma_remove_all_other(m: Map<Seq<char>, JobBuffer>, names: Seq<String>, q: Seq<char>)
    requires
        forall|i: int| 0 <= i < names.len() ==> (#[trigger] names[i])@ != q,
    ensures
        remove_all(m, names).contains_key(q) == m.contains_key(q),
        m.contains_key(q) ==> remove_all(m, names)[q] == m[q],
    decreases names.len(),
{
    if names.len() > 0 {
        assert forall|i: int| 0 <= i < names.drop_last().len()
            implies (#[trigger] names.drop_last()[i])@ != q by {
            assert(names[i]@ != q);
        }
        lemma_remove_all_other(m, names.drop_last(), q);
        assert(names.last()@ != q);
    }
}

/// The scene: owner of the built resource table, the staged uploads, the
/// recorded initialization buffer and job buffers, and the device limits the
/// plans were computed against.
pub struct Scene {
    pub resources: Resources,
    pub jobs: Table<JobBuffer>,
    pub init_commands: Vec<InitCommand>,
    pub init_submitted: bool,
    pub upload_buffers: Table<UploadBuffer>,
    pub limits: DeviceLimits,
}

impl Scene {
    /// Tables keyed soundly, and every image's staging arithmetic within
    /// machine bounds for this scene's limits.
    pub open spec fn wf(&self) -> bool {
        &&& self.resources.wf()
        &&& self.jobs.wf()
        &&& self.upload_buffers.wf()
        &&& forall|k: Seq<char>|
            #[trigger] self.resources.images.contains_spec(k) ==> {
                let img = self.resources.images.view_map()[k];
                image_fits(img.format, img.dims, self.limits) && row_pitch_spec(
                    img.format,
                    img.dims,
                    self.limits,
                ) * img.dims.height <= u64::MAX
            }
    }

    /// Builds the whole scene from a description: the resource table in
    /// three passes, the staged uploads, the initialization buffer, and one
    /// finished buffer per job. Succeeds exactly when every name reference
    /// resolves and every job records.
    #[verifier::rlimit(100)]
    pub fn new(desc: &SceneDesc, limits: DeviceLimits, data_files: &Table<Vec<u8>>) -> (r: Result<
        Scene,
        SceneError,
    >)
        requires
            desc.resources.wf(),
            desc.jobs.wf(),
            data_files.wf(),
            all_images_fit(desc.resources.entries@, limits),
            uploads_available(desc.resources.entries@, data_files.view_map(), limits),
        ensures
            ({
                let dm = map_of(desc.resources.entries@);
                let bufs = Map::<Seq<char>, BufferEntry>::empty();
                match r {
                    Ok(scene) => {
                        &&& resolves(dm)
                        &&& jobs_problem(dm, bufs, desc.jobs.entries@) is None
                        &&& scene.wf()
                        &&& tables_match(dm, scene.resources)
                        &&& scene.init_commands@ == init_cmds_of(desc.resources.entries@, limits)
                        &&& table_match(
                            dm,
                            scene.upload_buffers,
                            upload_sel(),
                            upload_rel(limits, data_files.view_map()),
                        )
                        &&& table_match(
                            map_of(desc.jobs.entries@),
                            scene.jobs,
                            job_sel(),
                            job_rel(dm, bufs),
                        )
                        &&& !scene.init_submitted
                        &&& scene.limits == limits
                    },
                    Err(e) => {
                        &&& !(resolves(dm) && jobs_problem(dm, bufs, desc.jobs.entries@) is None)
                        &&& (!resolves(dm) ==> e == SceneError::NameResolutionFailure)
                        &&& (resolves(dm) ==> jobs_problem(dm, bufs, desc.jobs.entries@) == Some(
                            e,
                        ))
                    },
                }
            }),
    {
        let ghost d = desc.resources.entries@;
        let ghost dm = map_of(d);
        let ghost jd = desc.jobs.entries@;
        let ghost bufs = Map::<Seq<char>, BufferEntry>::empty();
        let (resources, init_commands, upload_buffers) = match build_resources(
            &desc.resources,
            limits,
            data_files,
        ) {
            Ok(t) => t,
            Err(e) => {
                proof {
                    assert(e == SceneError::NameResolutionFailure);
                    assert(!resolves(dm));
                }
                return Err(e);
            },
        };
        proof {
            assert(resolves(dm));
            assert(resources.buffers.entries@ =~= Seq::<(String, BufferEntry)>::empty());
            assert(resources.buffers.view_map() =~= bufs);
            assert(jd.take(0) =~= Seq::<(String, Job)>::empty());
        }
        let mut jobs: Table<JobBuffer> = Table::new();
        let nj = desc.jobs.entries.len();
        let mut i: usize = 0;
        while i < nj
            invariant
                desc.jobs.wf(),
                jd == desc.jobs.entries@,
                nj == jd.len(),
                i <= nj,
                d == desc.resources.entries@,
                dm == map_of(d),
                resolves(dm),
                resources.wf(),
                tables_match(dm, resources),
                bufs == Map::<Seq<char>, BufferEntry>::empty(),
                resources.buffers.view_map() == bufs,
                jobs.wf(),
                crate::builder::table_match_upto(jd, i as int, jobs, job_sel(), job_rel(dm, bufs)),
                jobs_problem(dm, bufs, jd.take(i as int)) is None,
            decreases nj - i,
        {
            proof {
                assert(jd.take(i + 1).drop_last() =~= jd.take(i as int));
                assert(jd.take(i + 1).last() == jd[i as int]);
            }
            match record_job(&resources, &desc.jobs.entries[i].1, Ghost(dm)) {
                Ok(jb) => {
                    let ghost t0 = jobs;
                    let ghost jv = jb;
                    jobs.insert(desc.jobs.entries[i].0.clone(), jb);
                    proof {
                        crate::builder::lemma_upto_insert(
                            jd,
                            i as int,
                            t0,
                            jobs,
                            jv,
                            job_sel(),
                            job_rel(dm, bufs),
                        );
                    }
                },
                Err(e) => {
                    proof {
                        assert(record_job_spec(dm, bufs, jd[i as int].1) == Err::<
                            Seq<JobCmdV>,
                            SceneError,
                        >(e));
                        lemma_jobs_problem_err(dm, bufs, jd, i as int, e);
                        assert(jobs_problem(
                            map_of(desc.resources.entries@),
                            Map::<Seq<char>, BufferEntry>::empty(),
                            desc.jobs.entries@,
                        ) == Some(e));
                        assert(resolves(map_of(desc.resources.entries@)));
                    }
                    return Err(e);
                },
            }
            i += 1;
        }
        proof {
            assert(jd.take(nj as int) =~= jd);
            crate::builder::lemma_table_match(jd, jobs, job_sel(), job_rel(dm, bufs));
        }
        let scene = Scene {
            resources,
            jobs,
            init_commands,
            init_submitted: false,
            upload_buffers,
            limits,
        };
        proof {
            assert forall|k: Seq<char>| #[trigger] scene.resources.images.contains_spec(k)
                implies {
                let img = scene.resources.images.view_map()[k];
                image_fits(img.format, img.dims, limits) && row_pitch_spec(
                    img.format,
                    img.dims,
                    limits,
                ) * img.dims.height <= u64::MAX
            } by {
                crate::table::lemma_map_of_contains(d, k);
                let j = choose|j: int| 0 <= j < d.len() && (#[trigger] d[j]).0@ == k;
                crate::table::lemma_map_of_at(d, j);
            }
        }
        Ok(scene)
    }

    /// Takes the named finished buffers out of the job table and submits
    /// them, ordered after the one-time initialization buffer, which the
    /// first call submits exactly once, at the head: no job buffer ever
    /// executes before it. A name that is absent — or named twice — fails
    /// and leaves the scene untouched.
    #[verifier::rlimit(100)]
    pub fn run(&mut self, job_names: &Vec<String>) -> (r: Result<Submission, SceneError>)
        requires
            old(self).wf(),
        ensures
            final(self).wf(),
            final(self).resources == old(self).resources,
            final(self).upload_buffers == old(self).upload_buffers,
            final(self).limits == old(self).limits,
            match r {
                Ok(s) => {
                    let base: int = if old(self).init_submitted {
                        0
                    } else {
                        1
                    };
                    &&& can_run(old(self).jobs.view_map(), job_names@)
                    &&& final(self).init_submitted
                    &&& s.items@.len() == job_names@.len() + base
                    &&& (!old(self).init_submitted ==> s.items@[0] is Init
                        && s.items@[0]->Init_commands@ == old(self).init_commands@)
                    &&& forall|k: int|
                        0 <= k < job_names@.len() ==> {
                            let it = #[trigger] s.items@[base + k];
                            &&& it is Job
                            &&& it->Job_name@ == job_names@[k]@
                            &&& it->Job_buffer == old(self).jobs.view_map()[job_names@[k]@]
                        }
                    &&& forall|a: int, b: int|
                        0 <= a < s.items@.len() && 0 <= b < s.items@.len() && (#[trigger] s.items@[a])
                            is Init && (#[trigger] s.items@[b]) is Job ==> a < b
                    &&& final(self).jobs.view_map() == remove_all(
                        old(self).jobs.view_map(),
                        job_names@,
                    )
                },
                Err(e) => {
                    &&& e == SceneError::NameResolutionFailure
                    &&& !can_run(old(self).jobs.view_map(), job_names@)
                    &&& *final(self) == *old(self)
                },
            },
    {
        // Check first, so a miss leaves the scene untouched.
        let n = job_names.len();
        let mut i: usize = 0;
        while i < n
            invariant
                self.wf(),
                *self == *old(self),
                n == job_names@.len(),
                i <= n,
                forall|j: int|
                    0 <= j < i ==> self.jobs.contains_spec((#[trigger] job_names@[j])@),
                forall|a: int, b: int|
                    0 <= a < b < i ==> (#[trigger] job_names@[a])@ != (#[trigger] job_names@[b])@,
            decreases n - i,
        {
            if !self.jobs.contains(job_names[i].as_str()) {
                return Err(SceneError::NameResolutionFailure);
            }
            let mut j: usize = 0;
            while j < i
                invariant
                    *self == *old(self),
                    self.wf(),
                    n == job_names@.len(),
                    j <= i < n,
                    forall|a: int|
                        0 <= a < j ==> (#[trigger] job_names@[a])@ != job_names@[i as int]@,
                decreases i - j,
            {
                if crate::table::str_eq(job_names[j].as_str(), job_names[i].as_str()) {
                    return Err(SceneError::NameResolutionFailure);
                }
                j += 1;
            }
            i += 1;
        }
        proof {
            assert(can_run(self.jobs.view_map(), job_names@));
        }

        let mut items: Vec<SubmitItem> = Vec::new();
        if !self.init_submitted {
            let mut taken: Vec<InitCommand> = Vec::new();
            core::mem::swap(&mut self.init_commands, &mut taken);
            items.push(SubmitItem::Init { commands: taken });
            self.init_submitted = true;
        }
        let ghost base: int = items@.len() as int;
        proof {
            assert(job_names@.take(0) =~= Seq::<String>::empty());
        }
        let mut k: usize = 0;
        while k < n
            invariant
                self.resources == old(self).resources,
                self.upload_buffers == old(self).upload_buffers,
                self.limits == old(self).limits,
                self.init_submitted,
                self.wf(),
                n == job_names@.len(),
                k <= n,
                base == if old(self).init_submitted { 0int } else { 1int },
                items@.len() == base + k,
                base == 1 ==> items@[0] is Init && items@[0]->Init_commands@ == old(
                    self,
                ).init_commands@,
                forall|t: int|
                    0 <= t < k ==> {
                        let it = #[trigger] items@[base + t];
                        &&& it is Job
                        &&& it->Job_name@ == job_names@[t]@
                        &&& it->Job_buffer == old(self).jobs.view_map()[job_names@[t]@]
                    },
                forall|a: int, b: int|
                    0 <= a < b < n ==> (#[trigger] job_names@[a])@ != (#[trigger] job_names@[b])@,
                self.jobs.wf(),
                can_run(old(self).jobs.view_map(), job_names@),
                self.jobs.view_map() == remove_all(
                    old(self).jobs.view_map(),
                    job_names@.take(k as int),
                ),
            decreases n - k,
        {
            proof {
                let nm = job_names@[k as int]@;
                assert forall|t: int| 0 <= t < k implies (#[trigger] job_names@.take(
                    k as int,
                )[t])@ != nm by {
                    assert(job_names@[t]@ != job_names@[k as int]@);
                }
                lemma_remove_all_other(
                    old(self).jobs.view_map(),
                    job_names@.take(k as int),
                    nm,
                );
                assert(self.jobs.contains_spec(nm));
            }
            let buffer = match self.jobs.remove(job_names[k].as_str()) {
                Some(b) => b,
                None => {
                    proof {
                        assert(false);
                    }
                    return Err(SceneError::NameResolutionFailure);
                },
            };
            items.push(SubmitItem::Job { name: job_names[k].clone(), buffer });
            proof {
                assert(job_names@.take(k + 1).drop_last() =~= job_names@.take(k as int));
                assert(job_names@.take(k + 1).last() == job_names@[k as int]);
            }
            k += 1;
        }
        proof {
            assert(job_names@.take(n as int) =~= job_names@);
        }
        proof {
            assert forall|a: int, b: int|
                0 <= a < items@.len() && 0 <= b < items@.len() && (#[trigger] items@[a]) is Init
                    && (#[trigger] items@[b]) is Job implies a < b by {
                if a >= base {
                    assert(items@[base + (a - base)] is Job);
                }
                if b < base {
                    assert(items@[0] is Init);
                }
            }
        }
        Ok(Submission { items })
    }

    /// Tears the scene down. The transient upload staging buffers are the
    /// objects released explicitly, each exactly once; the caller destroys
    /// the buffer and frees the memory behind every name handed back.
    /// Consuming the scene ends every use of its tables and buffers.
    pub fn teardown(self) -> (r: Vec<String>)
        ensures
            r@.len() == self.upload_buffers.entries@.len(),
            forall|i: int|
                0 <= i < r@.len() ==> (#[trigger] r@[i])@ == self.upload_buffers.entries@[i].0@,
    {
        crate::resources::clone_keys(&self.upload_buffers.entries)
    }

    /// Plans a synchronous read-back of the named image: the staging
    /// geometry at this device's pitch alignment, a barrier out of the
    /// image's stable state into the transfer-source state, the copy, and a
    /// barrier restoring exactly the stable state it left — the image's
    /// tracked stable state is unchanged by the whole operation. Fails
    /// exactly when no image carries the name.
    pub fn fetch_image(&self, name: &str) -> (r: Result<FetchPlan, SceneError>)
        requires
            self.wf(),
        ensures
            match r {
                Ok(plan) => {
                    &&& self.resources.images.contains_spec(name@)
                    &&& ({
                        let img = self.resources.images.view_map()[name@];
                        &&& plan.image@ == name@
                        &&& plan.width_bytes == width_bytes_spec(img.format, img.dims)
                        &&& plan.row_pitch == row_pitch_spec(img.format, img.dims, self.limits)
                        &&& plan.rows == rows_spec(img.dims)
                        &&& plan.buffer_size == buffer_size_spec(img.format, img.dims, self.limits)
                        &&& plan.restores(img.stable_state)
                    })
                },
                Err(e) => {
                    &&& e == SceneError::NameResolutionFailure
                    &&& !self.resources.images.contains_spec(name@)
                },
            },
    {
        let img = match self.resources.images.get(name) {
            Some(img) => img,
            None => {
                return Err(SceneError::NameResolutionFailure);
            },
        };
        let (width_bytes, row_pitch, rows, buffer_size) = staging_layout(
            img.format,
            img.dims,
            self.limits,
        );
        Ok(
            FetchPlan {
                image: name.to_owned(),
                width_bytes,
                row_pitch,
                rows,
                buffer_size,
                pre_barrier: (img.stable_state, crate::fetch::transfer_source()),
                post_barrier: (crate::fetch::transfer_source(), img.stable_state),
            },
        )
    }
}

} // verus!
