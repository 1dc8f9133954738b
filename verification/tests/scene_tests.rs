use warden::align;
use warden::desc::{
    choose_download_type, choose_memory_type, choose_upload_type, stable_state_for, AttachmentDesc,
    DeviceLimits, Dimensions, DrawCommand, ImageLayout, ImageState, Job, MemoryType, PixelFormat,
    Resource, SceneDesc, SubpassDesc, SubpassJob, SubresourceRange, ACCESS_COLOR_ATTACHMENT_WRITE,
    ACCESS_DEPTH_STENCIL_ATTACHMENT_WRITE, ACCESS_SHADER_READ, ACCESS_TRANSFER_READ,
    MEMORY_CPU_CACHED, MEMORY_CPU_VISIBLE, MEMORY_DEVICE_LOCAL,
};
use warden::errors::SceneError;
use warden::fetch::{pack_rows, FetchGuard, ReleaseAction};
use warden::scene::{Scene, SubmitItem};
use warden::table::Table;

fn limits() -> DeviceLimits {
    DeviceLimits { min_buffer_copy_pitch_alignment: 8 }
}

fn color_format() -> PixelFormat {
    PixelFormat { total_bits: 8, color_bits: 8 }
}

fn full_range() -> SubresourceRange {
    SubresourceRange { aspects: 1, level_start: 0, level_end: 1, layer_start: 0, layer_end: 1 }
}

fn image_res(data: &str) -> Resource {
    Resource::Image {
        dims: Dimensions { width: 4, height: 4, depth: 1 },
        levels: 1,
        format: color_format(),
        usage: 0,
        data: data.to_string(),
    }
}

fn view_res(image: &str) -> Resource {
    Resource::ImageView {
        image: image.to_string(),
        format: color_format(),
        swizzle: 0,
        range: full_range(),
    }
}

fn pass_res() -> Resource {
    Resource::RenderPass {
        attachments: vec![(
            "color".to_string(),
            AttachmentDesc { format: color_format(), ops: 0 },
        )],
        subpasses: vec![(
            "main".to_string(),
            SubpassDesc {
                colors: vec![("color".to_string(), ImageLayout::ColorAttachmentOptimal)],
                depth_stencil: None,
                inputs: vec![],
                preserves: vec![],
            },
        )],
        dependencies: vec![],
    }
}

fn fb_res(view: &str) -> Resource {
    Resource::Framebuffer {
        pass: "rp".to_string(),
        views: vec![("color".to_string(), view.to_string())],
        extent: Dimensions { width: 4, height: 4, depth: 1 },
    }
}

fn draw_job() -> Job {
    Job::Graphics {
        descriptors: vec![],
        framebuffer: "fb".to_string(),
        pass: "rp".to_string(),
        subpasses: vec![(
            "main".to_string(),
            SubpassJob {
                commands: vec![DrawCommand::Draw {
                    vertex_start: 0,
                    vertex_count: 3,
                    instance_start: 0,
                    instance_count: 1,
                }],
            },
        )],
        clear_values: vec![],
    }
}

fn simple_desc(resources: Vec<(String, Resource)>, jobs: Vec<(String, Job)>) -> SceneDesc {
    SceneDesc { resources: Table { entries: resources }, jobs: Table { entries: jobs } }
}

fn pixel_files() -> Table<Vec<u8>> {
    let bytes: Vec<u8> = (0u8..16u8).collect();
    Table { entries: vec![("img.raw".to_string(), bytes)] }
}

fn working_scene() -> Scene {
    let desc = simple_desc(
        vec![
            ("img".to_string(), image_res("img.raw")),
            ("view".to_string(), view_res("img")),
            ("rp".to_string(), pass_res()),
            ("fb".to_string(), fb_res("view")),
        ],
        vec![("draw".to_string(), draw_job())],
    );
    Scene::new(&desc, limits(), &pixel_files()).expect("scene should build")
}

#[test]
fn align_rounds_up_to_the_next_multiple() {
    assert_eq!(align(5, 4), 8);
    assert_eq!(align(8, 4), 8);
    assert_eq!(align(1, 8), 8);
    assert_eq!(align(7, 3), 9);
    assert_eq!(align(9, 3), 9);
}

#[test]
fn align_leaves_zero_arguments_unchanged() {
    assert_eq!(align(3, 0), 3);
    assert_eq!(align(0, 7), 0);
    assert_eq!(align(0, 0), 0);
}

#[test]
fn stable_state_follows_upload_and_format() {
    let uploaded = stable_state_for(color_format(), true);
    assert_eq!(uploaded.access, ACCESS_SHADER_READ);
    assert_eq!(uploaded.layout, ImageLayout::ShaderReadOnlyOptimal);
    let color = stable_state_for(color_format(), false);
    assert_eq!(color.access, ACCESS_COLOR_ATTACHMENT_WRITE);
    assert_eq!(color.layout, ImageLayout::ColorAttachmentOptimal);
    let depth = stable_state_for(PixelFormat { total_bits: 32, color_bits: 0 }, false);
    assert_eq!(depth.access, ACCESS_DEPTH_STENCIL_ATTACHMENT_WRITE);
    assert_eq!(depth.layout, ImageLayout::DepthStencilAttachmentOptimal);
}

#[test]
fn memory_type_choice_takes_the_first_match_and_reports_misses() {
    let types = vec![
        MemoryType { id: 0, properties: MEMORY_DEVICE_LOCAL },
        MemoryType { id: 1, properties: MEMORY_CPU_VISIBLE },
        MemoryType { id: 2, properties: MEMORY_CPU_VISIBLE | MEMORY_CPU_CACHED },
    ];
    assert_eq!(choose_upload_type(&types), Ok(1));
    assert_eq!(choose_download_type(&types), Ok(2));
    assert_eq!(choose_memory_type(&types, 0b001, MEMORY_DEVICE_LOCAL), Ok(0));
    assert_eq!(
        choose_memory_type(&vec![], 0xffff_ffff, MEMORY_CPU_VISIBLE),
        Err(SceneError::UnsupportedMemoryType)
    );
}

#[test]
fn resolution_is_order_independent() {
    let forward = simple_desc(
        vec![
            ("img".to_string(), image_res("img.raw")),
            ("view".to_string(), view_res("img")),
            ("rp".to_string(), pass_res()),
            ("fb".to_string(), fb_res("view")),
        ],
        vec![],
    );
    let backward = simple_desc(
        vec![
            ("fb".to_string(), fb_res("view")),
            ("rp".to_string(), pass_res()),
            ("view".to_string(), view_res("img")),
            ("img".to_string(), image_res("img.raw")),
        ],
        vec![],
    );
    let s1 = Scene::new(&forward, limits(), &pixel_files()).expect("forward order builds");
    let s2 = Scene::new(&backward, limits(), &pixel_files()).expect("backward order builds");
    let f1 = s1.resources.framebuffers.get("fb").expect("framebuffer built");
    let f2 = s2.resources.framebuffers.get("fb").expect("framebuffer built");
    assert_eq!(f1.view_order, f2.view_order);
    assert_eq!(f1.view_order, vec!["view".to_string()]);
    assert_eq!(f1.pass, f2.pass);
}

#[test]
fn fetch_restores_the_stable_state() {
    let scene = working_scene();
    let before = scene.resources.images.get("img").expect("image built").stable_state;
    let plan = scene.fetch_image("img").expect("image is fetchable");
    assert_eq!(plan.pre_barrier.0, before);
    assert_eq!(
        plan.pre_barrier.1,
        ImageState { access: ACCESS_TRANSFER_READ, layout: ImageLayout::TransferSrcOptimal }
    );
    assert_eq!(plan.post_barrier.0, plan.pre_barrier.1);
    assert_eq!(plan.post_barrier.1, before);
    let after = scene.resources.images.get("img").expect("image built").stable_state;
    assert_eq!(after, before);
}

#[test]
fn fetch_of_a_missing_image_fails() {
    let scene = working_scene();
    match scene.fetch_image("ghost") {
        Err(e) => assert_eq!(e, SceneError::NameResolutionFailure),
        Ok(_) => panic!("fetching a missing image must fail"),
    }
}

#[test]
fn init_buffer_precedes_every_job_buffer() {
    let mut scene = working_scene();
    let submission = scene.run(&vec!["draw".to_string()]).expect("job runs");
    assert_eq!(submission.items.len(), 2);
    assert!(matches!(submission.items[0], SubmitItem::Init { .. }));
    match &submission.items[1] {
        SubmitItem::Job { name, buffer } => {
            assert_eq!(name, "draw");
            assert!(!buffer.commands.is_empty());
        }
        SubmitItem::Init { .. } => panic!("the job must come after the init buffer"),
    }
    // A second run of the same name fails: the buffer was consumed.
    match scene.run(&vec!["draw".to_string()]) {
        Err(e) => assert_eq!(e, SceneError::NameResolutionFailure),
        Ok(_) => panic!("a consumed job must not run again"),
    }
}

#[test]
fn rows_survive_the_pitch_padded_round_trip() {
    let scene = working_scene();
    let upload = scene.upload_buffers.get("img").expect("upload staged");
    assert_eq!(upload.width_bytes, 4);
    assert_eq!(upload.row_pitch, 8);
    assert_eq!(upload.size, 32);
    // Stand in for the device: the copy lands the staged bytes unchanged.
    let guard = FetchGuard::new(upload.contents.clone(), 8, 4, 4, 7, 9);
    for y in 0..4usize {
        let row = guard.row(y);
        let expected: Vec<u8> =
            (0..4).map(|x| (y * 4 + x) as u8).collect();
        assert_eq!(row, &expected[..]);
    }
}

#[test]
fn pack_rows_places_rows_at_the_pitch_and_zeroes_padding() {
    let data: Vec<u8> = vec![1, 2, 3, 4, 5, 6];
    let packed = pack_rows(&data, 3, 5, 2);
    assert_eq!(packed, vec![1, 2, 3, 0, 0, 4, 5, 6, 0, 0]);
}

#[test]
fn guard_release_frees_buffer_and_memory_exactly_once() {
    let guard = FetchGuard::new(vec![0u8; 8], 8, 4, 1, 42, 77);
    let actions = guard.release();
    assert_eq!(
        actions,
        vec![
            ReleaseAction::UnmapBuffer { buffer: 42 },
            ReleaseAction::DestroyBuffer { buffer: 42 },
            ReleaseAction::FreeMemory { memory: 77 },
        ]
    );
    // Count what a device double would see: each object touched once.
    let mut buffer_destroys = 0;
    let mut memory_frees = 0;
    let mut unmaps = 0;
    for a in &actions {
        match a {
            ReleaseAction::UnmapBuffer { buffer } => {
                assert_eq!(*buffer, 42);
                unmaps += 1;
            }
            ReleaseAction::DestroyBuffer { buffer } => {
                assert_eq!(*buffer, 42);
                buffer_destroys += 1;
            }
            ReleaseAction::FreeMemory { memory } => {
                assert_eq!(*memory, 77);
                memory_frees += 1;
            }
        }
    }
    assert_eq!((unmaps, buffer_destroys, memory_frees), (1, 1, 1));
    // `release` consumed the guard, so no second release can be written.
}

#[test]
fn a_framebuffer_naming_a_missing_view_fails_before_it_is_built() {
    let desc = simple_desc(
        vec![
            ("img".to_string(), image_res("img.raw")),
            ("view".to_string(), view_res("img")),
            ("rp".to_string(), pass_res()),
            ("fb".to_string(), fb_res("nonexistent")),
        ],
        vec![],
    );
    let r = Scene::new(&desc, limits(), &pixel_files());
    assert!(matches!(r, Err(SceneError::NameResolutionFailure)));
}

#[test]
fn a_view_naming_a_missing_image_fails() {
    let desc = simple_desc(vec![("view".to_string(), view_res("ghost"))], vec![]);
    assert!(matches!(
        Scene::new(&desc, limits(), &pixel_files()),
        Err(SceneError::NameResolutionFailure)
    ));
}

#[test]
fn unsupported_draw_commands_are_reported_not_dropped() {
    let job = Job::Graphics {
        descriptors: vec![],
        framebuffer: "fb".to_string(),
        pass: "rp".to_string(),
        subpasses: vec![(
            "main".to_string(),
            SubpassJob { commands: vec![DrawCommand::BindPipeline { pipeline: "p".to_string() }] },
        )],
        clear_values: vec![],
    };
    let desc = simple_desc(
        vec![
            ("img".to_string(), image_res("img.raw")),
            ("view".to_string(), view_res("img")),
            ("rp".to_string(), pass_res()),
            ("fb".to_string(), fb_res("view")),
        ],
        vec![("bad".to_string(), job)],
    );
    assert!(matches!(
        Scene::new(&desc, limits(), &pixel_files()),
        Err(SceneError::UnsupportedCommand)
    ));
}

#[test]
fn buffer_binds_fail_because_no_buffer_is_ever_realized() {
    let job = Job::Graphics {
        descriptors: vec![],
        framebuffer: "fb".to_string(),
        pass: "rp".to_string(),
        subpasses: vec![(
            "main".to_string(),
            SubpassJob {
                commands: vec![DrawCommand::BindIndexBuffer {
                    buffer: "ib".to_string(),
                    offset: 0,
                    index_type: 0,
                }],
            },
        )],
        clear_values: vec![],
    };
    let desc = simple_desc(
        vec![
            ("ib".to_string(), Resource::Buffer),
            ("img".to_string(), image_res("img.raw")),
            ("view".to_string(), view_res("img")),
            ("rp".to_string(), pass_res()),
            ("fb".to_string(), fb_res("view")),
        ],
        vec![("indexed".to_string(), job)],
    );
    assert!(matches!(
        Scene::new(&desc, limits(), &pixel_files()),
        Err(SceneError::NameResolutionFailure)
    ));
}

#[test]
fn teardown_releases_each_upload_buffer_once() {
    let scene = working_scene();
    let names = scene.teardown();
    assert_eq!(names, vec!["img".to_string()]);
}

#[test]
fn the_init_buffer_uploads_through_a_barrier_round_trip() {
    let scene = working_scene();
    assert_eq!(scene.init_commands.len(), 3);
    match &scene.init_commands[0] {
        warden::builder::InitCommand::Barrier { image, from, to } => {
            assert_eq!(image, "img");
            assert_eq!(from.layout, ImageLayout::Undefined);
            assert_eq!(to.layout, ImageLayout::TransferDstOptimal);
        }
        _ => panic!("first init command must be the barrier into the upload"),
    }
    match &scene.init_commands[1] {
        warden::builder::InitCommand::CopyBufferToImage { image, row_pitch, slice_pitch, extent } => {
            assert_eq!(image, "img");
            assert_eq!(*row_pitch, 8);
            assert_eq!(*slice_pitch, 32);
            assert_eq!(extent.width, 4);
        }
        _ => panic!("second init command must be the copy"),
    }
    match &scene.init_commands[2] {
        warden::builder::InitCommand::Barrier { image, from, to } => {
            assert_eq!(image, "img");
            assert_eq!(from.layout, ImageLayout::TransferDstOptimal);
            assert_eq!(to.layout, ImageLayout::ShaderReadOnlyOptimal);
            assert_eq!(to.access, ACCESS_SHADER_READ);
        }
        _ => panic!("third init command must restore the stable state"),
    }
}
