use wl_screenrec::setup::{
    encoder_pool, filter, map_request, sink_node, source_node, surface_pool, AvHwDevCtx, AvHwFrameCtx, CodecId, DeviceKind,
    EncoderConfig, Fraction, GraphStep, MapRequest, PixelFormat, SourceParams, STREAM, SURFACES,
};

#[test]
fn device_is_reached_through_drm() {
    let device = AvHwDevCtx::new_libva();
    assert_eq!(device.kind, DeviceKind::Vaapi);
    assert_eq!(device.path, "/dev/dri/card0");
    assert_eq!((device.option, device.value), ("connection_type", "drm"));
    assert_eq!(device.flags, 0);
}

#[test]
fn frame_pools_differ_in_their_pixels_only() {
    let device = AvHwDevCtx::new_libva();
    for pixfmt in [PixelFormat::Rgb0, PixelFormat::Nv12] {
        assert_eq!(
            device.create_frame_ctx(pixfmt),
            AvHwFrameCtx {
                format: PixelFormat::Vaapi,
                sw_format: pixfmt,
                width: 3840,
                height: 2160,
                initial_pool_size: 20,
                alloc_flags: 0,
            }
        );
    }
}

#[test]
fn encoder_takes_the_frames_of_its_pool() {
    let config = EncoderConfig::new();
    assert_eq!(config.codec, CodecId::H264);
    assert_eq!(config.encoder, "h264_vaapi");
    assert_eq!(config.file, "out.mp4");
    assert_eq!(config.time_base, Fraction { num: 1, den: 60 });
    assert!(config.global_header);
    let frames = encoder_pool(&AvHwDevCtx::new_libva());
    assert_eq!(frames.sw_format, PixelFormat::Nv12);
    assert_eq!(config.format, frames.format);
    assert_eq!(config.sw_format, frames.sw_format);
    assert_eq!((config.width, config.height), (frames.width, frames.height));
    assert_eq!((STREAM, SURFACES), (0, 1));
}

fn pool() -> AvHwFrameCtx {
    surface_pool(&AvHwDevCtx::new_libva())
}

fn args_for(vaapi: i32) -> String {
    match &filter(&pool(), vaapi)[0] {
        GraphStep::Add { args, .. } => args.clone(),
        _ => panic!("the first step adds the input"),
    }
}

#[test]
fn filter_input_names_the_format_by_its_number() {
    assert_eq!(args_for(44), "video_size=2840x2160:pix_fmt=44:time_base=1/60");
    for vaapi in [0, 7, 10, 99, 100, 1234567890, i32::MAX, -1, -10, i32::MIN] {
        assert_eq!(args_for(vaapi), format!("video_size=2840x2160:pix_fmt={}:time_base=1/60", vaapi));
    }
}

#[test]
fn filter_graph_is_built_in_order() {
    let steps = filter(&pool(), 44);
    assert_eq!(steps.len(), 6);
    assert!(matches!(&steps[0], GraphStep::Add { filter: "buffer", name: "in", .. }));
    assert!(matches!(
        &steps[1],
        GraphStep::SetSource {
            name: "in",
            params: SourceParams {
                width: 3840,
                height: 2161,
                format: 44,
                time_base: Fraction { num: 60, den: 1 },
            },
            frames: AvHwFrameCtx { sw_format: PixelFormat::Rgb0, width: 3840, height: 2160, .. },
        }
    ));
    match &steps[2] {
        GraphStep::Add { filter, name, args } => {
            assert_eq!((*filter, *name, args.as_str()), ("buffersink", "out", ""));
        }
        _ => panic!("the third step adds the output"),
    }
    assert!(matches!(
        &steps[3],
        GraphStep::SetPixelFormat { name: "out", format: PixelFormat::Vaapi }
    ));
    assert!(matches!(
        &steps[4],
        GraphStep::Parse {
            output: "in",
            output_pad: 0,
            input: "out",
            input_pad: 0,
            description: "scale_vaapi=format=nv12",
        }
    ));
    assert!(matches!(&steps[5], GraphStep::Validate));
}

#[test]
fn filter_names_are_added_before_they_are_looked_up() {
    let mut added: Vec<&str> = Vec::new();
    for step in &filter(&pool(), 1) {
        match step {
            GraphStep::Add { name, .. } => {
                assert!(!added.contains(name));
                added.push(name);
            }
            GraphStep::SetSource { name, .. } => assert!(added.contains(name)),
            GraphStep::SetPixelFormat { name, .. } => assert!(added.contains(name)),
            GraphStep::Parse { output, input, .. } => {
                assert!(added.contains(output) && added.contains(input));
            }
            GraphStep::Validate => {}
        }
    }
    assert_eq!(added, vec!["in", "out"]);
}

#[test]
fn surfaces_are_mapped_as_drm_objects() {
    assert_eq!(
        map_request(),
        MapRequest { format: PixelFormat::DrmPrime, read: true, write: true }
    );
}

#[test]
fn filter_graph_has_its_input_and_output() {
    assert_eq!((source_node(), sink_node()), ("in", "out"));
    let added = |node: &str, kind: &str| {
        filter(&pool(), 44).iter().any(|step| {
            matches!(step, GraphStep::Add { filter, name, .. } if *name == node && *filter == kind)
        })
    };
    assert!(added(source_node(), "buffer"));
    assert!(added(sink_node(), "buffersink"));
}

#[test]
fn filter_input_reads_the_given_pool() {
    let device = AvHwDevCtx::new_libva();
    for given in [surface_pool(&device), encoder_pool(&device)] {
        match &filter(&given, 44)[1] {
            GraphStep::SetSource { frames, .. } => assert_eq!(*frames, given),
            _ => panic!("the second step sets up the input"),
        }
    }
    assert_eq!(surface_pool(&device).sw_format, PixelFormat::Rgb0);
}
