use wl_screenrec::protocol::{
    buffer_request, outputs, plane_request, select_output, split_modifier, BufferRequest, DrmFrame,
    Global, PlaneRequest,
};

fn global(name: u32, interface: &str) -> Global {
    (name, interface.to_string(), 4)
}

#[test]
fn the_only_output_is_selected() {
    let globals = vec![
        global(1, "wl_compositor"),
        global(42, "wl_output"),
        global(43, "zwlr_screencopy_manager_v1"),
    ];
    assert_eq!(outputs(&globals), vec![42]);
    assert_eq!(select_output(&globals), Ok(42));
}

#[test]
fn no_output_is_an_error() {
    let globals = vec![global(1, "wl_compositor"), global(2, "wl_output_manager"), global(3, "")];
    assert_eq!(select_output(&globals), Err(0));
    assert_eq!(select_output(&Vec::new()), Err(0));
}

#[test]
fn several_outputs_are_an_error() {
    let globals = vec![global(9, "wl_output"), global(1, "wl_shm"), global(5, "wl_output")];
    assert_eq!(outputs(&globals), vec![9, 5]);
    assert_eq!(select_output(&globals), Err(2));
}

#[test]
fn modifier_is_split_into_halves() {
    assert_eq!(split_modifier(0), (0, 0));
    assert_eq!(split_modifier(0x0100_0000_0000_0002), (0x0100_0000, 2));
    assert_eq!(split_modifier(0x0011_2233_4455_6677), (0x0011_2233, 0x4455_6677));
    assert_eq!(split_modifier(u64::MAX), (u32::MAX, u32::MAX));
}

#[test]
fn modifier_halves_are_those_of_its_big_endian_bytes() {
    for modifier in [0x0123_4567_89ab_cdefu64, 0xffff_ffff_0000_0000, 0x0000_0000_8000_0001] {
        let bytes = modifier.to_be_bytes();
        let hi = u32::from_be_bytes(bytes[..4].try_into().unwrap());
        let lo = u32::from_be_bytes(bytes[4..].try_into().unwrap());
        assert_eq!(split_modifier(modifier), (hi, lo));
        assert_eq!((u64::from(hi) << 32) + u64::from(lo), modifier);
    }
}

#[test]
fn plane_request_describes_the_first_plane() {
    let frame = DrmFrame { fd: 17, modifier: 0x0100_0000_0000_0002, pitch: 15360 };
    assert_eq!(
        plane_request(&frame),
        PlaneRequest {
            fd: 17,
            plane_idx: 0,
            offset: 0,
            stride: 15360,
            modifier_hi: 0x0100_0000,
            modifier_lo: 2,
        }
    );
}

#[test]
fn pitch_wraps_to_the_width_of_a_stride() {
    let stride = |pitch: isize| plane_request(&DrmFrame { fd: 0, modifier: 0, pitch }).stride;
    assert_eq!(stride(-1), u32::MAX);
    assert_eq!(stride(-15360), u32::MAX - 15359);
    assert_eq!(stride(0x1_0000_0010), 0x10);
}

#[test]
fn buffer_request_covers_the_output() {
    assert_eq!(
        buffer_request((2560, 1440)),
        BufferRequest { width: 2560, height: 1440, format: 875713112, flags: 0 }
    );
    assert_eq!(buffer_request((1, 1)).format.to_le_bytes(), *b"XR24");
}
