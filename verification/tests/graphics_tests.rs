use gfx_hal::format::Format;
use tvb::gfx_test::{self, spare_image_count, select_surface_format};
use tvb::graphics::{
    adapter_score, buffer_size, channel_of, BGRA8_UNORM, Channel, FORMAT_COUNT, RGBA8_SRGB, cpu_visible, find_upload_memory_type, format_is_srgb, next_state,
    render_target_image_count, select_adapter, select_format, select_present_mode, select_queue_families,
    swapchain_image_count, BeginError, PresentMode, QueueSelectionError, MAX_IMAGE_COUNT,
};

fn code(format: Format) -> u32 {
    format as u32 - 1
}

#[test]
fn format_codes_follow_the_table() {
    assert_eq!(RGBA8_SRGB, code(Format::Rgba8Srgb));
    assert_eq!(FORMAT_COUNT as usize, gfx_hal::format::NUM_FORMATS - 1);
    assert_eq!(channel_of(FORMAT_COUNT), None);
    assert_eq!(channel_of(u32::MAX), None);
}

#[test]
fn format_prefers_first_srgb() {
    assert!(format_is_srgb(code(Format::Bgra8Srgb)));
    assert!(!format_is_srgb(code(Format::Bgra8Unorm)));
    assert_eq!(select_format(None), code(Format::Rgba8Srgb));
    let list = vec![code(Format::Bgra8Unorm), code(Format::Bgra8Srgb), code(Format::Rgba8Srgb)];
    assert_eq!(select_format(Some(list.clone())), code(Format::Bgra8Srgb));
    assert_eq!(select_surface_format(Some(list)), code(Format::Bgra8Srgb));
    let list = vec![code(Format::Rgba8Unorm), code(Format::Bgra8Unorm)];
    assert_eq!(select_format(Some(list)), code(Format::Rgba8Unorm));
    assert_eq!(select_surface_format(None), code(Format::Rgba8Srgb));
}

#[test]
fn adapter_prefers_first_discrete() {
    assert_eq!(adapter_score(true), 1000);
    assert_eq!(adapter_score(false), 0);
    assert_eq!(select_adapter(&vec![false, true, true]), Some(1));
    assert_eq!(select_adapter(&vec![false, false]), Some(0));
    assert_eq!(select_adapter(&vec![true]), Some(0));
    assert_eq!(select_adapter(&Vec::new()), None);
}

#[test]
fn queue_families_are_the_last_supporting_ones() {
    assert_eq!(select_queue_families(&vec![true, false, true], &vec![false, true, false]), Ok((2, 1)));
    assert_eq!(
        select_queue_families(&vec![false, false], &vec![true, true]),
        Err(QueueSelectionError::NoGraphicsQueue)
    );
    assert_eq!(
        select_queue_families(&vec![true, false], &vec![false, false]),
        Err(QueueSelectionError::NoPresentQueue)
    );
    assert_eq!(select_queue_families(&Vec::new(), &Vec::new()), Err(QueueSelectionError::NoGraphicsQueue));
}

#[test]
fn present_mode_preference() {
    let cases: Vec<(Vec<PresentMode>, PresentMode)> = vec![
        (vec![], PresentMode::Fifo),
        (vec![PresentMode::Fifo, PresentMode::Relaxed], PresentMode::Fifo),
        (vec![PresentMode::Fifo, PresentMode::Immediate], PresentMode::Immediate),
        (vec![PresentMode::Immediate, PresentMode::Mailbox], PresentMode::Mailbox),
        (vec![PresentMode::Mailbox, PresentMode::Immediate], PresentMode::Mailbox),
    ];
    for (modes, expected) in cases {
        assert_eq!(select_present_mode(&modes), expected);
        assert_eq!(gfx_test::select_present_mode(&modes), expected);
    }
}

#[test]
fn image_counts() {
    assert_eq!(MAX_IMAGE_COUNT, 3);
    assert_eq!(swapchain_image_count(1, 8), 3);
    assert_eq!(swapchain_image_count(1, 2), 2);
    assert_eq!(swapchain_image_count(4, 8), 4);
    assert_eq!(swapchain_image_count(4, 2), 4);
    assert_eq!(render_target_image_count(3, 2), 2);
    assert_eq!(render_target_image_count(2, 8), 2);
    assert_eq!(spare_image_count(2, 3), 3);
    assert_eq!(spare_image_count(3, 3), 3);
    assert_eq!(spare_image_count(4, 3), 4);
}

#[test]
fn upload_memory_type_needs_mask_bit_and_cpu_visibility() {
    assert!(cpu_visible(0x2));
    assert!(cpu_visible(0x7));
    assert!(!cpu_visible(0x1));
    let props = vec![0x1, 0x6, 0x2, 0x2];
    assert_eq!(find_upload_memory_type(0b1111, &props), Some(1));
    assert_eq!(find_upload_memory_type(0b1100, &props), Some(2));
    assert_eq!(find_upload_memory_type(0b0001, &props), None);
    assert_eq!(find_upload_memory_type(u64::MAX, &Vec::new()), None);
}

#[test]
fn buffer_sizes() {
    assert_eq!(buffer_size(16, 4), 64);
    assert_eq!(buffer_size(0, 100), 0);
}

#[test]
fn frame_states_cycle() {
    let _ = BeginError;
    assert_eq!(next_state(0, 3), 1);
    assert_eq!(next_state(2, 3), 0);
    let mut s = 1;
    for _ in 0..3 {
        s = next_state(s, 3);
    }
    assert_eq!(s, 1);
}

#[test]
fn channel_types_of_formats() {
    assert_eq!(channel_of(code(Format::Rgba8Unorm)), Some(Channel::Unorm));
    assert_eq!(channel_of(code(Format::Rgba8Srgb)), Some(Channel::Srgb));
    assert_eq!(channel_of(code(Format::Rg32Sfloat)), Some(Channel::Sfloat));
    assert_eq!(channel_of(code(Format::R16Uint)), Some(Channel::Uint));
}

#[test]
fn bgra8_unorm_code_follows_the_table() {
    assert_eq!(BGRA8_UNORM, code(Format::Bgra8Unorm));
    assert!(!format_is_srgb(BGRA8_UNORM));
}

#[test]
fn upload_memory_scan_covers_devices_with_many_types() {
    let mut props = vec![0u16; 70];
    props[5] = 0x2;
    props[66] = 0x2;
    assert_eq!(find_upload_memory_type(1u64 << 5, &props), Some(5));
    assert_eq!(find_upload_memory_type(u64::MAX, &props), Some(5));
    let props = vec![0x2u16; 64];
    assert_eq!(find_upload_memory_type(1u64 << 63, &props), Some(63));
}
