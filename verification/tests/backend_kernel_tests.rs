//! Kernel backend construction tests

use userland::backend_kernel::{BackbufferBackend, FramebufferMapping, KernelBackend};

fn mapping(status: isize, addr: u64, w: u32, h: u32, stride: u32) -> FramebufferMapping {
    FramebufferMapping { status, addr, w, h, stride_bytes: stride }
}

#[test]
fn kernel_backend_falls_back_without_screen() {
    assert_eq!(KernelBackend::new(0, 768).screen_size(), (1920, 1080));
    assert_eq!(KernelBackend::new(1024, 768).screen_size(), (1024, 768));
}

#[test]
fn backbuffer_maps_only_after_successful_claim() {
    assert!(!BackbufferBackend::map_after_claim(-1));
    assert!(BackbufferBackend::map_after_claim(0));
    assert!(BackbufferBackend::claim(-1, None).is_none());
}

#[test]
fn backbuffer_claim_takes_mapping() {
    let b = BackbufferBackend::claim(0, Some(mapping(0, 0x1000, 640, 480, 2560))).expect("mapped");
    assert_eq!(b.screen_size(), (640, 480));
    assert_eq!(b.stride_px, 640);
    assert!(BackbufferBackend::claim(0, Some(mapping(-1, 0x1000, 640, 480, 2560))).is_none());
    assert!(BackbufferBackend::claim(0, Some(mapping(0, 0, 640, 480, 2560))).is_none());
    assert!(BackbufferBackend::claim(0, Some(mapping(0, 0x1000, 0, 480, 2560))).is_none());
}
