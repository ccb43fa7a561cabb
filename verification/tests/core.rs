use candybox_gfx::kernel::{choose_format, key_exits};
use candybox_gfx::{Core, Recovery, SurfaceError, SurfaceStatus};

#[test]
fn new_kernel_waits_for_its_surface() {
    let core = Core::new(800, 600, 48, 40);
    assert_eq!((core.width, core.height), (800, 600));
    assert!(!core.is_surface_configurated);
    assert_eq!(core.begin_frame(SurfaceStatus::Success), Err(SurfaceError::NotConfigured));
    assert_eq!(core.rectangle.instance_size(), 48);
    assert_eq!(core.triangle.instance_size(), 40);
}

#[test]
fn resizing_to_a_zero_side_changes_nothing() {
    let mut core = Core::new(800, 600, 16, 16);
    assert!(!core.resize_surface(0, 300));
    assert!(!core.resize_surface(300, 0));
    assert_eq!((core.width, core.height), (800, 600));
    assert!(!core.is_surface_configurated);
}

#[test]
fn resizing_configures_the_surface() {
    let mut core = Core::new(800, 600, 16, 16);
    assert!(core.resize_surface(1024, 768));
    assert_eq!((core.width, core.height), (1024, 768));
    assert!(core.is_surface_configurated);
    assert_eq!(core.begin_frame(SurfaceStatus::Success), Ok(false));
}

#[test]
fn frame_outcomes_follow_the_surface() {
    let mut core = Core::new(10, 10, 16, 16);
    core.resize_surface(10, 10);
    assert_eq!(core.begin_frame(SurfaceStatus::Suboptimal), Ok(true));
    assert_eq!(core.begin_frame(SurfaceStatus::Timeout), Err(SurfaceError::Timeout));
    assert_eq!(core.begin_frame(SurfaceStatus::Outdated), Err(SurfaceError::Outdated));
    assert_eq!(core.begin_frame(SurfaceStatus::Lost), Err(SurfaceError::Lost));
    assert_eq!(core.begin_frame(SurfaceStatus::Occluded), Err(SurfaceError::Occluded));
    assert_eq!(core.end_frame(true), Err(SurfaceError::Suboptimal));
    assert_eq!(core.end_frame(false), Ok(()));
}

#[test]
fn each_failure_has_its_recovery() {
    assert_eq!(SurfaceError::NotConfigured.recovery(), Recovery::WaitForConfiguration);
    assert_eq!(SurfaceError::Timeout.recovery(), Recovery::SkipFrame);
    assert_eq!(SurfaceError::Outdated.recovery(), Recovery::Resize);
    assert_eq!(SurfaceError::Lost.recovery(), Recovery::Reconfigure);
    assert_eq!(SurfaceError::Occluded.recovery(), Recovery::Nothing);
    assert_eq!(SurfaceError::Suboptimal.recovery(), Recovery::Resize);
}

#[test]
fn first_srgb_format_is_chosen() {
    assert_eq!(choose_format(&vec![false, true, true]), 1);
    assert_eq!(choose_format(&vec![true]), 0);
    assert_eq!(choose_format(&vec![false, false]), 0);
}

#[test]
fn reconfiguring_keeps_the_configured_flag() {
    let mut core = Core::new(640, 480, 16, 16);
    assert_eq!(core.reconfigure_surface(0, 10, &vec![false]), None);
    assert_eq!((core.width, core.height), (640, 480));
    assert_eq!(core.reconfigure_surface(320, 200, &vec![false, false, true]), Some(2));
    assert_eq!((core.width, core.height), (320, 200));
    assert!(!core.is_surface_configurated);
}

#[test]
fn only_a_press_of_escape_exits() {
    assert!(key_exits(true, true));
    assert!(!key_exits(true, false));
    assert!(!key_exits(false, true));
    assert!(!key_exits(false, false));
}
