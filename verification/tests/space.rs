use luma::space::{
    route_window_event, surface_config, EventRoute, LoopMode, LumaWindowConfigs, SurfaceSetupError,
    SurfaceSize,
};

#[test]
fn default_configs() {
    let c = LumaWindowConfigs::default();
    assert_eq!(c.title, "Luma");
    assert!(!c.wait_for_events);
    assert!(c.decorated);
}

#[test]
fn window_attributes_follow_configs() {
    let c = LumaWindowConfigs { title: "Demo", wait_for_events: true, decorated: false };
    let a = c.to_window_attribs();
    assert_eq!(a.title, "Demo");
    assert!(!a.decorations);
    assert!(a.transparent);
    assert!(a.active);
    assert!(a.resizable);
    let d = LumaWindowConfigs::default().to_window_attribs();
    assert_eq!(d.title, "Luma");
    assert!(d.decorations);
}

#[test]
fn window_spec_follows_configs() {
    let c = LumaWindowConfigs { title: "Demo", wait_for_events: true, decorated: false };
    let spec = c.window_spec();
    assert_eq!(spec.title, "Demo");
    assert!(!spec.decorations);
    assert!(spec.transparent);
    assert!(spec.active);
    assert!(spec.resizable);
    assert!(LumaWindowConfigs::default().window_spec().decorations);
}

#[test]
fn loop_mode_follows_wait_flag() {
    let mut c = LumaWindowConfigs::default();
    assert_eq!(c.loop_mode(), LoopMode::Poll);
    c.wait_for_events = true;
    assert_eq!(c.loop_mode(), LoopMode::Wait);
}

#[test]
fn events_before_set_up_are_ignored() {
    assert_eq!(route_window_event(false, true), EventRoute::Ignore);
    assert_eq!(route_window_event(false, false), EventRoute::Ignore);
}

#[test]
fn redraw_requests_rerender_and_others_are_forwarded() {
    assert_eq!(route_window_event(true, true), EventRoute::Rerender);
    assert_eq!(route_window_event(true, false), EventRoute::Forward);
}

#[test]
fn resize_takes_non_zero_sizes() {
    let mut size = SurfaceSize { width: 800, height: 600 };
    assert!(size.resize(1024, 768));
    assert_eq!(size, SurfaceSize { width: 1024, height: 768 });
}

#[test]
fn resize_keeps_size_when_a_side_is_zero() {
    let mut size = SurfaceSize { width: 800, height: 600 };
    assert!(!size.resize(0, 768));
    assert!(!size.resize(1024, 0));
    assert_eq!(size, SurfaceSize { width: 800, height: 600 });
}

#[test]
fn surface_config_takes_the_default() {
    assert_eq!(surface_config(Some(3u32)), Ok(3u32));
    assert_eq!(surface_config::<u32>(None), Err(SurfaceSetupError::NoDefaultConfig));
    assert_eq!(
        SurfaceSetupError::NoDefaultConfig.message(),
        "Surface could not retrieve its default config"
    );
}

#[test]
fn window_attributes_keep_winit_defaults_elsewhere() {
    let a = LumaWindowConfigs::default().to_window_attribs();
    let d = winit::window::WindowAttributes::default();
    assert_eq!(a.maximized, d.maximized);
    assert_eq!(a.visible, d.visible);
    assert_eq!(a.blur, d.blur);
    assert_eq!(a.inner_size, d.inner_size);
}
