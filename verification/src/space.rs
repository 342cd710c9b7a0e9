//! Window configuration and the decisions of the window's event loop.
use vstd::prelude::*;

use winit::window::WindowAttributes;

verus! {

/// The window attributes of `winit`, opaque here.
#[verifier::external_type_specification]
#[verifier::external_body]
pub struct ExWindowAttributes(WindowAttributes);

/// The winit attributes that `WindowAttributes::default()` gives once its
/// builder methods `with_title`, `with_transparent`, `with_decorations`,
/// `with_active` and `with_resizable` have set these values. They depend on
/// the values alone.
pub uninterp spec fn window_attributes_for(
    title: Seq<char>,
    transparent: bool,
    decorations: bool,
    active: bool,
    resizable: bool,
) -> WindowAttributes;

/// `WindowAttributes::default()` of `winit` with the title, transparency,
/// decorations, focus and resizability set through its builder methods
/// (winit's window.rs: each method stores its argument in the matching field
/// and keeps the others). The result is named by `window_attributes_for`;
/// its fields are not stated, since the type is opaque here.
#[verifier::external_body]
fn window_attributes(
    title: &str,
    transparent: bool,
    decorations: bool,
    active: bool,
    resizable: bool,
) -> (r: WindowAttributes)
    ensures
        r == window_attributes_for(title@, transparent, decorations, active, resizable),
{
    WindowAttributes::default()
        .with_title(title)
        .with_transparent(transparent)
        .with_decorations(decorations)
        .with_active(active)
        .with_resizable(resizable)
}

/// Luma configurations for the window that will be run.
pub struct LumaWindowConfigs {
    /// The title of the window.
    pub title: &'static str,
    /// Whether the event loop waits for new events before doing anything.
    pub wait_for_events: bool,
    /// Whether the window is decorated.
    pub decorated: bool,
}

impl Default for LumaWindowConfigs {
    /// A decorated window titled "Luma" whose loop does not wait for events.
    fn default() -> (r: Self)
        ensures
            r.title@ == "Luma"@,
            !r.wait_for_events,
            r.decorated,
    {
        LumaWindowConfigs { wait_for_events: false, title: "Luma", decorated: true }
    }
}

/// The attributes that the window is opened with, as plain values.
pub struct WindowSpec {
    pub title: String,
    pub transparent: bool,
    pub decorations: bool,
    pub active: bool,
    pub resizable: bool,
}

/// How the event loop goes on when it has no event to handle.
#[derive(Clone, Copy, Debug, PartialEq, Eq, Structural)]
pub enum LoopMode {
    /// Sleep until an event arrives.
    Wait,
    /// Go on at once, polling for events.
    Poll,
}

impl LumaWindowConfigs {
    /// The attributes of the window to open: the configured title and
    /// decorations; transparent, focused and resizable whatever the
    /// configuration.
    pub fn window_spec(&self) -> (r: WindowSpec)
        ensures
            r.title@ == self.title@,
            r.decorations == self.decorated,
            r.transparent,
            r.active,
            r.resizable,
    {
        WindowSpec {
            title: String::from_str(self.title),
            transparent: true,
            decorations: self.decorated,
            active: true,
            resizable: true,
        }
    }

    /// The winit attributes of the window to open: winit's defaults with the
    /// configured title and decorations, transparent, focused and resizable.
    pub fn to_window_attribs(&self) -> (r: WindowAttributes)
        ensures
            r == window_attributes_for(self.title@, true, self.decorated, true, true),
    {
        let spec = self.window_spec();
        window_attributes(
            spec.title.as_str(),
            spec.transparent,
            spec.decorations,
            spec.active,
            spec.resizable,
        )
    }

    /// How the event loop runs: it waits for events when configured to,
    /// and polls otherwise.
    pub fn loop_mode(&self) -> (r: LoopMode)
        ensures
            self.wait_for_events ==> r == LoopMode::Wait,
            !self.wait_for_events ==> r == LoopMode::Poll,
    {
        if self.wait_for_events {
            LoopMode::Wait
        } else {
            LoopMode::Poll
        }
    }
}

/// Where a window event goes.
#[derive(Clone, Copy, Debug, PartialEq, Eq, Structural)]
pub enum EventRoute {
    /// Nothing handles it: the window is not set up yet.
    Ignore,
    /// The handler redraws.
    Rerender,
    /// The handler receives it as a window event.
    Forward,
}

/// Routes a window event: once the window is set up, a redraw request makes
/// the handler redraw and any other event is handed to the handler; before
/// that, events are ignored.
pub fn route_window_event(set_up: bool, is_redraw_request: bool) -> (r: EventRoute)
    ensures
        !set_up ==> r == EventRoute::Ignore,
        set_up && is_redraw_request ==> r == EventRoute::Rerender,
        set_up && !is_redraw_request ==> r == EventRoute::Forward,
{
    if !set_up {
        EventRoute::Ignore
    } else if is_redraw_request {
        EventRoute::Rerender
    } else {
        EventRoute::Forward
    }
}

/// Why the drawing surface cannot be set up.
#[derive(Clone, Copy, Debug, PartialEq, Eq, Structural)]
pub enum SurfaceSetupError {
    /// The surface offers no default configuration for the adapter.
    NoDefaultConfig,
}

impl SurfaceSetupError {
    /// The error's message.
    pub fn message(&self) -> (r: String)
        ensures
            r@ == "Surface could not retrieve its default config"@,
    {
        String::from_str("Surface could not retrieve its default config")
    }
}

/// The configuration that the surface is set up with: its default one, and
/// an error when it has none.
pub fn surface_config<C>(default_config: Option<C>) -> (r: Result<C, SurfaceSetupError>)
    ensures
        default_config matches Some(c) ==> r == Ok::<C, SurfaceSetupError>(c),
        default_config is None ==> r == Err::<C, SurfaceSetupError>(SurfaceSetupError::NoDefaultConfig),
{
    match default_config {
        Some(c) => Ok(c),
        None => Err(SurfaceSetupError::NoDefaultConfig),
    }
}

/// The width and height of the drawing surface, in pixels.
#[derive(Clone, Copy, Debug, PartialEq, Eq, Structural)]
pub struct SurfaceSize {
    pub width: u32,
    pub height: u32,
}

impl SurfaceSize {
    /// Takes a new size when neither side is zero, and keeps the old one
    /// otherwise; tells whether the size was taken.
    pub fn resize(&mut self, width: u32, height: u32) -> (taken: bool)
        ensures
            taken == (width > 0 && height > 0),
            taken ==> final(self).width == width && final(self).height == height,
            !taken ==> final(self).width == old(self).width && final(self).height == old(self).height,
    {
        if width > 0 && height > 0 {
            self.width = width;
            self.height = height;
            true
        } else {
            false
        }
    }
}

} // verus!
