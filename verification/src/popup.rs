//! Where the popup opens, when a hidden popup is reset, its palette, and how
//! long start-up waits for a tray host.
use vstd::prelude::*;

verus! {

/// Width of the popup window at scale 1, in pixels.
pub const POPUP_WIDTH: i32 = 560;

/// Height of the popup window at scale 1, in pixels.
pub const POPUP_HEIGHT: i32 = 320;

/// The pointer and the work area of the monitor it is on, in physical pixels.
pub struct PopupGeometry {
    pub cursor_x: i32,
    pub cursor_y: i32,
    pub work_x: i32,
    pub work_y: i32,
    pub work_width: i32,
    pub work_height: i32,
}

/// Integer division rounding towards zero, as Rust's `/` does.
pub open spec fn div_toward_zero(n: int, d: int) -> int {
    if n >= 0 {
        n / d
    } else {
        -((-n) / d)
    }
}

/// `v` clamped to `[lo, hi]`, `lo <= hi`.
pub open spec fn clamp(v: int, lo: int, hi: int) -> int {
    if v < lo {
        lo
    } else if v > hi {
        hi
    } else {
        v
    }
}

/// One coordinate of the popup: centred on the pointer, kept inside the work
/// area where the popup fits in it, and at the work area's start otherwise.
pub open spec fn popup_coordinate(cursor: int, work: int, work_size: int, size: int) -> int {
    let room = if work_size - size > 0 {
        work_size - size
    } else {
        0
    };
    clamp(cursor - div_toward_zero(size, 2), work, work + room)
}

/// The coordinates of one axis stay within `i32`.
pub open spec fn axis_fits(cursor: int, work: int, work_size: int, size: int) -> bool {
    &&& i32::MIN <= work_size - size <= i32::MAX
    &&& i32::MIN <= work + (if work_size - size > 0 {
        work_size - size
    } else {
        0
    }) <= i32::MAX
    &&& i32::MIN <= cursor - div_toward_zero(size, 2) <= i32::MAX
}

fn half(n: i32) -> (r: i32)
    ensures
        r == div_toward_zero(n as int, 2),
{
    if n >= 0 {
        n / 2
    } else {
        let m: i64 = -(n as i64);
        -((m / 2) as i32)
    }
}

fn place_axis(cursor: i32, work: i32, work_size: i32, size: i32) -> (r: i32)
    requires
        axis_fits(cursor as int, work as int, work_size as int, size as int),
    ensures
        r == popup_coordinate(cursor as int, work as int, work_size as int, size as int),
{
    let spare = work_size - size;
    let room = if spare > 0 {
        spare
    } else {
        0
    };
    let hi = work + room;
    let v = cursor - half(size);
    if v < work {
        work
    } else if v > hi {
        hi
    } else {
        v
    }
}

/// The top-left corner of a `width` by `height` popup opened at the pointer.
pub fn popup_position(geometry: &PopupGeometry, width: i32, height: i32) -> (r: (i32, i32))
    requires
        axis_fits(
            geometry.cursor_x as int,
            geometry.work_x as int,
            geometry.work_width as int,
            width as int,
        ),
        axis_fits(
            geometry.cursor_y as int,
            geometry.work_y as int,
            geometry.work_height as int,
            height as int,
        ),
    ensures
        r.0 == popup_coordinate(
            geometry.cursor_x as int,
            geometry.work_x as int,
            geometry.work_width as int,
            width as int,
        ),
        r.1 == popup_coordinate(
            geometry.cursor_y as int,
            geometry.work_y as int,
            geometry.work_height as int,
            height as int,
        ),
{
    (
        place_axis(geometry.cursor_x, geometry.work_x, geometry.work_width, width),
        place_axis(geometry.cursor_y, geometry.work_y, geometry.work_height, height),
    )
}

/// A popup no larger than the work area lies entirely inside it.
pub proof fn popup_stays_inside_work_area(cursor: int, work: int, work_size: int, size: int)
    requires
        0 <= size <= work_size,
    ensures
        work <= popup_coordinate(cursor, work, work_size, size),
        popup_coordinate(cursor, work, work_size, size) + size <= work + work_size,
{
}

/// The generation after `g`: one more, wrapping to 0 after `u64::MAX`.
pub open spec fn advanced(g: u64) -> u64 {
    if g == u64::MAX {
        0
    } else {
        (g + 1) as u64
    }
}

/// Moves a generation counter on (wrapping) and returns the new value, which
/// later `is_current_generation` checks compare against.
pub fn next_generation(generation: &mut u64) -> (r: u64)
    ensures
        r == *final(generation),
        *final(generation) == advanced(*old(generation)),
        *final(generation) != *old(generation),
{
    *generation = generation.wrapping_add(1);
    *generation
}

/// Whether `expected` is still the current generation.
pub fn is_current_generation(generation: &u64, expected: u64) -> (r: bool)
    ensures
        r == (*generation == expected),
{
    *generation == expected
}

/// Whether a hide's grace period resets the popup: the hide is still the
/// latest show or hide, and the popup is still hidden.
pub open spec fn resets(generation: u64, hide_generation: u64, visible: bool) -> bool {
    generation == hide_generation && !visible
}

/// After a hide's grace period: whether the popup is reset (question,
/// answer, status, image and history cleared). When the hide is still the
/// latest, every request in flight is made stale, so its answer is dropped.
pub fn reset_after_grace(
    generation: &u64,
    hide_generation: u64,
    request_generation: &mut u64,
    visible: bool,
) -> (r: bool)
    ensures
        r == resets(*generation, hide_generation, visible),
        *generation == hide_generation ==> *final(request_generation) == advanced(
            *old(request_generation),
        ),
        *generation != hide_generation ==> *final(request_generation) == *old(
            request_generation,
        ),
{
    if !is_current_generation(generation, hide_generation) {
        return false;
    }
    next_generation(request_generation);
    !visible
}

/// After the focus-loss delay: whether the popup hides. It does unless it got
/// the focus back or was shown or hidden in the meantime.
pub fn hide_after_focus_loss(focused: bool, generation: &u64, event_generation: u64) -> (r: bool)
    ensures
        r == (!focused && *generation == event_generation),
{
    !focused && is_current_generation(generation, event_generation)
}

/// A hidden popup keeps its view for the grace period and no longer: the
/// latest hide resets a popup that stayed hidden, while showing it again (one
/// more generation) means that hide resets nothing.
pub proof fn reopening_keeps_the_view(hidden: u64, visible: bool)
    ensures
        resets(hidden, hidden, false),
        !resets(advanced(hidden), hidden, visible),
{
}

/// How many times start-up asks whether a tray host is ready, a second apart.
pub const TRAY_WAIT_ATTEMPTS: u32 = 30;

/// What start-up does after asking whether a tray host is ready.
pub enum TrayWait {
    /// Create the tray now.
    Ready,
    /// Wait a second and ask again.
    Retry,
    /// Wait a second, then give up with this message.
    GiveUp(String),
}

/// Decides after attempt `attempt` (counting from 0) whether a tray host was
/// found: a ready host ends the wait; otherwise start-up asks again until it
/// has asked `TRAY_WAIT_ATTEMPTS` times.
pub fn tray_wait_step(attempt: u32, ready: bool) -> (r: TrayWait)
    ensures
        ready ==> r is Ready,
        !ready && attempt + 1 < TRAY_WAIT_ATTEMPTS ==> r is Retry,
        !ready && attempt + 1 >= TRAY_WAIT_ATTEMPTS ==> (r matches TrayWait::GiveUp(e) && e@
            == "No desktop tray host became ready; enable a StatusNotifier/AppIndicator tray host and restart FindOut"@),
{
    if ready {
        TrayWait::Ready
    } else if attempt < TRAY_WAIT_ATTEMPTS - 1 {
        TrayWait::Retry
    } else {
        TrayWait::GiveUp(
            String::from_str(
                "No desktop tray host became ready; enable a StatusNotifier/AppIndicator tray host and restart FindOut",
            ),
        )
    }
}

/// The light palette, the default.
pub const THEME_LIGHT: i32 = 0;

/// The dark palette.
pub const THEME_DARK: i32 = 1;

/// The retro palette.
pub const THEME_RETRO: i32 = 2;

/// The palette a tray choice selects: a known palette, else the light one.
pub fn select_theme(theme: i32) -> (r: i32)
    ensures
        (theme == THEME_LIGHT || theme == THEME_DARK || theme == THEME_RETRO) ==> r == theme,
        !(theme == THEME_LIGHT || theme == THEME_DARK || theme == THEME_RETRO) ==> r
            == THEME_LIGHT,
{
    if theme == THEME_LIGHT || theme == THEME_DARK || theme == THEME_RETRO {
        theme
    } else {
        THEME_LIGHT
    }
}

} // verus!
