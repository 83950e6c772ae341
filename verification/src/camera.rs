//! The camera's modes: following the player's car from one of several points
//! of view, or flying free; and the key and mouse decisions that switch them.
//!
//! Where a follow view places the camera (its offsets from the car) is
//! floating point and is computed by the application from the view.
use vstd::prelude::*;

verus! {

/// The points of view that the follow camera can take around the player's car.
#[derive(PartialEq, Eq, Structural, Debug, Clone, Copy)]
pub enum CameraFollowView {
    Windshield,
    FrontWheel,
    Driver,
    Near,
    Mid,
    Far,
}

/// The view that follows `view` when the player cycles through the follow
/// views: windshield, driver, near, mid, far, front wheel, and round again.
pub open spec fn spec_next_follow_view(view: CameraFollowView) -> CameraFollowView {
    match view {
        CameraFollowView::Windshield => CameraFollowView::Driver,
        CameraFollowView::Driver => CameraFollowView::Near,
        CameraFollowView::Near => CameraFollowView::Mid,
        CameraFollowView::Mid => CameraFollowView::Far,
        CameraFollowView::Far => CameraFollowView::FrontWheel,
        CameraFollowView::FrontWheel => CameraFollowView::Windshield,
    }
}

/// What the camera does: follow the player's car from a view, or fly free.
#[derive(PartialEq, Eq, Structural, Debug, Clone, Copy)]
pub enum CameraMode {
    Follow(CameraFollowView),
    Free,
}

/// The mode that `next_view` turns `mode` into: the next follow view, while a
/// free camera stays free.
pub open spec fn spec_next_mode(mode: CameraMode) -> CameraMode {
    match mode {
        CameraMode::Follow(view) => CameraMode::Follow(spec_next_follow_view(view)),
        CameraMode::Free => CameraMode::Free,
    }
}

/// The camera's configuration.
pub struct CameraConfig {
    pub mode: CameraMode,
}

/// The digit keys that were just pressed in a frame: 1 to 5 choose the follow
/// views driver, near, mid, far and front wheel; 0 frees the camera.
#[derive(PartialEq, Eq, Structural, Debug, Clone, Copy)]
pub struct ViewKeys {
    pub digit1: bool,
    pub digit2: bool,
    pub digit3: bool,
    pub digit4: bool,
    pub digit5: bool,
    pub digit0: bool,
}

/// The mode after the keys `keys` were pressed in mode `mode`. The keys are
/// handled in the order 1, 2, 3, 4, 5, 0, so the last of them that was pressed
/// decides; with none pressed the mode stays.
pub open spec fn spec_mode_after_keys(mode: CameraMode, keys: ViewKeys) -> CameraMode {
    if keys.digit0 {
        CameraMode::Free
    } else if keys.digit5 {
        CameraMode::Follow(CameraFollowView::FrontWheel)
    } else if keys.digit4 {
        CameraMode::Follow(CameraFollowView::Far)
    } else if keys.digit3 {
        CameraMode::Follow(CameraFollowView::Mid)
    } else if keys.digit2 {
        CameraMode::Follow(CameraFollowView::Near)
    } else if keys.digit1 {
        CameraMode::Follow(CameraFollowView::Driver)
    } else {
        mode
    }
}

impl CameraConfig {
    /// A camera that follows the car from `view`.
    pub fn from_view(view: CameraFollowView) -> (r: Self)
        ensures
            r.mode == CameraMode::Follow(view),
    {
        CameraConfig { mode: CameraMode::Follow(view) }
    }

    /// Moves a following camera to the next follow view; a free camera stays
    /// free.
    pub fn next_view(&mut self)
        ensures
            final(self).mode == spec_next_mode(old(self).mode),
    {
        let mode = match self.mode {
            CameraMode::Follow(view) => {
                let next_view = match view {
                    CameraFollowView::Windshield => CameraFollowView::Driver,
                    CameraFollowView::Driver => CameraFollowView::Near,
                    CameraFollowView::Near => CameraFollowView::Mid,
                    CameraFollowView::Mid => CameraFollowView::Far,
                    CameraFollowView::Far => CameraFollowView::FrontWheel,
                    CameraFollowView::FrontWheel => CameraFollowView::Windshield,
                };
                CameraMode::Follow(next_view)
            },
            CameraMode::Free => CameraMode::Free,
        };
        self.mode = mode;
    }

    /// Frees the camera from the car.
    pub fn free(&mut self)
        ensures
            final(self).mode == CameraMode::Free,
    {
        self.mode = CameraMode::Free;
    }

    fn follow_view(&mut self, view: CameraFollowView)
        ensures
            final(self).mode == CameraMode::Follow(view),
    {
        self.mode = CameraMode::Follow(view);
    }

    /// Follows the car from the driver's seat.
    pub fn driver(&mut self)
        ensures
            final(self).mode == CameraMode::Follow(CameraFollowView::Driver),
    {
        self.follow_view(CameraFollowView::Driver);
    }

    /// Follows the car from close behind.
    pub fn near(&mut self)
        ensures
            final(self).mode == CameraMode::Follow(CameraFollowView::Near),
    {
        self.follow_view(CameraFollowView::Near);
    }

    /// Follows the car from further behind.
    pub fn mid(&mut self)
        ensures
            final(self).mode == CameraMode::Follow(CameraFollowView::Mid),
    {
        self.follow_view(CameraFollowView::Mid);
    }

    /// Follows the car from far behind.
    pub fn far(&mut self)
        ensures
            final(self).mode == CameraMode::Follow(CameraFollowView::Far),
    {
        self.follow_view(CameraFollowView::Far);
    }

    /// Follows the car looking at its front wheel.
    pub fn wheel(&mut self)
        ensures
            final(self).mode == CameraMode::Follow(CameraFollowView::FrontWheel),
    {
        self.follow_view(CameraFollowView::FrontWheel);
    }

}

impl Default for CameraConfig {
    /// The camera starts following the car from close behind.
    fn default() -> (r: Self)
        ensures
            r.mode == CameraMode::Follow(CameraFollowView::Near),
    {
        Self::from_view(CameraFollowView::Near)
    }
}

/// Switches the camera by the digit keys pressed in a frame.
pub fn camera_switch_system(config: &mut CameraConfig, keys: ViewKeys)
    ensures
        final(config).mode == spec_mode_after_keys(old(config).mode, keys),
        keys.digit0 ==> final(config).mode == CameraMode::Free,
        !keys.digit0 && keys.digit5 ==> final(config).mode == CameraMode::Follow(CameraFollowView::FrontWheel),
        !keys.digit0 && !keys.digit5 && keys.digit4 ==> final(config).mode == CameraMode::Follow(CameraFollowView::Far),
        !keys.digit0 && !keys.digit5 && !keys.digit4 && keys.digit3 ==> final(config).mode == CameraMode::Follow(
            CameraFollowView::Mid,
        ),
        !keys.digit0 && !keys.digit5 && !keys.digit4 && !keys.digit3 && keys.digit2 ==> final(config).mode
            == CameraMode::Follow(CameraFollowView::Near),
        !keys.digit0 && !keys.digit5 && !keys.digit4 && !keys.digit3 && !keys.digit2 && keys.digit1
            ==> final(config).mode == CameraMode::Follow(CameraFollowView::Driver),
        !keys.digit0 && !keys.digit5 && !keys.digit4 && !keys.digit3 && !keys.digit2 && !keys.digit1
            ==> final(config).mode == old(config).mode,
{
    if keys.digit1 {
        config.driver();
    }
    if keys.digit2 {
        config.near();
    }
    if keys.digit3 {
        config.mid();
    }
    if keys.digit4 {
        config.far();
    }
    if keys.digit5 {
        config.wheel();
    }
    if keys.digit0 {
        config.free();
    }
}

/// The digit keys pick the camera's view, whatever the mode was: 1 the
/// driver's seat, 2 near, 3 mid, 4 far, 5 the front wheel, each when pressed
/// without a higher digit; 0 frees the camera whatever else is pressed; with
/// no digit pressed the mode stays. Each view from 1 to 5 can thus be picked
/// by its own key, and the five keys pick five different views.
pub proof fn lemma_digit_keys_pick_views(mode: CameraMode, keys: ViewKeys)
    ensures
        keys.digit0 ==> spec_mode_after_keys(mode, keys) == CameraMode::Free,
        !keys.digit0 && keys.digit5 ==> spec_mode_after_keys(mode, keys) == CameraMode::Follow(
            CameraFollowView::FrontWheel,
        ),
        !keys.digit0 && !keys.digit5 && keys.digit4 ==> spec_mode_after_keys(mode, keys) == CameraMode::Follow(
            CameraFollowView::Far,
        ),
        !keys.digit0 && !keys.digit5 && !keys.digit4 && keys.digit3 ==> spec_mode_after_keys(mode, keys)
            == CameraMode::Follow(CameraFollowView::Mid),
        !keys.digit0 && !keys.digit5 && !keys.digit4 && !keys.digit3 && keys.digit2 ==> spec_mode_after_keys(
            mode,
            keys,
        ) == CameraMode::Follow(CameraFollowView::Near),
        !keys.digit0 && !keys.digit5 && !keys.digit4 && !keys.digit3 && !keys.digit2 && keys.digit1
            ==> spec_mode_after_keys(mode, keys) == CameraMode::Follow(CameraFollowView::Driver),
        !keys.digit0 && !keys.digit5 && !keys.digit4 && !keys.digit3 && !keys.digit2 && !keys.digit1
            ==> spec_mode_after_keys(mode, keys) == mode,
{
}

/// Cycling through the follow views comes back after six steps, visiting six
/// different views on the way; a free camera is left free.
pub proof fn lemma_next_view_cycles(mode: CameraMode)
    ensures
        spec_next_mode(spec_next_mode(spec_next_mode(spec_next_mode(spec_next_mode(spec_next_mode(mode))))))
            == mode,
        mode is Follow ==> spec_next_mode(mode) != mode && spec_next_mode(mode) is Follow,
        mode is Follow ==> spec_next_mode(spec_next_mode(mode)) != mode
            && spec_next_mode(spec_next_mode(spec_next_mode(mode))) != mode,
        mode == CameraMode::Free ==> spec_next_mode(mode) == CameraMode::Free,
{
}

/// Whether the mouse cursor is held by the window.
#[derive(PartialEq, Eq, Structural, Debug, Clone, Copy)]
pub enum CursorGrab {
    Released,
    Confined,
    Locked,
}

/// The state of the mouse cursor over the game's window.
#[derive(PartialEq, Eq, Structural, Debug, Clone, Copy)]
pub struct CursorState {
    pub visible: bool,
    pub grab: CursorGrab,
}

/// A left click hides the cursor and locks it to the window; Escape shows and
/// releases it, and wins when both happen in the same frame; otherwise the
/// cursor is left as it was.
pub fn grab_mouse(cursor: CursorState, left_just_pressed: bool, escape_just_pressed: bool) -> (r: CursorState)
    ensures
        escape_just_pressed ==> r == (CursorState { visible: true, grab: CursorGrab::Released }),
        !escape_just_pressed && left_just_pressed ==> r == (CursorState { visible: false, grab: CursorGrab::Locked }),
        !escape_just_pressed && !left_just_pressed ==> r == cursor,
{
    let mut window_cursor = cursor;
    if left_just_pressed {
        window_cursor.visible = false;
        window_cursor.grab = CursorGrab::Locked;
    }
    if escape_just_pressed {
        window_cursor.visible = true;
        window_cursor.grab = CursorGrab::Released;
    }
    window_cursor
}

/// The movement keys held in a frame, for the free camera.
#[derive(PartialEq, Eq, Structural, Debug, Clone, Copy)]
pub struct MoveKeys {
    pub forward: bool,
    pub back: bool,
    pub right: bool,
    pub left: bool,
    pub up: bool,
    pub down: bool,
}

/// The direction in which the free camera is pushed, each axis -1, 0 or 1:
/// x is right minus left, y is up minus down, z is forward minus back.
pub fn free_camera_axis(keys: MoveKeys) -> (r: (i8, i8, i8))
    ensures
        r.0 == (if keys.right { 1int } else { 0 }) - (if keys.left { 1int } else { 0 }),
        r.1 == (if keys.up { 1int } else { 0 }) - (if keys.down { 1int } else { 0 }),
        r.2 == (if keys.forward { 1int } else { 0 }) - (if keys.back { 1int } else { 0 }),
{
    let mut x: i8 = 0;
    let mut y: i8 = 0;
    let mut z: i8 = 0;
    if keys.forward {
        z = z + 1;
    }
    if keys.back {
        z = z - 1;
    }
    if keys.right {
        x = x + 1;
    }
    if keys.left {
        x = x - 1;
    }
    if keys.up {
        y = y + 1;
    }
    if keys.down {
        y = y - 1;
    }
    (x, y, z)
}

/// The free camera moves only while the window holds the cursor.
pub fn free_camera_active(grab: CursorGrab) -> (r: bool)
    ensures
        r <==> grab != CursorGrab::Released,
{
    match grab {
        CursorGrab::Released => false,
        _ => true,
    }
}

} // verus!
