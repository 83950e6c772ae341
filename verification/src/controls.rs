//! How the player's inputs (keyboard, touch buttons, a networked client's
//! input, the neural network's action) set the car's pedals and steering.
//!
//! The car's controls are floating point; every input handled here sets them
//! to whole values only (gas and brake 0 or 1, steering -1, 0 or 1), so the
//! decisions are made on small integers, and the application writes them into
//! the car.
use vstd::prelude::*;

verus! {

/// New values for the car's controls; `None` leaves a control as it is.
#[derive(PartialEq, Eq, Structural, Debug, Clone, Copy)]
pub struct ControlUpdate {
    pub gas: Option<i8>,
    pub brake: Option<i8>,
    pub steering: Option<i8>,
}

/// The state of the driving keys in a frame: whether each arrow key is held,
/// and whether it was released in this frame.
#[derive(PartialEq, Eq, Structural, Debug, Clone, Copy)]
pub struct ArrowKeys {
    pub up_pressed: bool,
    pub up_released: bool,
    pub down_pressed: bool,
    pub down_released: bool,
    pub left_pressed: bool,
    pub left_released: bool,
    pub right_pressed: bool,
    pub right_released: bool,
}

/// The arrow keys drive the car: holding up gives full gas and releasing it
/// cuts the gas; down does the same for the brake. Holding left steers fully
/// left and holding right fully right (right wins when both are held);
/// releasing either of them straightens the wheel, which wins over holding.
/// A key that is neither held nor released leaves its control alone.
pub open spec fn spec_arrow_key_controls(keys: ArrowKeys) -> ControlUpdate {
    ControlUpdate {
        gas: if keys.up_released { Some(0i8) } else if keys.up_pressed { Some(1i8) } else { None },
        brake: if keys.down_released { Some(0i8) } else if keys.down_pressed { Some(1i8) } else { None },
        steering: if keys.left_released || keys.right_released {
            Some(0i8)
        } else if keys.right_pressed {
            Some(1i8)
        } else if keys.left_pressed {
            Some(-1i8)
        } else {
            None
        },
    }
}

/// Releasing a pedal key takes that pedal to zero, and releasing either
/// steering key straightens the wheel, whatever else is held; a key held and
/// not released presses its pedal fully (steering: right fully right, left
/// alone fully left); a control whose keys are neither held nor released is
/// left alone.
pub proof fn lemma_arrow_keys_drive(keys: ArrowKeys)
    ensures
        keys.up_released ==> spec_arrow_key_controls(keys).gas == Some(0i8),
        keys.down_released ==> spec_arrow_key_controls(keys).brake == Some(0i8),
        keys.left_released || keys.right_released ==> spec_arrow_key_controls(keys).steering == Some(0i8),
        !keys.up_released && keys.up_pressed ==> spec_arrow_key_controls(keys).gas == Some(1i8),
        !keys.down_released && keys.down_pressed ==> spec_arrow_key_controls(keys).brake == Some(1i8),
        !keys.left_released && !keys.right_released && keys.right_pressed ==> spec_arrow_key_controls(keys).steering
            == Some(1i8),
        !keys.left_released && !keys.right_released && !keys.right_pressed && keys.left_pressed
            ==> spec_arrow_key_controls(keys).steering == Some(-1i8),
        !keys.up_released && !keys.up_pressed ==> spec_arrow_key_controls(keys).gas is None,
        !keys.down_released && !keys.down_pressed ==> spec_arrow_key_controls(keys).brake is None,
        !keys.left_released && !keys.right_released && !keys.left_pressed && !keys.right_pressed
            ==> spec_arrow_key_controls(keys).steering is None,
{
}

/// The controls set by the arrow keys of a frame.
pub fn arrow_key_controls(keys: ArrowKeys) -> (r: ControlUpdate)
    ensures
        r == spec_arrow_key_controls(keys),
        keys.up_released ==> r.gas == Some(0i8),
        keys.down_released ==> r.brake == Some(0i8),
        keys.left_released || keys.right_released ==> r.steering == Some(0i8),
        !keys.up_released && keys.up_pressed ==> r.gas == Some(1i8),
        !keys.down_released && keys.down_pressed ==> r.brake == Some(1i8),
{
    let mut update = ControlUpdate { gas: None, brake: None, steering: None };
    if keys.up_pressed {
        update.gas = Some(1);
    }
    if keys.up_released {
        update.gas = Some(0);
    }
    if keys.down_pressed {
        update.brake = Some(1);
    }
    if keys.down_released {
        update.brake = Some(0);
    }
    if keys.left_pressed {
        update.steering = Some(-1);
    }
    if keys.right_pressed {
        update.steering = Some(1);
    }
    if keys.left_released {
        update.steering = Some(0);
    }
    if keys.right_released {
        update.steering = Some(0);
    }
    update
}

/// The keys the game reads in a frame besides the arrows.
#[derive(PartialEq, Eq, Structural, Debug, Clone, Copy)]
pub struct GameKeys {
    pub arrows: ArrowKeys,
    /// R was just pressed.
    pub r_just_pressed: bool,
    /// Space was just pressed.
    pub space_just_pressed: bool,
    /// Left shift is held.
    pub shift_pressed: bool,
    /// N was just pressed.
    pub n_just_pressed: bool,
}

/// What the game does with the keys of a frame.
#[derive(PartialEq, Eq, Structural, Debug, Clone, Copy)]
pub struct InputDecision {
    /// Switch between driving by the neural network and not.
    pub toggle_brain: bool,
    /// Switch the physics debug view (and the sensor rays with it).
    pub toggle_debug: bool,
    /// Take the player's car off the track and put a new one at the start.
    pub respawn: bool,
    /// The new controls of the player's car.
    pub controls: ControlUpdate,
}

/// The game's keyboard handling: N toggles the brain, R toggles the debug
/// view, Shift+Space respawns the player's car, and the arrows drive it.
pub fn input_system(keys: GameKeys) -> (r: InputDecision)
    ensures
        r.toggle_brain == keys.n_just_pressed,
        r.toggle_debug == keys.r_just_pressed,
        r.respawn == (keys.space_just_pressed && keys.shift_pressed),
        r.controls == spec_arrow_key_controls(keys.arrows),
{
    InputDecision {
        toggle_brain: keys.n_just_pressed,
        toggle_debug: keys.r_just_pressed,
        respawn: keys.space_just_pressed && keys.shift_pressed,
        controls: arrow_key_controls(keys.arrows),
    }
}

/// What a networked client holds down.
#[derive(PartialEq, Eq, Structural, Debug, Clone, Copy, Default)]
pub struct PlayerInput {
    pub up: bool,
    pub down: bool,
    pub left: bool,
    pub right: bool,
}

/// A networked player's car: gas while up is held, brake while down is held,
/// steering left or right while that key is held (right wins when both are),
/// straight ahead when neither is.
pub fn move_players_system(input: PlayerInput) -> (r: (i8, i8, i8))
    ensures
        r.0 == (if input.up { 1int } else { 0 }),
        r.1 == (if input.down { 1int } else { 0 }),
        r.2 == (if input.right { 1int } else if input.left { -1 } else { 0 }),
{
    let gas: i8 = if input.up { 1 } else { 0 };
    let brake: i8 = if input.down { 1 } else { 0 };
    let mut steering: i8 = 0;
    if input.left {
        steering = -1;
    }
    if input.right {
        steering = 1;
    }
    if !input.left && !input.right {
        steering = 0;
    }
    (gas, brake, steering)
}

/// The four on-screen buttons of the touch controls.
#[derive(PartialEq, Eq, Structural, Debug, Clone, Copy)]
pub enum BtnType {
    U,
    D,
    L,
    R,
}

/// A touch button.
#[derive(PartialEq, Eq, Structural, Debug, Clone, Copy)]
pub struct CarButton {
    pub btn_type: BtnType,
}

/// How a button is being touched.
#[derive(PartialEq, Eq, Structural, Debug, Clone, Copy)]
pub enum ButtonInteraction {
    Clicked,
    Hovered,
    Idle,
}

/// The colour a button is drawn in.
#[derive(PartialEq, Eq, Structural, Debug, Clone, Copy)]
pub enum ButtonLook {
    White,
    Gray,
    Blue,
}

/// The control that a button drives: U the gas, D the brake, L and R the
/// steering.
pub open spec fn spec_button_control(btn: BtnType, value: i8) -> ControlUpdate {
    match btn {
        BtnType::U => ControlUpdate { gas: Some(value), brake: None, steering: None },
        BtnType::D => ControlUpdate { gas: None, brake: Some(value), steering: None },
        BtnType::L | BtnType::R => ControlUpdate { gas: None, brake: None, steering: Some(value) },
    }
}

/// Each touch button drives its own control and no other: U the gas, D the
/// brake, L and R the steering, set to the value given. So a released button
/// (value 0) takes its own control back to zero: U the gas, D the brake, L and
/// R the steering.
pub proof fn lemma_button_drives_its_control(btn: BtnType, value: i8)
    ensures
        btn == BtnType::U ==> spec_button_control(btn, value) == (ControlUpdate {
            gas: Some(value),
            brake: None,
            steering: None,
        }),
        btn == BtnType::D ==> spec_button_control(btn, value) == (ControlUpdate {
            gas: None,
            brake: Some(value),
            steering: None,
        }),
        (btn == BtnType::L || btn == BtnType::R) ==> spec_button_control(btn, value) == (ControlUpdate {
            gas: None,
            brake: None,
            steering: Some(value),
        }),
        btn == BtnType::U ==> spec_button_control(btn, 0i8).gas == Some(0i8),
        btn == BtnType::D ==> spec_button_control(btn, 0i8).brake == Some(0i8),
        (btn == BtnType::L || btn == BtnType::R) ==> spec_button_control(btn, 0i8).steering == Some(0i8),
{
}

/// A touched button turns blue and applies its control fully (L steers left,
/// R right); a hovered one turns gray and changes nothing; a released one turns
/// white again and lets its control go back to zero.
pub fn touch_input_system(button: CarButton, interaction: ButtonInteraction) -> (r: (ButtonLook, ControlUpdate))
    ensures
        interaction == ButtonInteraction::Clicked ==> r.0 == ButtonLook::Blue && r.1 == spec_button_control(
            button.btn_type,
            if button.btn_type == BtnType::L { -1i8 } else { 1i8 },
        ),
        interaction == ButtonInteraction::Hovered ==> r.0 == ButtonLook::Gray && r.1 == (ControlUpdate {
            gas: None,
            brake: None,
            steering: None,
        }),
        interaction == ButtonInteraction::Idle ==> r.0 == ButtonLook::White && r.1 == spec_button_control(
            button.btn_type,
            0i8,
        ),
        interaction == ButtonInteraction::Idle && button.btn_type == BtnType::U ==> r.1 == (ControlUpdate {
            gas: Some(0i8),
            brake: None,
            steering: None,
        }),
        interaction == ButtonInteraction::Idle && button.btn_type == BtnType::D ==> r.1 == (ControlUpdate {
            gas: None,
            brake: Some(0i8),
            steering: None,
        }),
        interaction == ButtonInteraction::Idle && (button.btn_type == BtnType::L || button.btn_type == BtnType::R)
            ==> r.1 == (ControlUpdate { gas: None, brake: None, steering: Some(0i8) }),
        interaction == ButtonInteraction::Clicked && button.btn_type == BtnType::U ==> r.1 == (ControlUpdate {
            gas: Some(1i8),
            brake: None,
            steering: None,
        }),
        interaction == ButtonInteraction::Clicked && button.btn_type == BtnType::D ==> r.1 == (ControlUpdate {
            gas: None,
            brake: Some(1i8),
            steering: None,
        }),
        interaction == ButtonInteraction::Clicked && button.btn_type == BtnType::L ==> r.1 == (ControlUpdate {
            gas: None,
            brake: None,
            steering: Some(-1i8),
        }),
        interaction == ButtonInteraction::Clicked && button.btn_type == BtnType::R ==> r.1 == (ControlUpdate {
            gas: None,
            brake: None,
            steering: Some(1i8),
        }),
{
    let mut update = ControlUpdate { gas: None, brake: None, steering: None };
    match interaction {
        ButtonInteraction::Clicked => {
            match button.btn_type {
                BtnType::U => {
                    update.gas = Some(1);
                },
                BtnType::D => {
                    update.brake = Some(1);
                },
                BtnType::L => {
                    update.steering = Some(-1);
                },
                BtnType::R => {
                    update.steering = Some(1);
                },
            }
            (ButtonLook::Blue, update)
        },
        ButtonInteraction::Hovered => (ButtonLook::Gray, update),
        ButtonInteraction::Idle => {
            match button.btn_type {
                BtnType::U => {
                    update.gas = Some(0);
                },
                BtnType::D => {
                    update.brake = Some(0);
                },
                BtnType::L => {
                    update.steering = Some(0);
                },
                BtnType::R => {
                    update.steering = Some(0);
                },
            }
            (ButtonLook::White, update)
        },
    }
}

/// Whether the network's action `a` presses the gas: actions 0, 4 and 5.
pub open spec fn action_gas(a: usize) -> bool {
    a == 0 || a == 4 || a == 5
}

/// Whether action `a` presses the brake: actions 1, 6 and 7.
pub open spec fn action_brake(a: usize) -> bool {
    a == 1 || a == 6 || a == 7
}

/// Whether action `a` steers left: actions 2, 4 and 6.
pub open spec fn action_left(a: usize) -> bool {
    a == 2 || a == 4 || a == 6
}

/// Whether action `a` steers right: actions 3, 5 and 7.
pub open spec fn action_right(a: usize) -> bool {
    a == 3 || a == 5 || a == 7
}

/// The controls that the neural network's action `a` stands for, as
/// `(gas, brake, left, right)`, each 1 when pressed and 0 when not: 0 gas,
/// 1 brake, 2 left, 3 right, 4 gas and left, 5 gas and right, 6 brake and left,
/// 7 brake and right; any other action presses nothing.
pub fn map_action_to_car(a: usize) -> (r: (u8, u8, u8, u8))
    ensures
        r.0 == (if action_gas(a) { 1u8 } else { 0u8 }),
        r.1 == (if action_brake(a) { 1u8 } else { 0u8 }),
        r.2 == (if action_left(a) { 1u8 } else { 0u8 }),
        r.3 == (if action_right(a) { 1u8 } else { 0u8 }),
{
    let gas: u8 = match a {
        0 | 4 | 5 => 1,
        _ => 0,
    };
    let brake: u8 = match a {
        1 | 6 | 7 => 1,
        _ => 0,
    };
    let left: u8 = match a {
        2 | 4 | 6 => 1,
        _ => 0,
    };
    let right: u8 = match a {
        3 | 5 | 7 => 1,
        _ => 0,
    };
    (gas, brake, left, right)
}

/// The car's controls for the network's action: gas, brake, and steering as
/// right minus left.
pub fn action_controls(a: usize) -> (r: (i8, i8, i8))
    ensures
        r.0 == (if action_gas(a) { 1int } else { 0 }),
        r.1 == (if action_brake(a) { 1int } else { 0 }),
        r.2 == (if action_right(a) { 1int } else { 0 }) - (if action_left(a) { 1int } else { 0 }),
{
    let (gas, brake, left, right) = map_action_to_car(a);
    (gas as i8, brake as i8, right as i8 - left as i8)
}

/// No action presses both pedals or steers both ways.
pub proof fn lemma_actions_consistent(a: usize)
    ensures
        !(action_gas(a) && action_brake(a)),
        !(action_left(a) && action_right(a)),
        a < 8 ==> action_gas(a) || action_brake(a) || action_left(a) || action_right(a),
{
}

} // verus!
