//! The decisions of a host that owns the whole screen and reads the controllers itself, for
//! machines without a window system. Times are in nanoseconds since some start.
use vstd::prelude::*;
use vstd::string::*;
use crate::gamepad::{
    button_action, meaning, pushed, PadButton, Stick, STICK_FULL,
};
use crate::model::{Action, Direction};
use crate::text::same;

verus! {

/// A trigger is an axis; past this it counts as pressed.
pub const TRIGGER_PRESSED: i16 = 16_000;

/// A repaint "never" is asked for as a very long delay; this keeps the arithmetic on it finite.
pub const LONGEST_WAIT: u64 = 3_600_000_000_000;

/// A controller's button, by the name its mapping gives it.
#[derive(Debug, Clone, Copy, PartialEq, Eq, Structural)]
pub enum PadKey {
    DPadUp,
    DPadDown,
    DPadLeft,
    DPadRight,
    A,
    B,
    Y,
    LeftShoulder,
    RightShoulder,
    Guide,
    Start,
    Other,
}

/// A controller's axis.
#[derive(Debug, Clone, Copy, PartialEq, Eq, Structural)]
pub enum PadAxis {
    LeftX,
    LeftY,
    TriggerLeft,
    TriggerRight,
    Other,
}

/// Where an axis stands, in parts of the full travel of a stick.
pub open spec fn unit_of(value: int) -> int {
    if value < 0 {
        -((-value) * STICK_FULL / 32767)
    } else {
        value * STICK_FULL / 32767
    }
}

fn unit(value: i16) -> (r: i32)
    ensures
        r == unit_of(value as int),
        -0x200_0000 < r < 0x200_0000,
{
    let wide: i64 = value as i64;
    let size: i64 = if wide < 0 {
        -wide
    } else {
        wide
    };
    let scaled: i64 = size * STICK_FULL as i64 / 32767;
    if wide < 0 {
        (-scaled) as i32
    } else {
        scaled as i32
    }
}

/// Where the d-pad stands while one of its buttons is down.
pub open spec fn dpad_of(key: PadKey) -> Option<(i32, i32)> {
    match key {
        PadKey::DPadUp => Some((0, STICK_FULL)),
        PadKey::DPadDown => Some((0, (-STICK_FULL) as i32)),
        PadKey::DPadLeft => Some(((-STICK_FULL) as i32, 0)),
        PadKey::DPadRight => Some((STICK_FULL, 0)),
        _ => None,
    }
}

/// What a button is by its position.
pub open spec fn button_of(key: PadKey) -> Option<PadButton> {
    match key {
        PadKey::A => Some(PadButton::South),
        PadKey::B => Some(PadButton::East),
        PadKey::Y => Some(PadButton::North),
        PadKey::LeftShoulder => Some(PadButton::LeftBumper),
        PadKey::RightShoulder => Some(PadButton::RightBumper),
        PadKey::Guide => Some(PadButton::Guide),
        PadKey::Start => Some(PadButton::Start),
        _ => None,
    }
}

/// The action of a focus move.
pub open spec fn as_move(direction: Option<Direction>) -> Option<Action> {
    match direction {
        Some(direction) => Some(Action::MoveFocus(direction)),
        None => None,
    }
}

fn to_move(direction: Option<Direction>) -> (r: Option<Action>)
    ensures
        r == as_move(direction),
{
    match direction {
        Some(direction) => Some(Action::MoveFocus(direction)),
        None => None,
    }
}

/// What a button does where the reader repeats the held ones itself: a direction of the d-pad
/// moves the focus, any other means what its position does.
pub fn tapped(key: PadKey) -> (r: Option<Action>)
    ensures
        r == (match key {
            PadKey::DPadUp => Some(Action::MoveFocus(Direction::Up)),
            PadKey::DPadDown => Some(Action::MoveFocus(Direction::Down)),
            PadKey::DPadLeft => Some(Action::MoveFocus(Direction::Left)),
            PadKey::DPadRight => Some(Action::MoveFocus(Direction::Right)),
            _ => match button_of(key) {
                Some(button) => meaning(button),
                None => None,
            },
        }),
{
    match key {
        PadKey::DPadUp => Some(Action::MoveFocus(Direction::Up)),
        PadKey::DPadDown => Some(Action::MoveFocus(Direction::Down)),
        PadKey::DPadLeft => Some(Action::MoveFocus(Direction::Left)),
        PadKey::DPadRight => Some(Action::MoveFocus(Direction::Right)),
        _ => match position(key) {
            Some(button) => button_action(button),
            None => None,
        },
    }
}

fn position(key: PadKey) -> (r: Option<PadButton>)
    ensures
        r == button_of(key),
{
    match key {
        PadKey::A => Some(PadButton::South),
        PadKey::B => Some(PadButton::East),
        PadKey::Y => Some(PadButton::North),
        PadKey::LeftShoulder => Some(PadButton::LeftBumper),
        PadKey::RightShoulder => Some(PadButton::RightBumper),
        PadKey::Guide => Some(PadButton::Guide),
        PadKey::Start => Some(PadButton::Start),
        _ => None,
    }
}

/// Open controllers and their held state. Buttons that mean a direction
/// repeat while held, the same as a stick.
#[derive(Debug)]
pub struct Pads {
    /// The controllers that are open, by number.
    pub open: Vec<u32>,
    pub stick: Stick,
    pub dpad: Stick,
    pub stick_pos: (i32, i32),
    pub dpad_pos: (i32, i32),
    pub left_trigger: bool,
    pub right_trigger: bool,
}

impl Pads {
    /// Controllers already attached announce themselves at startup, so they are all opened as
    /// they do.
    pub fn new() -> (r: Self)
        ensures
            r.open@.len() == 0,
            r.stick.held is None,
            r.dpad.held is None,
            r.stick_pos == (0i32, 0i32),
            r.dpad_pos == (0i32, 0i32),
            !r.left_trigger,
            !r.right_trigger,
    {
        Pads {
            open: Vec::new(),
            stick: Stick::new(),
            dpad: Stick::new(),
            stick_pos: (0, 0),
            dpad_pos: (0, 0),
            left_trigger: false,
            right_trigger: false,
        }
    }

    /// Takes in a controller that was opened; true when it is new.
    pub fn opened(&mut self, id: u32) -> (r: bool)
        ensures
            r == !old(self).open@.contains(id),
            *final(self) == (Pads { open: final(self).open, ..*old(self) }),
            final(self).open@ == (if r {
                old(self).open@.push(id)
            } else {
                old(self).open@
            }),
    {
        let mut i: usize = 0;
        while i < self.open.len()
            invariant
                i <= self.open@.len(),
                *self == *old(self),
                forall|k: int| 0 <= k < i ==> self.open@[k] != id,
            decreases self.open@.len() - i,
        {
            if self.open[i] == id {
                assert(self.open@[i as int] == id);
                return false;
            }
            i += 1;
        }
        self.open.push(id);
        true
    }

    /// Lets go of a controller that is gone.
    pub fn close(&mut self, id: u32)
        ensures
            *final(self) == (Pads { open: final(self).open, ..*old(self) }),
            final(self).open@ == old(self).open@.filter(|open: u32| open != id),
    {
        let ghost all = self.open@;
        let ghost other = |open: u32| open != id;
        let mut kept: Vec<u32> = Vec::new();
        let mut i: usize = 0;
        proof {
            reveal(Seq::filter);
            assert(all.take(0).filter(other) =~= Seq::empty());
        }
        while i < self.open.len()
            invariant
                i <= all.len(),
                *self == *old(self),
                self.open@ == all,
                other == (|open: u32| open != id),
                kept@ == all.take(i as int).filter(other),
            decreases all.len() - i,
        {
            proof {
                reveal(Seq::filter);
                assert(all.take(i + 1).drop_last() =~= all.take(i as int));
            }
            if self.open[i] != id {
                kept.push(self.open[i]);
            }
            i += 1;
        }
        assert(all.take(i as int) =~= all);
        self.open = kept;
    }

    /// What pressing a button does: a direction of the d-pad is held from now on, any other
    /// means what its position does.
    pub open spec fn pressed(pre: Self, key: PadKey, now: u64) -> (Self, Option<Action>) {
        match dpad_of(key) {
            Some((x, y)) => {
                let (dpad, direction) = pre.dpad.moved(pushed(x as int, y as int), now);
                (Pads { dpad, dpad_pos: (x, y), ..pre }, as_move(direction))
            },
            None => (
                pre,
                match button_of(key) {
                    Some(button) => meaning(button),
                    None => None,
                },
            ),
        }
    }

    pub fn press(&mut self, key: PadKey, now: u64) -> (r: Option<Action>)
        ensures
            (*final(self), r) == Self::pressed(*old(self), key, now),
    {
        match key {
            PadKey::DPadUp => self.dpad_set(0, STICK_FULL, now),
            PadKey::DPadDown => self.dpad_set(0, -STICK_FULL, now),
            PadKey::DPadLeft => self.dpad_set(-STICK_FULL, 0, now),
            PadKey::DPadRight => self.dpad_set(STICK_FULL, 0, now),
            _ => match position(key) {
                Some(button) => button_action(button),
                None => None,
            },
        }
    }

    /// What letting a button go does: the d-pad is back at rest.
    pub fn release(&mut self, key: PadKey, now: u64)
        ensures
            *final(self) == (if dpad_of(key) is Some {
                Pads { dpad: Stick { held: None }, dpad_pos: (0, 0), ..*old(self) }
            } else {
                *old(self)
            }),
    {
        match key {
            PadKey::DPadUp | PadKey::DPadDown | PadKey::DPadLeft | PadKey::DPadRight => {
                self.dpad_set(0, 0, now);
            },
            _ => {},
        }
    }

    fn dpad_set(&mut self, x: i32, y: i32, now: u64) -> (r: Option<Action>)
        ensures
            ({
                let (dpad, direction) = old(self).dpad.moved(pushed(x as int, y as int), now);
                &&& *final(self) == (Pads { dpad, dpad_pos: (x, y), ..*old(self) })
                &&& r == as_move(direction)
            }),
    {
        self.dpad_pos = (x, y);
        let direction = self.dpad.update(x, y, now);
        to_move(direction)
    }

    /// What an axis that moved does: a stick moves the focus, up being positive; a trigger that
    /// goes past its point means what its button does.
    pub open spec fn swayed(pre: Self, axis: PadAxis, value: i16, now: u64) -> (
        Self,
        Option<Action>,
    ) {
        let held = value > TRIGGER_PRESSED;
        match axis {
            PadAxis::LeftX | PadAxis::LeftY => {
                let pos = if axis == PadAxis::LeftX {
                    (unit_of(value as int) as i32, pre.stick_pos.1)
                } else {
                    (pre.stick_pos.0, (-unit_of(value as int)) as i32)
                };
                let (stick, direction) = pre.stick.moved(
                    pushed(pos.0 as int, pos.1 as int),
                    now,
                );
                (Pads { stick, stick_pos: pos, ..pre }, as_move(direction))
            },
            PadAxis::TriggerLeft => (
                Pads { left_trigger: held, ..pre },
                if held && !pre.left_trigger {
                    meaning(PadButton::LeftTrigger)
                } else {
                    None
                },
            ),
            PadAxis::TriggerRight => (
                Pads { right_trigger: held, ..pre },
                if held && !pre.right_trigger {
                    meaning(PadButton::RightTrigger)
                } else {
                    None
                },
            ),
            PadAxis::Other => (pre, None),
        }
    }

    pub fn axis(&mut self, axis: PadAxis, value: i16, now: u64) -> (r: Option<Action>)
        ensures
            (*final(self), r) == Self::swayed(*old(self), axis, value, now),
    {
        let pressed = value > TRIGGER_PRESSED;
        match axis {
            PadAxis::LeftX => {
                self.stick_pos = (unit(value), self.stick_pos.1);
            },
            // The axis grows downward; the stick's up is positive.
            PadAxis::LeftY => {
                self.stick_pos = (self.stick_pos.0, -unit(value));
            },
            PadAxis::TriggerLeft => {
                let edge = pressed && !self.left_trigger;
                self.left_trigger = pressed;
                return if edge {
                    button_action(PadButton::LeftTrigger)
                } else {
                    None
                };
            },
            PadAxis::TriggerRight => {
                let edge = pressed && !self.right_trigger;
                self.right_trigger = pressed;
                return if edge {
                    button_action(PadButton::RightTrigger)
                } else {
                    None
                };
            },
            PadAxis::Other => {
                return None;
            },
        }
        let (x, y) = self.stick_pos;
        let direction = self.stick.update(x, y, now);
        to_move(direction)
    }

    /// What a stick that is held comes to now; one at rest stays as it is.
    pub open spec fn again(stick: Stick, pos: (i32, i32), now: u64) -> (Stick, Option<Direction>) {
        if stick.held is Some {
            stick.moved(pushed(pos.0 as int, pos.1 as int), now)
        } else {
            (stick, None)
        }
    }

    /// Which of the stick and the d-pad moved again, the stick first.
    pub open spec fn repeated(pre: Self, now: u64, post: Self, moves: Seq<Direction>) -> bool {
        let (stick, a) = Self::again(pre.stick, pre.stick_pos, now);
        let (dpad, b) = Self::again(pre.dpad, pre.dpad_pos, now);
        &&& post == (Pads { stick, dpad, ..pre })
        &&& moves == (match (a, b) {
            (None, None) => seq![],
            (Some(a), None) => seq![a],
            (None, Some(b)) => seq![b],
            (Some(a), Some(b)) => seq![a, b],
        })
    }

    /// Repeats due now for anything still held.
    pub fn repeat(&mut self, now: u64) -> (r: Vec<Direction>)
        ensures
            Self::repeated(*old(self), now, *final(self), r@),
    {
        let mut moves: Vec<Direction> = Vec::new();
        if self.stick.held.is_some() {
            let (x, y) = self.stick_pos;
            if let Some(direction) = self.stick.update(x, y, now) {
                moves.push(direction);
            }
        }
        let ghost first = moves@;
        if self.dpad.held.is_some() {
            let (x, y) = self.dpad_pos;
            if let Some(direction) = self.dpad.update(x, y, now) {
                moves.push(direction);
            }
        }
        proof {
            let (stick, a) = Self::again(old(self).stick, old(self).stick_pos, now);
            let (dpad, b) = Self::again(old(self).dpad, old(self).dpad_pos, now);
            assert(first =~= (match a {
                None => seq![],
                Some(a) => seq![a],
            }));
            assert(moves@ =~= (match (a, b) {
                (None, None) => seq![],
                (Some(a), None) => seq![a],
                (None, Some(b)) => seq![b],
                (Some(a), Some(b)) => seq![a, b],
            }));
        }
        moves
    }

    /// When the next repeat is due: that of the stick if it is held, else that of the d-pad.
    pub fn deadline(&self) -> (r: Option<u128>)
        ensures
            r == (match (self.stick.held, self.dpad.held) {
                (Some(held), _) => Some(held.next),
                (None, Some(held)) => Some(held.next),
                (None, None) => None,
            }),
    {
        match self.stick.deadline() {
            Some(deadline) => Some(deadline),
            None => self.dpad.deadline(),
        }
    }
}

/// A d-pad button that is pressed and let go moves the focus once, and leaves nothing held.
pub proof fn dpad_taps_move_once(pads: Pads, key: PadKey, now: u64, later: u64)
    requires
        pads.dpad.held is None,
        dpad_of(key) is Some,
    ensures
        ({
            let (down, action) = Pads::pressed(pads, key, now);
            let up = Pads { dpad: Stick { held: None }, dpad_pos: (0, 0), ..down };
            &&& action matches Some(Action::MoveFocus(_))
            &&& Pads::again(up.dpad, up.dpad_pos, later).1 is None
        }),
{
}

/// What the host is told.
#[derive(Debug, Clone, Copy, PartialEq, Eq, Structural)]
pub enum HostEvent {
    Quit,
    /// A controller announced itself.
    Added,
    /// A controller is gone.
    Removed(u32),
    Down(PadKey),
    Up(PadKey),
    Sway(PadAxis, i16),
    /// The keyboard, the mouse and the rest.
    Other,
}

/// What the host is to do about it.
#[derive(Debug, PartialEq, Eq)]
pub enum HostStep {
    Stop,
    /// Open the controller.
    Open,
    /// Pass an action on to the interface.
    Send(Action),
    /// Pass the event on to the interface.
    Pass,
    Nothing,
}

/// What the host does about an action, where there is one.
pub open spec fn passed_on(action: Option<Action>) -> HostStep {
    match action {
        Some(action) => HostStep::Send(action),
        None => HostStep::Nothing,
    }
}

/// What an event comes to. While a game has the screen, only controllers that come and go, and
/// the end of it all, are heard.
pub open spec fn heard(
    pre: Pads,
    hidden: bool,
    event: HostEvent,
    now: u64,
    post: Pads,
    step: HostStep,
) -> bool {
    match event {
        HostEvent::Quit => post == pre && step == HostStep::Stop,
        HostEvent::Added => post == pre && step == HostStep::Open,
        HostEvent::Removed(id) => {
            &&& step == HostStep::Nothing
            &&& post == (Pads { open: post.open, ..pre })
            &&& post.open@ == pre.open@.filter(|open: u32| open != id)
        },
        _ if hidden => post == pre && step == HostStep::Nothing,
        HostEvent::Down(key) => {
            let (pads, action) = Pads::pressed(pre, key, now);
            post == pads && step == passed_on(action)
        },
        HostEvent::Up(key) => {
            &&& post == (if dpad_of(key) is Some {
                Pads { dpad: Stick { held: None }, dpad_pos: (0, 0), ..pre }
            } else {
                pre
            })
            &&& step == HostStep::Nothing
        },
        HostEvent::Sway(axis, value) => {
            let (pads, action) = Pads::swayed(pre, axis, value, now);
            post == pads && step == passed_on(action)
        },
        HostEvent::Other => post == pre && step == HostStep::Pass,
    }
}

/// Takes an event in.
pub fn hear(pads: &mut Pads, hidden: bool, event: HostEvent, now: u64) -> (r: HostStep)
    ensures
        heard(*old(pads), hidden, event, now, *final(pads), r),
{
    match event {
        HostEvent::Quit => HostStep::Stop,
        HostEvent::Added => HostStep::Open,
        HostEvent::Removed(id) => {
            pads.close(id);
            HostStep::Nothing
        },
        _ => {
            if hidden {
                return HostStep::Nothing;
            }
            let action = match event {
                HostEvent::Down(key) => pads.press(key, now),
                HostEvent::Sway(axis, value) => pads.axis(axis, value, now),
                HostEvent::Up(key) => {
                    pads.release(key, now);
                    None
                },
                _ => {
                    return HostStep::Pass;
                },
            };
            match action {
                Some(action) => HostStep::Send(action),
                None => HostStep::Nothing,
            }
        },
    }
}

/// While a game has the screen, nothing that the controller does reaches the interface, nor
/// moves what is held.
pub proof fn games_keep_the_controller(
    pre: Pads,
    event: HostEvent,
    now: u64,
    post: Pads,
    step: HostStep,
)
    requires
        heard(pre, true, event, now, post, step),
    ensures
        !(step is Send),
        !(step is Pass),
        post == (Pads { open: post.open, ..pre }),
{
}

/// Who has the screen.
#[derive(Debug, Clone, Copy, PartialEq, Eq, Structural)]
pub struct Screen {
    /// Set while a game has the screen: the interface keeps running but
    /// draws nothing and lets the controller through to the game.
    pub hidden: bool,
    /// Set when the window comes back from behind a game. The game drew to
    /// the same screen memory, and the driver skips what it thinks is unchanged since the
    /// last frame there, so the whole screen is to be wiped first.
    pub scrub: bool,
}

impl Screen {
    /// Takes in that the window hides or comes back, and says whether to draw at once.
    pub fn minimize(&mut self, minimized: bool) -> (r: bool)
        ensures
            r == (old(self).hidden && !minimized),
            *final(self) == (Screen { hidden: minimized, scrub: old(self).scrub || r }),
    {
        let back = self.hidden && !minimized;
        if back {
            self.scrub = true;
        }
        self.hidden = minimized;
        back
    }

    /// Whether the screen is to be wiped before this frame; the next one need not.
    pub fn take_scrub(&mut self) -> (r: bool)
        ensures
            r == old(self).scrub,
            *final(self) == (Screen { scrub: false, ..*old(self) }),
    {
        let scrub = self.scrub;
        self.scrub = false;
        scrub
    }
}

/// When the next frame is due: after the wait that was asked for, but no later than the next
/// repeat, and never too far off.
pub open spec fn due_at(wait: u64, deadline: Option<u128>, now: u64) -> int {
    let wait = match deadline {
        Some(deadline) => {
            let left = if deadline > now {
                deadline - now
            } else {
                0
            };
            if left < wait {
                left
            } else {
                wait as int
            }
        },
        None => wait as int,
    };
    now + (if wait < LONGEST_WAIT {
        wait
    } else {
        LONGEST_WAIT as int
    })
}

pub fn due(wait: u64, deadline: Option<u128>, now: u64) -> (r: u128)
    ensures
        r == due_at(wait, deadline, now),
{
    let mut wait: u128 = wait as u128;
    let start: u128 = now as u128;
    if let Some(deadline) = deadline {
        let left: u128 = if deadline > start {
            deadline - start
        } else {
            0
        };
        if left < wait {
            wait = left;
        }
    }
    start + (if wait < LONGEST_WAIT as u128 {
        wait
    } else {
        LONGEST_WAIT as u128
    })
}

// ---------------------------------------------------------------------------
// Keyboard and mouse
// ---------------------------------------------------------------------------

/// The modifier keys that are down, by side.
#[derive(Debug, Clone, Copy, PartialEq, Eq, Structural)]
pub struct ModKeys {
    pub left_alt: bool,
    pub right_alt: bool,
    pub left_ctrl: bool,
    pub right_ctrl: bool,
    pub left_shift: bool,
    pub right_shift: bool,
}

/// The modifiers as the interface knows them.
#[derive(Debug, Clone, Copy, PartialEq, Eq, Structural)]
pub struct Modifiers {
    pub alt: bool,
    pub ctrl: bool,
    pub shift: bool,
    pub mac_cmd: bool,
    /// The key of shortcuts; Ctrl here.
    pub command: bool,
}

/// Either side counts.
pub open spec fn modifiers_of(keys: ModKeys) -> Modifiers {
    Modifiers {
        alt: keys.left_alt || keys.right_alt,
        ctrl: keys.left_ctrl || keys.right_ctrl,
        shift: keys.left_shift || keys.right_shift,
        mac_cmd: false,
        command: keys.left_ctrl || keys.right_ctrl,
    }
}

pub fn modifiers(keys: ModKeys) -> (r: Modifiers)
    ensures
        r == modifiers_of(keys),
{
    let ctrl = keys.left_ctrl || keys.right_ctrl;
    Modifiers {
        alt: keys.left_alt || keys.right_alt,
        ctrl,
        shift: keys.left_shift || keys.right_shift,
        mac_cmd: false,
        command: ctrl,
    }
}

/// A key by the host's name for it, where the interface has its own: the arrows, and the
/// keypad's Enter. Letters, digits and the others share their names.
pub open spec fn interface_key(name: Seq<char>) -> Seq<char> {
    if name == "Up"@ {
        "ArrowUp"@
    } else if name == "Down"@ {
        "ArrowDown"@
    } else if name == "Left"@ {
        "ArrowLeft"@
    } else if name == "Right"@ {
        "ArrowRight"@
    } else if name == "Return"@ || name == "Keypad Enter"@ {
        "Enter"@
    } else {
        name
    }
}

/// The interface's name for a key.
pub fn key_name(name: &str) -> (r: String)
    ensures
        r@ == interface_key(name@),
{
    if same(name, "Up") {
        "ArrowUp".to_owned()
    } else if same(name, "Down") {
        "ArrowDown".to_owned()
    } else if same(name, "Left") {
        "ArrowLeft".to_owned()
    } else if same(name, "Right") {
        "ArrowRight".to_owned()
    } else if same(name, "Return") || same(name, "Keypad Enter") {
        "Enter".to_owned()
    } else {
        name.to_owned()
    }
}

/// A button of the mouse.
#[derive(Debug, Clone, Copy, PartialEq, Eq, Structural)]
pub enum MouseKey {
    Left,
    Right,
    Middle,
    X1,
    X2,
    Unknown,
}

/// A button of the mouse as the interface knows it.
#[derive(Debug, Clone, Copy, PartialEq, Eq, Structural)]
pub enum PointerKey {
    Primary,
    Secondary,
    Middle,
    Extra1,
    Extra2,
}

pub open spec fn pointer_key(key: MouseKey) -> Option<PointerKey> {
    match key {
        MouseKey::Left => Some(PointerKey::Primary),
        MouseKey::Right => Some(PointerKey::Secondary),
        MouseKey::Middle => Some(PointerKey::Middle),
        MouseKey::X1 => Some(PointerKey::Extra1),
        MouseKey::X2 => Some(PointerKey::Extra2),
        MouseKey::Unknown => None,
    }
}

fn to_pointer_key(key: MouseKey) -> (r: Option<PointerKey>)
    ensures
        r == pointer_key(key),
{
    match key {
        MouseKey::Left => Some(PointerKey::Primary),
        MouseKey::Right => Some(PointerKey::Secondary),
        MouseKey::Middle => Some(PointerKey::Middle),
        MouseKey::X1 => Some(PointerKey::Extra1),
        MouseKey::X2 => Some(PointerKey::Extra2),
        MouseKey::Unknown => None,
    }
}

/// What the keyboard and the mouse did. `K` is a key of the interface, where it knows the one
/// that was used; positions are in window units.
#[derive(Debug, PartialEq, Eq)]
pub enum HostInput<K> {
    Key { key: Option<K>, held: ModKeys, pressed: bool, repeat: bool },
    Text(String),
    Motion { at: (i32, i32) },
    Button { button: MouseKey, at: (i32, i32), pressed: bool },
    /// How far the wheel turned, as the bits of two floating-point numbers.
    Wheel { x: u32, y: u32 },
    /// The pointer left the window.
    Leave,
    Other,
}

/// What the interface is told of it.
#[derive(Debug, PartialEq, Eq)]
pub enum InputEvent<K> {
    Key { key: K, pressed: bool, repeat: bool, modifiers: Modifiers },
    Text(String),
    PointerMoved { at: (i32, i32) },
    PointerButton { at: (i32, i32), button: PointerKey, pressed: bool, modifiers: Modifiers },
    MouseWheel { x: u32, y: u32, modifiers: Modifiers },
    PointerGone,
}

/// Keyboard and mouse state between frames, and what the interface is yet to be told.
#[derive(Debug, PartialEq, Eq)]
pub struct Input<K> {
    pub events: Vec<InputEvent<K>>,
    pub modifiers: Modifiers,
    pub pointer: (i32, i32),
}

/// What the interface is told of an input, with the modifiers that are down from now on.
pub open spec fn told_of<K>(input: HostInput<K>, modifiers: Modifiers) -> Option<InputEvent<K>> {
    match input {
        HostInput::Key { key, held, pressed, repeat } => match key {
            Some(key) => Some(
                InputEvent::Key {
                    key,
                    pressed,
                    repeat: pressed && repeat,
                    modifiers: modifiers_of(held),
                },
            ),
            None => None,
        },
        HostInput::Text(text) => if text@.len() > 0 {
            Some(InputEvent::Text(text))
        } else {
            None
        },
        HostInput::Motion { at } => Some(InputEvent::PointerMoved { at }),
        HostInput::Button { button, at, pressed } => match pointer_key(button) {
            Some(button) => Some(InputEvent::PointerButton { at, button, pressed, modifiers }),
            None => None,
        },
        HostInput::Wheel { x, y } => Some(InputEvent::MouseWheel { x, y, modifiers }),
        HostInput::Leave => Some(InputEvent::PointerGone),
        HostInput::Other => None,
    }
}

/// The modifiers once an input was taken in: a key says which are down, whether the interface
/// knows that key or not.
pub open spec fn modifiers_after<K>(input: HostInput<K>, modifiers: Modifiers) -> Modifiers {
    match input {
        HostInput::Key { held, .. } => modifiers_of(held),
        _ => modifiers,
    }
}

/// Where the pointer is once an input was taken in.
pub open spec fn pointer_after<K>(input: HostInput<K>, pointer: (i32, i32)) -> (i32, i32) {
    match input {
        HostInput::Motion { at } => at,
        HostInput::Button { button, at, .. } => if pointer_key(button) is Some {
            at
        } else {
            pointer
        },
        _ => pointer,
    }
}

impl<K> Input<K> {
    pub fn new() -> (r: Self)
        ensures
            r.events@.len() == 0,
            r.modifiers == (Modifiers {
                alt: false,
                ctrl: false,
                shift: false,
                mac_cmd: false,
                command: false,
            }),
            r.pointer == (0i32, 0i32),
    {
        Input {
            events: Vec::new(),
            modifiers: Modifiers {
                alt: false,
                ctrl: false,
                shift: false,
                mac_cmd: false,
                command: false,
            },
            pointer: (0, 0),
        }
    }

    /// Takes an input in.
    pub fn translate(&mut self, input: HostInput<K>)
        ensures
            final(self).modifiers == modifiers_after(input, old(self).modifiers),
            final(self).pointer == pointer_after(input, old(self).pointer),
            final(self).events@ == (match told_of(input, old(self).modifiers) {
                Some(event) => old(self).events@.push(event),
                None => old(self).events@,
            }),
    {
        match input {
            HostInput::Key { key, held, pressed, repeat } => {
                self.modifiers = modifiers(held);
                if let Some(key) = key {
                    let modifiers = self.modifiers;
                    self.events.push(
                        InputEvent::Key { key, pressed, repeat: pressed && repeat, modifiers },
                    );
                }
            },
            HostInput::Text(text) => {
                if !text.as_str().is_empty() {
                    self.events.push(InputEvent::Text(text));
                }
            },
            HostInput::Motion { at } => {
                self.pointer = at;
                self.events.push(InputEvent::PointerMoved { at });
            },
            HostInput::Button { button, at, pressed } => {
                if let Some(button) = to_pointer_key(button) {
                    self.pointer = at;
                    let modifiers = self.modifiers;
                    self.events.push(InputEvent::PointerButton { at, button, pressed, modifiers });
                }
            },
            HostInput::Wheel { x, y } => {
                let modifiers = self.modifiers;
                self.events.push(InputEvent::MouseWheel { x, y, modifiers });
            },
            HostInput::Leave => {
                self.events.push(InputEvent::PointerGone);
            },
            HostInput::Other => {},
        }
    }
}

/// An input comes to at most one event, and none that was there is lost or changed; the
/// modifiers follow every key, known or not, and nothing else.
pub proof fn inputs_come_to_one_event<K>(input: HostInput<K>, modifiers: Modifiers)
    ensures
        input matches HostInput::Key { key, held, .. } ==> {
            &&& modifiers_after(input, modifiers) == modifiers_of(held)
            &&& (told_of(input, modifiers) is Some) == (key is Some)
        },
        !(input is Key) ==> modifiers_after(input, modifiers) == modifiers,
        input is Other ==> told_of(input, modifiers) is None,
{
}

/// A button moves or does what it shows: the d-pad moves the focus its way, A confirms, B goes
/// back, Y searches, the shoulders switch tabs, and Start and the guide button open the menu.
pub proof fn pad_keys_do_what_they_show(pads: Pads, now: u64)
    requires
        pads.dpad.held is None,
    ensures
        Pads::pressed(pads, PadKey::DPadUp, now).1 == Some(Action::MoveFocus(Direction::Up)),
        Pads::pressed(pads, PadKey::DPadDown, now).1 == Some(Action::MoveFocus(Direction::Down)),
        Pads::pressed(pads, PadKey::DPadLeft, now).1 == Some(Action::MoveFocus(Direction::Left)),
        Pads::pressed(pads, PadKey::DPadRight, now).1 == Some(Action::MoveFocus(Direction::Right)),
        Pads::pressed(pads, PadKey::A, now) == (pads, Some(Action::Activate)),
        Pads::pressed(pads, PadKey::B, now) == (pads, Some(Action::Back)),
        Pads::pressed(pads, PadKey::Y, now) == (pads, Some(Action::FocusSearch)),
        Pads::pressed(pads, PadKey::LeftShoulder, now) == (pads, Some(Action::CycleTab(-1i32))),
        Pads::pressed(pads, PadKey::RightShoulder, now) == (pads, Some(Action::CycleTab(1i32))),
        Pads::pressed(pads, PadKey::Start, now) == (pads, Some(Action::Menu)),
        Pads::pressed(pads, PadKey::Guide, now) == (pads, Some(Action::Menu)),
        Pads::pressed(pads, PadKey::Other, now) == (pads, None::<Action>),
{
}

/// The stick, pushed half way or further along one axis, moves the focus its way; pushed away
/// from the player it moves it up.
pub proof fn the_stick_moves_the_focus(pads: Pads, value: i16, now: u64)
    requires
        pads.stick.held is None,
        pads.stick_pos == (0i32, 0i32),
    ensures
        value >= 16384 ==> Pads::swayed(pads, PadAxis::LeftX, value, now).1 == Some(
            Action::MoveFocus(Direction::Right),
        ),
        value <= -16384 ==> Pads::swayed(pads, PadAxis::LeftX, value, now).1 == Some(
            Action::MoveFocus(Direction::Left),
        ),
        value >= 16384 ==> Pads::swayed(pads, PadAxis::LeftY, value, now).1 == Some(
            Action::MoveFocus(Direction::Down),
        ),
        value <= -16384 ==> Pads::swayed(pads, PadAxis::LeftY, value, now).1 == Some(
            Action::MoveFocus(Direction::Up),
        ),
        -16383 <= value <= 16383 ==> Pads::swayed(pads, PadAxis::LeftX, value, now).1 is None
            && Pads::swayed(pads, PadAxis::LeftY, value, now).1 is None,
        Pads::swayed(pads, PadAxis::Other, value, now) == (pads, None::<Action>),
{
}

/// What is held repeats, the stick and the d-pad each by itself, and nothing else does.
pub proof fn only_what_is_held_repeats(pre: Pads, now: u64, post: Pads, moves: Seq<Direction>)
    requires
        Pads::repeated(pre, now, post, moves),
    ensures
        pre.stick.held is None && pre.dpad.held is None ==> moves.len() == 0 && post == pre,
        pre.stick.held is None && pre.dpad_pos == (0i32, STICK_FULL) && (
        pre.dpad.held matches Some(held) && held.direction == Direction::Up && now >= held.next)
            ==> moves == seq![Direction::Up],
        pre.stick.held is None && (pre.dpad.held matches Some(held) && held.direction
            == Direction::Up && now < held.next) && pre.dpad_pos == (0i32, STICK_FULL)
            ==> moves.len() == 0,
        moves.len() <= 2,
        post.open == pre.open,
{
}

/// The host wakes when it was told to, or when a held direction repeats where that is sooner;
/// never later than an hour from now.
pub proof fn the_host_wakes_in_time(wait: u64, deadline: Option<u128>, now: u64)
    ensures
        now <= due_at(wait, deadline, now) <= now + wait,
        due_at(wait, deadline, now) <= now + 3_600_000_000_000,
        deadline is None && wait <= 3_600_000_000_000 ==> due_at(wait, deadline, now) == now + wait,
        deadline matches Some(at) ==> {
            &&& at <= now ==> due_at(wait, deadline, now) == now
            &&& now < at <= now + wait && at <= now + 3_600_000_000_000 ==> due_at(
                wait,
                deadline,
                now,
            ) == at
            &&& at > now + wait && wait <= 3_600_000_000_000 ==> due_at(wait, deadline, now) == now
                + wait
        },
{
}

/// A modifier is held where either of its keys is; Control is the one that commands.
pub proof fn modifiers_are_held_by_either_key(keys: ModKeys)
    ensures
        modifiers_of(keys).alt <==> keys.left_alt || keys.right_alt,
        modifiers_of(keys).ctrl <==> keys.left_ctrl || keys.right_ctrl,
        modifiers_of(keys).shift <==> keys.left_shift || keys.right_shift,
        modifiers_of(keys).command == modifiers_of(keys).ctrl,
        !modifiers_of(keys).mac_cmd,
{
}

/// What the keyboard and the mouse do reaches the interface as it was: which key, whether it
/// went down, and where the pointer is.
pub proof fn inputs_are_passed_on_as_they_were<K>(input: HostInput<K>, modifiers: Modifiers, pointer: (i32, i32))
    ensures
        input matches HostInput::Key { key: Some(key), held, pressed, repeat } ==> told_of(
            input,
            modifiers,
        ) == Some(
            InputEvent::Key {
                key,
                pressed,
                repeat: pressed && repeat,
                modifiers: modifiers_of(held),
            },
        ),
        input matches HostInput::Motion { at } ==> told_of(input, modifiers) == Some(
            InputEvent::<K>::PointerMoved { at },
        ) && pointer_after(input, pointer) == at,
        input matches HostInput::Button { button: MouseKey::Left, at, pressed } ==> told_of(
            input,
            modifiers,
        ) == Some(
            InputEvent::<K>::PointerButton {
                at,
                button: PointerKey::Primary,
                pressed,
                modifiers,
            },
        ) && pointer_after(input, pointer) == at,
        input matches HostInput::Button { button: MouseKey::Right, at, pressed } ==> told_of(
            input,
            modifiers,
        ) == Some(
            InputEvent::<K>::PointerButton {
                at,
                button: PointerKey::Secondary,
                pressed,
                modifiers,
            },
        ),
        input matches HostInput::Button { button: MouseKey::Unknown, .. } ==> told_of(
            input,
            modifiers,
        ) is None && pointer_after(input, pointer) == pointer,
        input matches HostInput::Wheel { x, y } ==> told_of(input, modifiers) == Some(
            InputEvent::<K>::MouseWheel { x, y, modifiers },
        ),
        input matches HostInput::Text(text) ==> (told_of(input, modifiers) is Some <==> text@.len()
            > 0),
        input is Leave ==> told_of(input, modifiers) == Some(InputEvent::<K>::PointerGone),
        !(input is Motion) && !(input is Button) ==> pointer_after(input, pointer) == pointer,
{
}

/// Outside of games the host stops when it is told to, opens what announces itself, lets go of a
/// direction when its key comes up, and passes on what is none of its own.
pub proof fn the_host_does_as_it_is_told(
    pre: Pads,
    event: HostEvent,
    now: u64,
    post: Pads,
    step: HostStep,
)
    requires
        heard(pre, false, event, now, post, step),
    ensures
        event is Quit <==> step == HostStep::Stop,
        event is Added <==> step == HostStep::Open,
        event matches HostEvent::Removed(id) ==> !post.open@.contains(id),
        event == HostEvent::Up(PadKey::DPadUp) || event == HostEvent::Up(PadKey::DPadLeft)
            ==> post.dpad.held is None && step == HostStep::Nothing,
        event == HostEvent::Down(PadKey::A) ==> step == HostStep::Send(Action::Activate),
        event == HostEvent::Down(PadKey::B) ==> step == HostStep::Send(Action::Back),
        event is Other ==> step == HostStep::Pass,
{
    if let HostEvent::Removed(id) = event {
        let keep = |open: u32| open != id;
        crate::lists::filtering_keeps_what_passes(pre.open@, keep);
        assert(post.open@ == pre.open@.filter(keep));
        if post.open@.contains(id) {
            assert(keep(id));
        }
    }
}

/// A stick's position is scaled evenly: its ends to the ends of the range, its middle to the
/// middle, and both sides alike.
pub proof fn positions_are_scaled_evenly(value: int)
    requires
        0 <= value,
    ensures
        unit_of(0) == 0,
        unit_of(32767) == STICK_FULL,
        unit_of(-value) == -unit_of(value),
        unit_of(value) * 32767 <= value * STICK_FULL < (unit_of(value) + 1) * 32767,
{
    let top = value * STICK_FULL;
    assert(top >= 0) by (nonlinear_arith)
        requires
            value >= 0,
            top == value * STICK_FULL,
    ;
}

/// The keys that the interface names otherwise are named as it does; every other keeps its name.
pub proof fn keys_go_by_the_names_of_the_interface(name: Seq<char>)
    ensures
        name == "Up"@ ==> interface_key(name) == "ArrowUp"@,
        name != "Up"@ && name == "Down"@ ==> interface_key(name) == "ArrowDown"@,
        name != "Up"@ && name != "Down"@ && name == "Left"@ ==> interface_key(name) == "ArrowLeft"@,
        name != "Up"@ && name != "Down"@ && name != "Left"@ && name == "Right"@ ==> interface_key(
            name,
        ) == "ArrowRight"@,
        name != "Up"@ && name != "Down"@ && name != "Left"@ && name != "Right"@ && (name
            == "Return"@ || name == "Keypad Enter"@) ==> interface_key(name) == "Enter"@,
        name != "Up"@ && name != "Down"@ && name != "Left"@ && name != "Right"@ && name
            != "Return"@ && name != "Keypad Enter"@ ==> interface_key(name) == name,
{
}

} // verus!
