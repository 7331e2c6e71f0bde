//! Controller input, turned into the same actions the keyboard produces.
//!
//! Whoever reads the controllers hands what they did to a [`PadSender`] and passes the
//! events on; the interface takes them in once per frame with [`Gamepad::poll`]. Times are in
//! nanoseconds since some start.
use vstd::prelude::*;
use crate::model::{Action, Direction};

verus! {

/// The full travel of a stick. Positions run from minus this to this.
pub const STICK_FULL: i32 = 0x100_0000;

/// Half way out: where the dead zone ends.
pub const STICK_THRESHOLD: i32 = 0x80_0000;

pub const STICK_FIRST_REPEAT: u64 = 350_000_000;

pub const STICK_REPEAT: u64 = 120_000_000;

/// A controller button by position, whichever library read it.
#[derive(Debug, Clone, Copy, PartialEq, Eq, Structural)]
pub enum PadButton {
    /// A on Xbox, Cross on PlayStation.
    South,
    /// B / Circle.
    East,
    /// Y / Triangle.
    North,
    LeftBumper,
    RightBumper,
    LeftTrigger,
    RightTrigger,
    Guide,
    Start,
}

/// What a button does.
pub open spec fn meaning(button: PadButton) -> Option<Action> {
    match button {
        PadButton::South => Some(Action::Activate),
        PadButton::East => Some(Action::Back),
        PadButton::North => Some(Action::FocusSearch),
        PadButton::LeftBumper => Some(Action::CycleTab(-1i32)),
        PadButton::RightBumper => Some(Action::CycleTab(1)),
        PadButton::LeftTrigger | PadButton::RightTrigger => None,
        PadButton::Guide | PadButton::Start => Some(Action::Menu),
    }
}

pub fn button_action(button: PadButton) -> (r: Option<Action>)
    ensures
        r == meaning(button),
{
    match button {
        PadButton::South => Some(Action::Activate),
        PadButton::East => Some(Action::Back),
        PadButton::North => Some(Action::FocusSearch),
        PadButton::LeftBumper => Some(Action::CycleTab(-1)),
        PadButton::RightBumper => Some(Action::CycleTab(1)),
        PadButton::LeftTrigger | PadButton::RightTrigger => None,
        PadButton::Guide | PadButton::Start => Some(Action::Menu),
    }
}

/// What a controller reader tells the interface.
#[derive(Debug, PartialEq, Eq)]
pub enum PadEvent {
    /// A controller is present, at startup or plugged in since.
    Connected,
    Action(Action),
}

/// The reader's end: presses and connections, oldest first, until they are passed on.
#[derive(Debug)]
pub struct PadSender {
    pub sent: Vec<PadEvent>,
}

impl PadSender {
    pub fn send(&mut self, action: Action)
        ensures
            final(self).sent@ == old(self).sent@.push(PadEvent::Action(action)),
    {
        self.sent.push(PadEvent::Action(action));
    }

    pub fn connected(&mut self)
        ensures
            final(self).sent@ == old(self).sent@.push(PadEvent::Connected),
    {
        self.sent.push(PadEvent::Connected);
    }
}

/// What a frame's poll found.
#[derive(Debug, Clone, Copy, PartialEq, Eq, Structural)]
pub struct Poll {
    /// A press or stick move landed in the actions.
    pub pressed: bool,
    /// A controller announced itself; a hint to show its glyphs before
    /// anything is pressed.
    pub connected: bool,
}

/// The interface's end: what arrived since the last frame.
#[derive(Debug)]
pub struct Gamepad {
    pub arrived: Vec<PadEvent>,
}

/// The actions that get through, in order. Only the Guide button reaches an unfocused window:
/// it is the way back from a running game.
pub open spec fn pressed_actions(events: Seq<PadEvent>, focused: bool) -> Seq<Action>
    decreases events.len(),
{
    if events.len() == 0 {
        Seq::empty()
    } else {
        let before = pressed_actions(events.drop_last(), focused);
        match events.last() {
            PadEvent::Action(action) if focused || action is Menu => before.push(action),
            _ => before,
        }
    }
}

impl Gamepad {
    /// A gamepad fed by the host: whatever its sender is given arrives at the next
    /// [`Self::poll`] once it has been passed on.
    pub fn external() -> (r: (Self, PadSender))
        ensures
            r.0.arrived@.len() == 0,
            r.1.sent@.len() == 0,
    {
        (Gamepad { arrived: Vec::new() }, PadSender { sent: Vec::new() })
    }

    /// Takes what the sender was given since the last time.
    pub fn receive(&mut self, sender: &mut PadSender)
        ensures
            final(self).arrived@ == old(self).arrived@ + old(sender).sent@,
            final(sender).sent@.len() == 0,
    {
        self.arrived.append(&mut sender.sent);
    }

    /// Moves the controller's actions since the last frame into `actions`
    /// and reports what arrived, so the interface can show controller
    /// glyphs. An unfocused window drops presses: the controller is driving
    /// whatever is in front, and nothing should fire on coming back.
    pub fn poll(&mut self, focused: bool, actions: &mut Vec<Action>) -> (r: Poll)
        ensures
            final(actions)@ == old(actions)@ + pressed_actions(old(self).arrived@, focused),
            final(self).arrived@.len() == 0,
            r.pressed <==> pressed_actions(old(self).arrived@, focused).len() > 0,
            r.connected <==> exists|i: int|
                0 <= i < old(self).arrived@.len() && (#[trigger] old(self).arrived@[i]) is Connected,
    {
        let ghost all = self.arrived@;
        let ghost had = actions@;
        let mut poll = Poll { pressed: false, connected: false };
        let mut i: usize = 0;
        assert(had + pressed_actions(all.take(0), focused) =~= had);
        while i < self.arrived.len()
            invariant
                i <= all.len(),
                self.arrived@ == all,
                actions@ == had + pressed_actions(all.take(i as int), focused),
                poll.pressed <==> pressed_actions(all.take(i as int), focused).len() > 0,
                poll.connected <==> exists|k: int| 0 <= k < i && (#[trigger] all[k]) is Connected,
            decreases all.len() - i,
        {
            assert(all.take(i + 1).drop_last() =~= all.take(i as int));
            match &self.arrived[i] {
                PadEvent::Connected => {
                    poll.connected = true;
                    assert(all[i as int] is Connected);
                },
                PadEvent::Action(action) => {
                    let menu = match action {
                        Action::Menu => true,
                        _ => false,
                    };
                    if focused || menu {
                        actions.push(action.clone());
                        poll.pressed = true;
                    }
                },
            }
            i += 1;
            assert(actions@ =~= had + pressed_actions(all.take(i as int), focused));
        }
        assert(all.take(i as int) =~= all);
        self.arrived = Vec::new();
        poll
    }
}

/// An unfocused window lets nothing through but the menu button, and a focused one lets
/// every press through.
pub proof fn unfocused_windows_hear_only_the_menu(events: Seq<PadEvent>)
    ensures
        forall|i: int|
            0 <= i < pressed_actions(events, false).len() ==> #[trigger] pressed_actions(
                events,
                false,
            )[i] is Menu,
        pressed_actions(events, false).len() <= pressed_actions(events, true).len(),
    decreases events.len(),
{
    if events.len() > 0 {
        unfocused_windows_hear_only_the_menu(events.drop_last());
        let before = pressed_actions(events.drop_last(), false);
        let all = pressed_actions(events, false);
        assert forall|i: int| 0 <= i < all.len() implies #[trigger] all[i] is Menu by {
            if i < before.len() {
                assert(all[i] == before[i]);
            }
        }
    }
}

/// A direction held past the dead zone, and when it repeats.
#[derive(Debug, Clone, Copy, PartialEq, Eq, Structural)]
pub struct Held {
    pub direction: Direction,
    /// May lie beyond the last time that a clock shows.
    pub next: u128,
}

/// A stick (or d-pad) pushed past the dead zone, repeating like a held key.
#[derive(Debug, Clone, Copy, PartialEq, Eq, Structural)]
pub struct Stick {
    pub held: Option<Held>,
}

pub open spec fn size_of(n: int) -> int {
    if n < 0 {
        -n
    } else {
        n
    }
}

/// Outside the dead zone.
pub open spec fn deflected(x: int, y: int) -> bool {
    size_of(x) >= STICK_THRESHOLD || size_of(y) >= STICK_THRESHOLD
}

/// The dominant axis once the stick leaves the dead zone. Up is positive y.
pub open spec fn pushed(x: int, y: int) -> Option<Direction> {
    if !deflected(x, y) {
        None
    } else if size_of(x) > size_of(y) {
        Some(
            if x > 0 {
                Direction::Right
            } else {
                Direction::Left
            },
        )
    } else {
        Some(
            if y > 0 {
                Direction::Up
            } else {
                Direction::Down
            },
        )
    }
}

/// The dominant axis once the stick leaves the dead zone. Up is positive y.
pub fn stick_direction(x: i32, y: i32) -> (r: Option<Direction>)
    ensures
        r == pushed(x as int, y as int),
{
    let wide: i64 = if x < 0 {
        -(x as i64)
    } else {
        x as i64
    };
    let high: i64 = if y < 0 {
        -(y as i64)
    } else {
        y as i64
    };
    if wide < STICK_THRESHOLD as i64 && high < STICK_THRESHOLD as i64 {
        None
    } else if wide > high {
        if x > 0 {
            Some(Direction::Right)
        } else {
            Some(Direction::Left)
        }
    } else if y > 0 {
        Some(Direction::Up)
    } else {
        Some(Direction::Down)
    }
}

/// The stick of the first controller that has one deflected; at rest if none has.
pub fn first_deflected(sticks: &Vec<(i32, i32)>) -> (r: (i32, i32))
    ensures
        (exists|i: int|
            0 <= i < sticks@.len() && r == #[trigger] sticks@[i] && deflected(
                r.0 as int,
                r.1 as int,
            ) && forall|j: int|
                0 <= j < i ==> !deflected(
                    (#[trigger] sticks@[j]).0 as int,
                    sticks@[j].1 as int,
                )) || (r == (0i32, 0i32) && forall|j: int|
            0 <= j < sticks@.len() ==> !deflected(
                (#[trigger] sticks@[j]).0 as int,
                sticks@[j].1 as int,
            )),
{
    let mut i: usize = 0;
    while i < sticks.len()
        invariant
            i <= sticks@.len(),
            forall|j: int|
                0 <= j < i ==> !deflected((#[trigger] sticks@[j]).0 as int, sticks@[j].1 as int),
        decreases sticks@.len() - i,
    {
        let (x, y) = sticks[i];
        if stick_direction(x, y).is_some() {
            assert(sticks@[i as int] == (x, y));
            return (x, y);
        }
        i += 1;
    }
    (0, 0)
}

impl Stick {
    /// A stick at rest.
    pub fn new() -> (r: Self)
        ensures
            r.held is None,
    {
        Stick { held: None }
    }

    /// What a position calls for: the stick as it is then held, and the focus move.
    pub open spec fn moved(self, direction: Option<Direction>, now: u64) -> (
        Stick,
        Option<Direction>,
    ) {
        match (direction, self.held) {
            (None, _) => (Stick { held: None }, None),
            (Some(direction), Some(held)) if held.direction == direction => if now >= held.next {
                (
                    Stick { held: Some(Held { direction, next: (now + STICK_REPEAT) as u128 }) },
                    Some(direction),
                )
            } else {
                (self, None)
            },
            (Some(direction), _) => (
                Stick { held: Some(Held { direction, next: (now + STICK_FIRST_REPEAT) as u128 }) },
                Some(direction),
            ),
        }
    }

    /// When the next repeat is due, while the stick is held.
    pub open spec fn due(self) -> Option<u128> {
        match self.held {
            Some(held) => Some(held.next),
            None => None,
        }
    }

    /// The focus move the position `(x, y)` calls for right now, if any.
    /// Up is positive y. Call it after every input and again when
    /// [`Self::deadline`] passes.
    pub fn update(&mut self, x: i32, y: i32, now: u64) -> (r: Option<Direction>)
        ensures
            (*final(self), r) == old(self).moved(pushed(x as int, y as int), now),
    {
        match stick_direction(x, y) {
            None => {
                self.held = None;
                None
            },
            Some(direction) => {
                if let Some(held) = self.held {
                    if held.direction == direction {
                        if now as u128 >= held.next {
                            self.held = Some(
                                Held { direction, next: now as u128 + STICK_REPEAT as u128 },
                            );
                            return Some(direction);
                        }
                        return None;
                    }
                }
                self.held = Some(
                    Held { direction, next: now as u128 + STICK_FIRST_REPEAT as u128 },
                );
                Some(direction)
            },
        }
    }

    /// When the next repeat is due, while the stick is held.
    pub fn deadline(&self) -> (r: Option<u128>)
        ensures
            r == self.due(),
    {
        match self.held {
            Some(held) => Some(held.next),
            None => None,
        }
    }
}

/// A held stick moves the focus once, and not again before its deadline; at the deadline it
/// does. Letting go ends it.
pub proof fn held_stick_repeats_at_its_deadline(
    stick: Stick,
    direction: Direction,
    start: u64,
    now: u64,
)
    requires
        stick.held is None,
    ensures
        stick.moved(Some(direction), start).1 == Some(direction),
        now < start + STICK_FIRST_REPEAT ==> stick.moved(Some(direction), start).0.moved(
            Some(direction),
            now,
        ) == (stick.moved(Some(direction), start).0, None::<Direction>),
        now >= start + STICK_FIRST_REPEAT ==> stick.moved(Some(direction), start).0.moved(
            Some(direction),
            now,
        ).1 == Some(direction),
        stick.moved(Some(direction), start).0.moved(None, now).0.held is None,
{
}

/// After a position was taken in, there is a deadline exactly while the stick is outside the
/// dead zone. A move sets it: by the first pause where the direction is new, by the shorter one
/// where it was held. A position that moves nothing though the stick is out leaves the deadline
/// as it was, and comes before it.
pub proof fn deadlines_follow_the_stick(stick: Stick, x: int, y: int, now: u64)
    ensures
        ({
            let (after, r) = stick.moved(pushed(x, y), now);
            &&& (after.due() is Some) == deflected(x, y)
            &&& match r {
                Some(direction) => {
                    let again = stick.held is Some && stick.held->0.direction == direction;
                    after.due() is Some && after.due()->0 == now + (if again {
                        STICK_REPEAT
                    } else {
                        STICK_FIRST_REPEAT
                    })
                },
                None => deflected(x, y) ==> after == stick && after.due() is Some && now
                    < after.due()->0,
            }
        }),
{
}

/// The buttons do what their places promise: the lower one confirms, the right one goes back,
/// the upper one searches, the bumpers switch tabs and the middle ones open the menu.
pub proof fn buttons_mean_what_their_places_promise()
    ensures
        meaning(PadButton::South) == Some(Action::Activate),
        meaning(PadButton::East) == Some(Action::Back),
        meaning(PadButton::North) == Some(Action::FocusSearch),
        meaning(PadButton::LeftBumper) == Some(Action::CycleTab(-1i32)),
        meaning(PadButton::RightBumper) == Some(Action::CycleTab(1i32)),
        meaning(PadButton::Start) == Some(Action::Menu),
        meaning(PadButton::Guide) == Some(Action::Menu),
        meaning(PadButton::LeftTrigger) is None && meaning(PadButton::RightTrigger) is None,
{
}

/// A stick that is pushed at least half way moves the way it is pushed most; held nearer to its
/// middle it moves nothing.
pub proof fn sticks_move_the_way_they_are_pushed(x: int, y: int)
    ensures
        x >= 0x80_0000 && x > y && x > -y ==> pushed(x, y) == Some(Direction::Right),
        x <= -0x80_0000 && -x > y && -x > -y ==> pushed(x, y) == Some(Direction::Left),
        y >= 0x80_0000 && y >= x && y >= -x ==> pushed(x, y) == Some(Direction::Up),
        y <= -0x80_0000 && -y >= x && -y >= -x ==> pushed(x, y) == Some(Direction::Down),
        -0x80_0000 < x < 0x80_0000 && -0x80_0000 < y < 0x80_0000 ==> pushed(x, y) is None,
        pushed(-x, y) == (match pushed(x, y) {
            Some(Direction::Left) => Some(Direction::Right),
            Some(Direction::Right) => Some(Direction::Left),
            other => other,
        }),
{
}

/// A stick that is held repeats after a third of a second and then eight times a second, and one
/// that changes its way moves at once.
pub proof fn held_sticks_repeat(stick: Stick, direction: Direction, other: Direction, now: u64)
    ensures
        stick.held is None ==> {
            &&& stick.moved(Some(direction), now).1 == Some(direction)
            &&& stick.moved(Some(direction), now).0.due() == Some((now + 350_000_000) as u128)
        },
        (stick.held matches Some(held) && held.direction == direction && now >= held.next) ==> {
            &&& stick.moved(Some(direction), now).1 == Some(direction)
            &&& stick.moved(Some(direction), now).0.due() == Some((now + 120_000_000) as u128)
        },
        (stick.held matches Some(held) && held.direction == direction && now < held.next)
            ==> stick.moved(Some(direction), now) == (stick, None::<Direction>),
        (stick.held matches Some(held) && held.direction == other && other != direction) ==> {
            &&& stick.moved(Some(direction), now).1 == Some(direction)
            &&& stick.moved(Some(direction), now).0.due() == Some((now + 350_000_000) as u128)
        },
        stick.moved(None, now).0.held is None && stick.moved(None, now).1 is None,
        stick.moved(None, now).0.due() is None,
{
}

/// While the window has the focus every press is heard, in the order in which they came; out of
/// focus the menu's still is.
pub proof fn presses_are_heard_in_order(events: Seq<PadEvent>, action: Action)
    ensures
        pressed_actions(events, true).contains(action) <==> events.contains(PadEvent::Action(action)),
        pressed_actions(events, false).contains(Action::Menu) <==> events.contains(
            PadEvent::Action(Action::Menu),
        ),
        pressed_actions(events.push(PadEvent::Action(action)), true) == pressed_actions(
            events,
            true,
        ).push(action),
        pressed_actions(events.push(PadEvent::Connected), true) == pressed_actions(events, true),
{
    lemma_heard(events, true, action);
    lemma_heard(events, false, Action::Menu);
    assert(events.push(PadEvent::Action(action)).drop_last() =~= events);
    assert(events.push(PadEvent::Connected).drop_last() =~= events);
}

proof fn lemma_heard(events: Seq<PadEvent>, focused: bool, action: Action)
    requires
        focused || action is Menu,
    ensures
        pressed_actions(events, focused).contains(action) <==> events.contains(
            PadEvent::Action(action),
        ),
    decreases events.len(),
{
    if events.len() > 0 {
        let rest = events.drop_last();
        lemma_heard(rest, focused, action);
        let before = pressed_actions(rest, focused);
        let all = pressed_actions(events, focused);
        let press = PadEvent::Action(action);
        if all.contains(action) {
            let k = choose|k: int| 0 <= k < all.len() && all[k] == action;
            if k < before.len() {
                assert(before[k] == action);
                let i = choose|i: int| 0 <= i < rest.len() && rest[i] == press;
                assert(events[i] == press);
            } else {
                assert(events[events.len() - 1] == press);
            }
        }
        if events.contains(press) {
            let i = choose|i: int| 0 <= i < events.len() && events[i] == press;
            if i < rest.len() {
                assert(rest[i] == press);
                let k = choose|k: int| 0 <= k < before.len() && before[k] == action;
                assert(all[k] == action);
            } else {
                assert(all[all.len() - 1] == action);
            }
        }
    }
}

} // verus!
