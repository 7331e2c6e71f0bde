//! Moving the focus: the toolbar, the download rows, sticks and pads.
use zitch::app::downloads::step_download_row;
use zitch::app::toolbar::{step_toolbar_focus, Landing};
use zitch::gamepad::{button_action, first_deflected, stick_direction, Gamepad, PadButton, Stick};
use zitch::gamepad::{Poll, STICK_FIRST_REPEAT, STICK_FULL, STICK_REPEAT};
use zitch::host::{due, hear, tapped, HostEvent, HostStep, PadAxis, PadKey, Pads, Screen};
use zitch::host::{key_name, HostInput, Input, InputEvent, ModKeys, Modifiers, MouseKey};
use zitch::host::{PointerKey, LONGEST_WAIT};
use zitch::model::{Action, Direction};
use zitch::touch::{keeps_playing, pointer_takes_focus, Axis, Scroll, Swipe};
use zitch::ui::{DownloadRow, DownloadSection};

fn row() -> DownloadRow<'static> {
    DownloadRow {
        game: None,
        title: String::new(),
        detail: String::new(),
        progress: None,
        failed: false,
        section: DownloadSection::Queue,
        direct_update: false,
        buttons: vec![
            ("Retry", Action::CheckUpdates),
            ("Dismiss", Action::CheckUpdates),
        ],
    }
}

#[test]
fn toolbar_sits_above_the_rows() {
    let step = |focus, direction| step_toolbar_focus(focus, direction, 3, false, false);
    assert_eq!(step(Some(0), Direction::Right), Landing::Toolbar(1));
    assert_eq!(step(Some(2), Direction::Right), Landing::Toolbar(2));
    assert_eq!(step(Some(1), Direction::Left), Landing::Toolbar(0));
    assert_eq!(step(Some(2), Direction::Home), Landing::Toolbar(0));
    assert_eq!(step(Some(0), Direction::End), Landing::Toolbar(2));
    assert_eq!(step(Some(1), Direction::Up), Landing::Toolbar(1));
    assert_eq!(step(Some(1), Direction::Down), Landing::FirstRow);
    assert_eq!(step(None, Direction::Up), Landing::Rows);
    assert_eq!(step(None, Direction::Down), Landing::Rows);
    assert_eq!(step(None, Direction::Home), Landing::Rows);
}

#[test]
fn up_off_the_first_row_reaches_the_toolbar() {
    assert_eq!(
        step_toolbar_focus(None, Direction::Up, 1, false, true),
        Landing::Toolbar(0)
    );
    // No toolbar: the list keeps the move.
    assert_eq!(
        step_toolbar_focus(None, Direction::Up, 0, false, true),
        Landing::Rows
    );
}

#[test]
fn toolbar_is_all_there_is_without_rows() {
    let step = |focus, direction| step_toolbar_focus(focus, direction, 2, true, false);
    assert_eq!(step(Some(0), Direction::Down), Landing::Toolbar(0));
    assert_eq!(step(Some(0), Direction::Right), Landing::Toolbar(1));
}

#[test]
fn download_rows_step_both_ways() {
    let rows = vec![row(), row()];
    let step = |focus, direction| step_download_row(focus, direction, &rows);
    assert_eq!(step((0, 0), Direction::Right), (0, 1));
    assert_eq!(step((0, 1), Direction::Right), (0, 1));
    assert_eq!(step((0, 1), Direction::Down), (1, 1));
    assert_eq!(step((1, 1), Direction::Down), (1, 1));
    assert_eq!(step((1, 0), Direction::Up), (0, 0));
    assert_eq!(step((1, 0), Direction::Home), (0, 0));
}

/// A position in parts of a stick's full travel.
fn units(position: f32) -> i32 {
    (position * STICK_FULL as f32) as i32
}

fn direction(x: f32, y: f32) -> Option<Direction> {
    stick_direction(units(x), units(y))
}

#[test]
fn dead_zone_is_quiet() {
    assert_eq!(direction(0.2, -0.3), None);
}

#[test]
fn dominant_axis_wins() {
    assert_eq!(direction(0.9, 0.6), Some(Direction::Right));
    assert_eq!(direction(-0.6, 0.9), Some(Direction::Up));
    assert_eq!(direction(0.1, -0.8), Some(Direction::Down));
}

#[test]
fn held_stick_repeats_after_a_pause() {
    let mut stick = Stick::new();
    assert_eq!(stick.update(units(1.0), units(0.0), 0), Some(Direction::Right));
    assert_eq!(stick.update(units(1.0), units(0.0), 0), None);
    assert!(stick.deadline().is_some());
    assert_eq!(stick.update(units(0.0), units(0.0), 0), None);
    assert!(stick.deadline().is_none());
    assert_eq!(stick.update(units(0.0), units(1.0), 0), Some(Direction::Up));
}

#[test]
fn a_held_stick_repeats_at_its_deadlines() {
    let mut stick = Stick::new();
    let start: u64 = 5_000;
    assert_eq!(stick.update(STICK_FULL, 0, start), Some(Direction::Right));
    let first = start + STICK_FIRST_REPEAT;
    assert_eq!(stick.deadline(), Some(first.into()));
    assert_eq!(stick.update(STICK_FULL, 0, first - 1), None);
    assert_eq!(stick.update(STICK_FULL, 0, first), Some(Direction::Right));
    assert_eq!(stick.deadline(), Some((first + STICK_REPEAT).into()));
    // Another direction starts over; within the dead zone nothing is due.
    assert_eq!(stick.update(0, STICK_FULL, first), Some(Direction::Up));
    assert_eq!(stick.deadline(), Some((first + STICK_FIRST_REPEAT).into()));
    assert_eq!(stick.update(1, 1, first), None);
    assert_eq!(stick.deadline(), None);
    // Even at the end of the clock.
    assert_eq!(stick.update(STICK_FULL, 0, u64::MAX), Some(Direction::Right));
    assert_eq!(
        stick.deadline(),
        Some(u128::from(u64::MAX) + u128::from(STICK_FIRST_REPEAT))
    );
}

#[test]
fn the_first_deflected_stick_counts() {
    let sticks = vec![(units(0.1), 0), (0, units(-0.9)), (units(1.0), 0)];
    assert_eq!(first_deflected(&sticks), (0, units(-0.9)));
    assert_eq!(first_deflected(&vec![(units(0.1), units(0.2))]), (0, 0));
}

#[test]
fn buttons_mean_what_their_place_does() {
    assert_eq!(button_action(PadButton::South), Some(Action::Activate));
    assert_eq!(button_action(PadButton::East), Some(Action::Back));
    assert_eq!(button_action(PadButton::North), Some(Action::FocusSearch));
    assert_eq!(button_action(PadButton::LeftBumper), Some(Action::CycleTab(-1)));
    assert_eq!(button_action(PadButton::RightBumper), Some(Action::CycleTab(1)));
    assert_eq!(button_action(PadButton::LeftTrigger), None);
    assert_eq!(button_action(PadButton::RightTrigger), None);
    assert_eq!(button_action(PadButton::Guide), Some(Action::Menu));
    assert_eq!(button_action(PadButton::Start), Some(Action::Menu));
}

#[test]
fn unfocused_windows_hear_the_menu_button() {
    let (mut gamepad, mut sender) = Gamepad::external();
    sender.send(Action::Activate);
    sender.send(Action::Menu);
    sender.connected();
    gamepad.receive(&mut sender);
    let mut actions = Vec::new();
    let poll = gamepad.poll(false, &mut actions);
    assert_eq!(poll, Poll { pressed: true, connected: true });
    assert_eq!(actions, vec![Action::Menu]);
    // What was dropped does not come back.
    assert_eq!(
        gamepad.poll(true, &mut actions),
        Poll { pressed: false, connected: false }
    );
    sender.send(Action::Activate);
    gamepad.receive(&mut sender);
    gamepad.poll(true, &mut actions);
    assert_eq!(actions, vec![Action::Menu, Action::Activate]);
}

#[test]
fn dpad_buttons_move_and_repeat() {
    let mut pads = Pads::new();
    let press = |pads: &mut Pads, key, now| hear(pads, false, HostEvent::Down(key), now);
    assert_eq!(
        press(&mut pads, PadKey::DPadLeft, 0),
        HostStep::Send(Action::MoveFocus(Direction::Left))
    );
    assert_eq!(pads.deadline(), Some(STICK_FIRST_REPEAT.into()));
    assert_eq!(pads.repeat(STICK_FIRST_REPEAT - 1), vec![]);
    assert_eq!(pads.repeat(STICK_FIRST_REPEAT), vec![Direction::Left]);
    assert_eq!(
        hear(&mut pads, false, HostEvent::Up(PadKey::DPadLeft), 1),
        HostStep::Nothing
    );
    assert_eq!(pads.deadline(), None);
    assert_eq!(pads.repeat(STICK_FIRST_REPEAT * 9), vec![]);
    assert_eq!(press(&mut pads, PadKey::A, 2), HostStep::Send(Action::Activate));
    assert_eq!(press(&mut pads, PadKey::Other, 3), HostStep::Nothing);
}

#[test]
fn taps_mean_one_thing() {
    assert_eq!(tapped(PadKey::DPadUp), Some(Action::MoveFocus(Direction::Up)));
    assert_eq!(tapped(PadKey::B), Some(Action::Back));
    assert_eq!(tapped(PadKey::Guide), Some(Action::Menu));
    assert_eq!(tapped(PadKey::Other), None);
}

#[test]
fn sticks_turn_their_axis_round() {
    let mut pads = Pads::new();
    // The axis grows downward.
    assert_eq!(
        pads.axis(PadAxis::LeftY, i16::MAX, 0),
        Some(Action::MoveFocus(Direction::Down))
    );
    assert_eq!(pads.stick_pos, (0, -STICK_FULL));
    assert_eq!(pads.axis(PadAxis::LeftY, 0, 1), None);
    assert_eq!(pads.axis(PadAxis::LeftX, 16383, 2), None);
    assert_eq!(
        pads.axis(PadAxis::LeftX, 16384, 3),
        Some(Action::MoveFocus(Direction::Right))
    );
    assert_eq!(pads.axis(PadAxis::TriggerLeft, i16::MAX, 4), None);
    assert!(pads.left_trigger);
    assert_eq!(pads.axis(PadAxis::Other, i16::MAX, 5), None);
}

#[test]
fn games_keep_the_controller_to_themselves() {
    let mut pads = Pads::new();
    assert_eq!(
        hear(&mut pads, true, HostEvent::Down(PadKey::A), 0),
        HostStep::Nothing
    );
    assert_eq!(hear(&mut pads, true, HostEvent::Other, 0), HostStep::Nothing);
    assert_eq!(hear(&mut pads, false, HostEvent::Other, 0), HostStep::Pass);
    assert_eq!(hear(&mut pads, true, HostEvent::Added, 0), HostStep::Open);
    assert_eq!(hear(&mut pads, true, HostEvent::Quit, 0), HostStep::Stop);
}

#[test]
fn controllers_are_opened_once() {
    let mut pads = Pads::new();
    assert!(pads.opened(4));
    assert!(!pads.opened(4));
    assert!(pads.opened(7));
    hear(&mut pads, true, HostEvent::Removed(4), 0);
    assert_eq!(pads.open, vec![7]);
    assert!(pads.opened(4));
}

#[test]
fn coming_back_wipes_the_screen() {
    let mut screen = Screen { hidden: false, scrub: false };
    assert!(!screen.minimize(true));
    assert!(screen.hidden);
    assert!(screen.minimize(false));
    assert!(screen.take_scrub());
    assert!(!screen.take_scrub());
    assert!(!screen.minimize(false));
}

#[test]
fn frames_are_due_by_the_next_repeat() {
    assert_eq!(due(500, None, 100), 600);
    assert_eq!(due(500, Some(300), 100), 300);
    assert_eq!(due(500, Some(50), 100), 100);
    assert_eq!(due(500, Some(900), 100), 600);
    assert_eq!(due(u64::MAX, None, 100), 100 + u128::from(LONGEST_WAIT));
}

#[test]
fn swipes_lock_to_an_axis() {
    let mut swipe = Swipe::begin(Some(2));
    assert_eq!(swipe.drag(false, true), Scroll::Nothing);
    assert_eq!(swipe.drag(true, true), Scroll::Row(2));
    assert_eq!(swipe.drag(true, false), Scroll::Row(2));
    assert_eq!(swipe.axis, Some(Axis::Across));
    let mut down = Swipe::begin(None);
    assert_eq!(down.drag(true, false), Scroll::List);
    let mut nowhere = Swipe::begin(None);
    assert_eq!(nowhere.drag(true, true), Scroll::Nothing);
    assert!(pointer_takes_focus(true, false, false));
    assert!(!pointer_takes_focus(true, true, false));
    assert!(!pointer_takes_focus(true, false, true));
    assert!(!pointer_takes_focus(false, false, false));
}

#[test]
fn playback_follows_focus() {
    let a = Some("a.gif".to_string());
    let b = Some("b.gif".to_string());
    assert!(keeps_playing(&a, &a.clone()));
    assert!(!keeps_playing(&a, &b));
    assert!(!keeps_playing(&a, &None));
    assert!(keeps_playing(&None, &None));
}

fn held(left_ctrl: bool, right_shift: bool) -> ModKeys {
    ModKeys {
        left_alt: false,
        right_alt: false,
        left_ctrl,
        right_ctrl: false,
        left_shift: false,
        right_shift,
    }
}

fn modifiers(ctrl: bool, shift: bool) -> Modifiers {
    Modifiers { alt: false, ctrl, shift, mac_cmd: false, command: ctrl }
}

#[test]
fn keys_and_clicks_reach_the_interface() {
    let mut input: Input<char> = Input::new();
    input.translate(HostInput::Key {
        key: Some('a'),
        held: held(true, false),
        pressed: true,
        repeat: true,
    });
    input.translate(HostInput::Key {
        key: Some('a'),
        held: held(true, false),
        pressed: false,
        repeat: true,
    });
    // A key that the interface does not know still says which modifiers are down.
    input.translate(HostInput::Key {
        key: None,
        held: held(false, true),
        pressed: true,
        repeat: false,
    });
    input.translate(HostInput::Text(String::new()));
    input.translate(HostInput::Text("ä".into()));
    input.translate(HostInput::Motion { at: (3, 4) });
    input.translate(HostInput::Button { button: MouseKey::Unknown, at: (9, 9), pressed: true });
    assert_eq!(input.pointer, (3, 4));
    input.translate(HostInput::Button { button: MouseKey::Right, at: (5, 6), pressed: true });
    assert_eq!(input.pointer, (5, 6));
    input.translate(HostInput::Wheel { x: 1, y: 2 });
    input.translate(HostInput::Leave);
    input.translate(HostInput::Other);
    let shift = modifiers(false, true);
    assert_eq!(
        input.events,
        vec![
            InputEvent::Key {
                key: 'a',
                pressed: true,
                repeat: true,
                modifiers: modifiers(true, false)
            },
            InputEvent::Key {
                key: 'a',
                pressed: false,
                repeat: false,
                modifiers: modifiers(true, false)
            },
            InputEvent::Text("ä".into()),
            InputEvent::PointerMoved { at: (3, 4) },
            InputEvent::PointerButton {
                at: (5, 6),
                button: PointerKey::Secondary,
                pressed: true,
                modifiers: shift
            },
            InputEvent::MouseWheel { x: 1, y: 2, modifiers: shift },
            InputEvent::PointerGone,
        ]
    );
}

#[test]
fn keys_have_the_names_of_the_interface() {
    assert_eq!(key_name("Up"), "ArrowUp");
    assert_eq!(key_name("Keypad Enter"), "Enter");
    assert_eq!(key_name("Return"), "Enter");
    assert_eq!(key_name("PageDown"), "PageDown");
    assert_eq!(key_name("Q"), "Q");
}
