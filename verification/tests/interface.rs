//! The interface as a whole: what events and presses make of it.
use zitch::app::frame::{keys, Key, PageContent};
use zitch::app::script::{parse_script, parse_step, Shot, ShotFrame, Step};
use zitch::app::state::{App, WindowRequest};
use zitch::backend::{Command, Event};
use zitch::gamepad::Poll;
use zitch::glyphs::{glyph_file, Glyph, InputMode};
use zitch::model::{
    playable_here, Action, Cave, CaveStats, Collection, CollectionGames, Direction, Download,
    DownloadProgress, DownloadReason, Filter, Game, GameClassification, GameUpdate,
    GameUpdateChoice, Host, InstallState, Kind, LaunchFailure, Page, Platforms, Profile, Prompt,
    Tab, Upload, UploadType, User,
};
use zitch::ui::{game_buttons, game_lines, install_line, tile_mark, TileMark, Tone};
use zitch::ui::ToolbarControl;

const SECOND: u64 = 1_000_000_000;

fn platforms(windows: bool, linux: bool) -> Platforms {
    Platforms { windows, linux, osx: false }
}

fn game(id: i64, title: &str) -> Game {
    Game {
        id,
        title: title.into(),
        short_text: None,
        classification: GameClassification::Game,
        platforms: platforms(false, true),
        cover_url: None,
        still_cover_url: None,
    }
}

fn upload(name: &str) -> Upload {
    Upload {
        id: 1,
        filename: name.into(),
        display_name: String::new(),
        size: 1,
        demo: false,
        kind: UploadType::Default,
        platforms: platforms(false, true),
    }
}

fn cave(id: &str, game: Game) -> Cave {
    Cave {
        id: id.into(),
        game: Some(game),
        upload: Some(upload("one.zip")),
        stats: Some(CaveStats {
            installed_at: Some("2024-01-01".into()),
            last_touched_at: None,
            seconds_run: 120,
        }),
        installed_size: Some(1500),
    }
}

/// An interface whose owner has three games, one of them installed.
fn ready() -> App {
    let mut app = App::new(Host::Linux, false, 0);
    app.handle_events(
        vec![
            Event::SignedIn(Profile {
                id: 1,
                user: Some(User { username: "amos".into(), display_name: "Amos".into() }),
                last_connected: None,
            }),
            Event::Online(true),
            Event::OwnedGames(vec![game(1, "Alpha"), game(2, "Beta"), game(3, "Émile")]),
            Event::Caves(vec![cave("c1", game(1, "Alpha"))]),
        ],
        0,
    );
    app
}

fn press(app: &mut App, action: Action) {
    app.actions.push(action);
    app.apply_actions(SECOND);
}

fn titles(app: &App) -> Vec<String> {
    app.library.rows.sections.iter().map(|s| s.title.clone()).collect()
}

fn shown(app: &App) -> Vec<i64> {
    app.library.rows.sections.iter().flat_map(|s| s.games.clone()).collect()
}

#[test]
fn the_library_shows_what_is_owned() {
    let app = ready();
    assert_eq!(app.shown_content(), PageContent::LibraryRows);
    for id in [1, 2, 3] {
        assert!(shown(&app).contains(&id), "{:?}", titles(&app));
    }
    assert_eq!(app.installed_ids(), vec![1]);
    assert!(app.library.installed.contains(&1));
    assert_eq!(app.game(2).unwrap().title, "Beta");
    assert_eq!(app.caves_for(1).len(), 1);
}

#[test]
fn nothing_is_shown_before_it_is_known() {
    let app = App::new(Host::Linux, false, 0);
    assert_eq!(app.shown_content(), PageContent::Loading);
    assert!(app.rows_empty());
    assert!(!app.library.rows.follow && !app.shelves.collection_rows.follow);
}

#[test]
fn searching_ignores_case() {
    let mut app = ready();
    app.search_for("éMI".into());
    assert_eq!(shown(&app), vec![3]);
    app.search_for("zzz".into());
    assert!(shown(&app).is_empty());
    press(&mut app, Action::ClearSearch);
    assert!(shown(&app).contains(&1));
    assert_eq!(app.search.query, "");
}

#[test]
fn playing_twice_launches_once() {
    let mut app = ready();
    press(&mut app, Action::Play { cave_id: "c1".into() });
    assert_eq!(app.commands, vec![Command::Launch { cave_id: "c1".into() }]);
    assert!(app.is_running(1));
    app.commands.clear();
    press(&mut app, Action::Play { cave_id: "c1".into() });
    assert!(app.commands.is_empty());
    press(&mut app, Action::QuitGame { cave_id: "c1".into() });
    assert_eq!(app.commands, vec![Command::QuitGame { cave_id: "c1".into() }]);
    app.handle_event(
        Event::LaunchFinished { cave_id: "c1".into(), result: Ok(()) },
        2 * SECOND,
    );
    assert!(!app.is_running(1));
}

#[test]
fn failed_launches_are_told_on_the_page() {
    let mut app = ready();
    press(&mut app, Action::Play { cave_id: "c1".into() });
    let failure = || LaunchFailure { message: "boom".into(), log: vec!["line".into()] };
    app.handle_event(
        Event::LaunchFinished { cave_id: "c1".into(), result: Err(failure()) },
        2 * SECOND,
    );
    assert_eq!(app.failure_for(1), Some(&failure()));
    assert_eq!(app.failure_for(2), None);
}

#[test]
fn installing_twice_queues_once() {
    let mut app = ready();
    press(&mut app, Action::Install { game_id: 2 });
    assert_eq!(app.commands, vec![Command::Install { game: game(2, "Beta") }]);
    app.commands.clear();
    press(&mut app, Action::Install { game_id: 2 });
    assert!(app.commands.is_empty());
    // Declined: it may be asked for again.
    app.handle_event(Event::InstallDeclined { game_id: 2 }, SECOND);
    press(&mut app, Action::Install { game_id: 2 });
    assert_eq!(app.commands.len(), 1);
}

#[test]
fn opening_a_game_and_back_keeps_the_tile() {
    let mut app = ready();
    let row = app.library.rows.row;
    let focused = app.library.rows.focused_game();
    press(&mut app, Action::Activate);
    assert!(matches!(app.screen.page, Page::Game { .. }));
    let PageContent::Game { id, button } = app.shown_content() else {
        panic!("no game shown");
    };
    assert_eq!((Some(id), button), (focused, 0));
    press(&mut app, Action::Back);
    assert_eq!(app.screen.page, Page::Library);
    assert_eq!(app.library.rows.row, row);
    assert_eq!(app.library.rows.focused_game(), focused);
}

#[test]
fn tabs_wrap_round() {
    let mut app = ready();
    press(&mut app, Action::CycleTab(-1));
    assert_eq!(app.screen.tab, Tab::Downloads);
    press(&mut app, Action::CycleTab(1));
    assert_eq!(app.screen.tab, Tab::Library);
    press(&mut app, Action::SetTab(Tab::Collections));
    assert_eq!(app.screen.tab, Tab::Collections);
    assert_eq!(Tab::Library.next(3), Tab::Library);
    assert_eq!(Tab::Collections.label(), "Collections");
}

fn question(id: u64) -> Prompt {
    Prompt {
        id,
        title: "Really?".into(),
        body: String::new(),
        choices: vec!["Yes".into(), "No".into()],
        focus: 0,
        primary: Some(0),
        stacked: false,
    }
}

#[test]
fn questions_come_one_after_another() {
    let mut app = ready();
    app.handle_events(vec![Event::Prompt(question(1)), Event::Prompt(question(2))], SECOND);
    assert_eq!(app.screen.prompt.as_ref().unwrap().id, 1);
    press(&mut app, Action::MoveFocus(Direction::Right));
    press(&mut app, Action::Activate);
    assert!(app.commands.contains(&Command::Answer { prompt: 1, choice: Some(1) }));
    assert_eq!(app.screen.prompt.as_ref().unwrap().id, 2);
    press(&mut app, Action::Back);
    assert!(app.commands.contains(&Command::Answer { prompt: 2, choice: None }));
    assert!(app.screen.prompt.is_none());
    app.handle_events(vec![Event::Prompt(question(3)), Event::PromptClosed(3)], SECOND);
    assert!(app.screen.prompt.is_none());
}

#[test]
fn the_menu_hears_everything() {
    let mut app = ready();
    press(&mut app, Action::Menu);
    assert_eq!(app.screen.menu, Some(0));
    assert!(!app.menu_items().is_empty());
    let row = app.library.rows.row;
    press(&mut app, Action::MoveFocus(Direction::Down));
    assert_eq!(app.screen.menu, Some(1));
    assert_eq!(app.library.rows.row, row);
    press(&mut app, Action::Back);
    assert_eq!(app.screen.menu, None);
}

#[test]
fn quitting_closes_the_window_in_the_end() {
    let mut app = ready();
    press(&mut app, Action::Quit);
    assert!(app.screen.quitting.is_some());
    let before = app.screen.page == Page::Library;
    press(&mut app, Action::Open(Page::Game { id: 1, button: 0 }));
    assert_eq!(app.screen.page == Page::Library, before);
    let mut frames = 0;
    while app.count_down() {
        frames += 1;
        assert!(frames < 1000);
    }
    assert!(frames > 0);
    assert!(app.window.contains(&WindowRequest::Close));
}

fn download(id: &str, game_id: i64, finished: bool) -> Download {
    Download {
        id: id.into(),
        error: None,
        error_message: None,
        reason: DownloadReason::Install,
        position: 0,
        cave_id: "c9".into(),
        game: Some(game(game_id, "Beta")),
        started_at: Some("2024-01-01".into()),
        finished_at: if finished { Some("2024-01-02".into()) } else { None },
    }
}

#[test]
fn downloads_have_their_rows() {
    let mut app = ready();
    app.handle_events(
        vec![
            Event::Downloads(vec![download("d1", 2, false)]),
            Event::DownloadProgress {
                download_id: "d1".into(),
                progress: DownloadProgress {
                    stage: "Downloading".into(),
                    fraction: 0.25f64.to_bits(),
                    percent: 25,
                    moving: true,
                    bps: 2_000_000,
                    eta: 61,
                },
            },
        ],
        SECOND,
    );
    assert_eq!(app.downloading(), 1);
    let rows = app.download_rows();
    assert_eq!(rows.len(), 1);
    assert_eq!(rows[0].title, "Beta");
    assert!(rows[0].detail.contains("25%"), "{}", rows[0].detail);
    assert_eq!(rows[0].progress, Some(0.25f64.to_bits()));
    assert_eq!(app.downloads_row_in(&rows), (0, 0));
    drop(rows);
    let install = app.queue.installs.get(&2).unwrap();
    assert_eq!(install_line(install), "Downloading, 25%, 2.0 MB/s, 1m 01s left");
    // Cancelling is asked for, and stays asked for.
    press(&mut app, Action::CancelInstall { game_id: 2 });
    assert!(matches!(
        app.commands.last(),
        Some(Command::Discard { download_id, .. }) if download_id == "d1"
    ));
    // Each row goes by when its own download ended, whatever else has its id.
    let done = |at: &str| {
        let mut done = download("d1", 2, true);
        done.finished_at = Some(at.into());
        done
    };
    let downloads = vec![
        done("1970-01-01T01:00:00.5+01:00"),
        done("1970-01-01T00:02:00Z"),
        done("some time"),
    ];
    app.handle_event(Event::Downloads(downloads), SECOND);
    assert_eq!(app.downloading(), 0);
    let details = |app: &App| -> Vec<String> {
        app.download_rows().iter().map(|row| row.detail.clone()).collect()
    };
    let mut shown = details(&app);
    shown.sort();
    assert_eq!(shown, vec!["Installed", "Installed, just now", "Installed, just now"]);
    app.tell_time(150);
    let mut shown = details(&app);
    shown.sort();
    assert_eq!(shown, vec!["Installed", "Installed, 2 min ago", "Installed, just now"]);
}

fn update(cave_id: &str, direct: bool) -> GameUpdate {
    GameUpdate {
        cave_id: cave_id.into(),
        game: Some(game(1, "Alpha")),
        direct,
        choices: vec![GameUpdateChoice { upload: Some(upload("two.zip")), build_id: None }],
    }
}

#[test]
fn updates_are_offered_online() {
    let mut app = ready();
    app.handle_event(Event::Updates(vec![update("c1", true)]), SECOND);
    assert!(app.updatable().contains(&1));
    assert_eq!(app.pending_updates(true), vec!["c1"]);
    let labels = |app: &App| -> Vec<&str> {
        app.buttons_for(app.game(1).unwrap()).iter().map(|b| b.0).collect()
    };
    assert_eq!(labels(&app), vec!["Play", "Update", "Uninstall"]);
    app.handle_event(Event::Online(false), SECOND);
    assert_eq!(labels(&app), vec!["Play", "Uninstall"]);
    press(&mut app, Action::Update { cave_id: "c1".into() });
    app.commands.clear();
    press(&mut app, Action::CheckUpdates);
    assert!(app.commands.is_empty());
}

#[test]
fn collections_have_their_shelf() {
    let mut app = ready();
    app.handle_event(
        Event::Collections(vec![CollectionGames {
            collection: Collection { id: 7, title: "Nice".into(), games_count: 3 },
            games: vec![game(2, "Beta"), game(9, "Kappa")],
            next_cursor: Some("more".into()),
        }]),
        SECOND,
    );
    press(&mut app, Action::SetTab(Tab::Collections));
    assert_eq!(app.shown_content(), PageContent::CollectionRows);
    let section = &app.shelves.collection_rows.sections[0];
    assert_eq!(section.games, vec![2, 9]);
    assert!(section.more);
    app.commands.clear();
    press(&mut app, Action::MoreGames { row: 0 });
    assert_eq!(
        app.commands,
        vec![Command::CollectionPage { collection_id: 7, cursor: "more".into() }]
    );
    app.handle_event(
        Event::CollectionPage {
            collection_id: 7,
            games: vec![game(9, "Kappa"), game(10, "Lambda")],
            next_cursor: None,
        },
        SECOND,
    );
    let section = &app.shelves.collection_rows.sections[0];
    assert_eq!(section.games, vec![2, 9, 10]);
    assert!(!section.more);
}

#[test]
fn notices_go_after_a_while() {
    let mut app = ready();
    app.handle_event(Event::Error("Something broke".into()), 0);
    assert!(app.screen.notice.is_some());
    assert!(app.expire_notice(SECOND).is_some());
    assert!(app.expire_notice(3600 * SECOND).is_none());
    assert!(app.screen.notice.is_none());
}

#[test]
fn input_says_which_glyphs_to_show() {
    let mut app = ready();
    let quiet = Poll { pressed: false, connected: false };
    app.note_input(quiet, true, false);
    assert_eq!(app.device.input_mode, InputMode::Keyboard);
    app.note_input(Poll { pressed: true, connected: false }, false, false);
    assert_eq!(app.device.input_mode, InputMode::Gamepad);
    assert!(!app.hints(0).is_empty());
    assert!(glyph_file(InputMode::Gamepad, Glyph::Confirm).is_some());
    assert!(glyph_file(InputMode::Touch, Glyph::Confirm).is_none());
}

#[test]
fn keys_leave_typing_alone() {
    let find = |typing: bool, key: Key| {
        keys(typing).into_iter().find(|(k, _)| *k == key).map(|(_, action)| action)
    };
    assert_eq!(find(false, Key::Enter), Some(Action::Activate));
    assert_eq!(find(false, Key::Left), Some(Action::MoveFocus(Direction::Left)));
    assert_eq!(find(true, Key::Left), None);
}

#[test]
fn the_playable_filter_hides_the_rest() {
    let mut app = App::new(Host::Linux, false, 0);
    let mut foreign = game(2, "Beta");
    foreign.platforms = platforms(true, false);
    assert!(!playable_here(Host::Linux, &foreign));
    assert!(playable_here(Host::Windows, &foreign));
    app.handle_event(Event::OwnedGames(vec![game(1, "Alpha"), foreign]), 0);
    press(&mut app, Action::SetPlayableOnly(false));
    assert!(shown(&app).contains(&2));
    press(&mut app, Action::SetPlayableOnly(true));
    assert!(shown(&app).contains(&1) && !shown(&app).contains(&2));
    let (controls, stops) = app.toolbar(0);
    assert!(!controls.is_empty() && !stops.is_empty());
    assert_eq!(app.toolbar_focus_in(stops.len(), false), None);
}

#[test]
fn every_control_has_its_stop() {
    let mut app = ready();
    press(&mut app, Action::SetTab(Tab::Collections));
    let (controls, stops) = app.toolbar(0);
    let drawn: usize = controls
        .iter()
        .map(|control| match control {
            ToolbarControl::Filters(options) => options.len(),
            ToolbarControl::Button { .. } => 1,
        })
        .sum();
    assert_eq!(drawn, stops.len());
    let labels: Vec<&str> = stops.iter().map(|stop| stop.label).collect();
    assert_eq!(labels, vec!["All", "Installed", "Playable here"]);
}

#[test]
fn offline_nothing_is_asked_of_the_network() {
    let mut app = ready();
    app.handle_event(Event::Online(false), SECOND);
    app.commands.clear();
    for action in [Action::CheckUpdates, Action::RefreshLibrary, Action::UpdateAll] {
        press(&mut app, action);
    }
    assert!(app.commands.is_empty());
}

#[test]
fn filters_part_the_library() {
    let mut tool = game(1, "Tool");
    tool.classification = GameClassification::Tool;
    assert!(Kind::Tools.matches(&tool) && !Kind::Games.matches(&tool));
    assert!(Filter::All.matches(Host::Linux, &tool));
    assert_eq!(Filter::All.next(-1), Filter::Other);
    assert_eq!(Kind::Tools.filter(), Filter::Tools);
}

#[test]
fn coming_back_raises_the_window() {
    let mut app = App::new(Host::Linux, true, 0);
    app.hide_window();
    assert!(app.window.contains(&WindowRequest::Minimize));
    app.window.clear();
    app.raise_window();
    assert!(app.window.contains(&WindowRequest::Focus));
}

#[test]
fn scripts_are_read_word_by_word() {
    let steps = parse_script("down, right,, enter,wait:250,search:a b,capture").unwrap();
    assert_eq!(
        steps,
        vec![
            Step::Act(Action::MoveFocus(Direction::Down)),
            Step::Act(Action::MoveFocus(Direction::Right)),
            Step::Act(Action::Activate),
            Step::Wait(250),
            Step::Search("a b".into()),
            Step::Capture,
        ]
    );
    assert_eq!(parse_step("focus:3"), Some(Step::Act(Action::FocusIndex(3))));
    assert_eq!(parse_step("jump"), None);
    assert!(parse_script("up,jump").unwrap_err().contains("\"jump\""));
    assert_eq!(parse_script("").unwrap(), vec![]);
}

#[test]
fn shots_are_taken_once_things_settle() {
    let mut app = ready();
    let mut shot = Shot::new("out.png".into(), 0, 8 * SECOND, vec![]);
    let mut now = 0;
    while !app.window.contains(&WindowRequest::Screenshot) {
        assert!(now < 20 * SECOND);
        assert_ne!(app.drive_shot(&mut shot, now, false), ShotFrame::Done);
        now += SECOND / 10;
    }
    assert_eq!(app.drive_shot(&mut shot, now, true), ShotFrame::Done);
    assert!(shot.captured);
}

#[test]
fn game_pages_say_how_things_stand() {
    let one = game(1, "Alpha");
    let here = cave("c1", game(1, "Alpha"));
    let lines = game_lines(Some(&here), None, false, Some(&update("c1", true)), true);
    let texts: Vec<&str> = lines.iter().map(|(_, line)| line.as_str()).collect();
    assert_eq!(
        texts,
        vec![
            "Installed, 1.5 KB, one.zip",
            "Played 2 min",
            "Update available: two.zip"
        ]
    );
    assert_eq!(lines[0].0, Tone::Good);
    assert_eq!(lines[2].0, Tone::Notice);
    let none = game_lines(None, None, false, None, false);
    assert_eq!(none[0].1, "Not installed; offline");
    let failed = InstallState {
        download_id: "d".into(),
        fraction: 0,
        percent: 0,
        moving: false,
        bps: 0,
        eta_seconds: 0,
        stage: "Queued".into(),
        cancelling: false,
        error: Some("disk full".into()),
    };
    assert_eq!(install_line(&failed), "Failed: disk full");
    let labels: Vec<&str> = game_buttons(&one, &vec![], Some(&failed), false, None, true)
        .iter()
        .map(|b| b.0)
        .collect();
    assert_eq!(labels, vec!["Retry", "Dismiss"]);
    assert_eq!(tile_mark(true, true, true), TileMark::Progress);
    assert_eq!(tile_mark(false, true, true), TileMark::Update);
    assert_eq!(tile_mark(false, false, true), TileMark::Installed);
    assert_eq!(tile_mark(false, false, false), TileMark::Nothing);
}

#[test]
fn covers_prefer_the_still() {
    let mut one = game(1, "Alpha");
    one.cover_url = Some("https://x/a.GIF".into());
    assert_eq!(one.animated_cover().map(String::as_str), Some("https://x/a.GIF"));
    one.still_cover_url = Some("https://x/a.png".into());
    assert_eq!(one.cover().map(String::as_str), Some("https://x/a.png"));
    one.still_cover_url = Some("https://x/a.GIF".into());
    assert_eq!(one.animated_cover(), None);
    one.cover_url = Some("https://x/a.jpg".into());
    assert_eq!(one.animated_cover(), None);
}
