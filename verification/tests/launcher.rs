//! Behind the interface: installs, updates, launches, syncing.
use zitch::backend::launching::{
    asked_about, launch_news, launch_reply, launch_result, launch_step, picked_target, plan_launch,
    reply_error, Asked, LaunchNote, LaunchReply, LaunchRequest, LaunchStep, LaunchStrategy,
    LaunchTarget, LaunchWork, LogLevel, LogTail, Plan, PrereqStatus, StrategyResult,
};
use zitch::backend::pages::{
    choose_sign_in, drive, first_location, next_cursor, present_games, shelf, welcome, DriveNote,
    DriveWork, Pages, SignIn,
};
use zitch::backend::questions::{
    accepted, agreed, ask, discard_question, either, pick, taken, uninstall_question, Prompts,
};
use zitch::backend::sync::{failure_event, tells_online, Backend, Operation, Sync, SyncFailure};
use zitch::backend::sync::{watch, Health, SyncStep, Told, Watch, Work};
use zitch::backend::uploads::{
    describe_upload, ignores_installers, install_step, keep_installable, missing_choice,
    narrow_updates, update_question, upload_label, upload_platform_names, upload_runs_here,
    InstallStep,
};
use zitch::backend::{Command, Event};
use zitch::model::{
    Collection, Download, DownloadProgress, DownloadReason, Game, GameClassification, GameUpdate,
    GameUpdateChoice, Host, LaunchFailure, Platforms, Profile, Upload, UploadType, User,
};
use zitch::muos::{Candidate, Content, Firmware, Flavor, LinuxInfo, Love};

fn game(id: i64, title: &str) -> Game {
    Game {
        id,
        title: title.into(),
        short_text: None,
        classification: GameClassification::Game,
        platforms: Platforms { windows: false, linux: true, osx: false },
        cover_url: None,
        still_cover_url: None,
    }
}

fn upload(id: i64, name: &str, windows: bool, linux: bool) -> Upload {
    Upload {
        id,
        filename: name.into(),
        display_name: String::new(),
        size: 1500,
        demo: false,
        kind: UploadType::Default,
        platforms: Platforms { windows, linux, osx: false },
    }
}

fn handheld() -> Firmware {
    Firmware {
        script: Some("launch".into()),
        love: Some(Love { binary: "/l/love".into(), libs: "/l/libs".into(), version: "11.5".into() }),
        ..Firmware::none()
    }
}

#[test]
fn uploads_are_described() {
    let mut one = upload(1, "one.zip", true, true);
    assert_eq!(upload_label(&one), "one.zip (1.5 KB)");
    one.display_name = "The one".into();
    one.demo = true;
    one.kind = UploadType::Soundtrack;
    assert_eq!(upload_label(&one), "The one (1.5 KB, demo, soundtrack)");
    assert_eq!(upload_platform_names(&one), vec!["Windows", "Linux"]);
    assert_eq!(describe_upload(&one), "The one (Windows, Linux)");
    one.platforms = Platforms { windows: false, linux: false, osx: false };
    assert_eq!(describe_upload(&one), "The one");
}

#[test]
fn uploads_run_on_their_platform() {
    let desktop = Firmware::none();
    let linux = upload(1, "one.zip", false, true);
    let windows = upload(2, "two.zip", true, false);
    assert!(upload_runs_here(&desktop, Host::Linux, &linux));
    assert!(!upload_runs_here(&desktop, Host::Linux, &windows));
    assert!(upload_runs_here(&handheld(), Host::Linux, &upload(3, "a.love", false, false)));
    // An archive that says nothing may hold what runs.
    assert!(upload_runs_here(&handheld(), Host::Linux, &upload(4, "a.ZIP", false, false)));
    assert!(!upload_runs_here(&handheld(), Host::Linux, &upload(5, "a.zip", true, false)));
    assert!(!upload_runs_here(&handheld(), Host::Linux, &upload(6, "a.exe", false, false)));
    assert!(!upload_runs_here(&desktop, Host::Linux, &upload(7, "a.zip", false, false)));
    // On a desktop butler has left out what does not run; on a handheld nobody has.
    let both = || vec![upload(1, "one.zip", false, true), upload(2, "two.zip", true, false)];
    assert_eq!(keep_installable(&desktop, Host::Linux, both()), both());
    let kept = keep_installable(&handheld(), Host::Linux, both());
    assert_eq!(kept.iter().map(|u| u.id).collect::<Vec<_>>(), vec![1]);
}

#[test]
fn one_upload_is_installed_and_more_are_asked_about() {
    let alpha = game(1, "Alpha");
    assert!(matches!(install_step(&alpha, &vec![]), InstallStep::Nothing(_)));
    let one = vec![upload(1, "one.zip", false, true)];
    assert_eq!(install_step(&alpha, &one), InstallStep::Queue(0));
    let two = vec![upload(1, "one.zip", false, true), upload(2, "two.zip", false, true)];
    let InstallStep::Ask(question) = install_step(&alpha, &two) else {
        panic!("not asked");
    };
    assert_eq!(question.choices.len(), 3);
    assert!(question.choices[1].contains("two.zip"));
    assert_eq!(taken(Some(1), 2), Some(1));
    assert_eq!(taken(Some(2), 2), None);
    assert_eq!(taken(None, 2), None);
}

fn update(uploads: Vec<Upload>, direct: bool) -> GameUpdate {
    GameUpdate {
        cave_id: "c1".into(),
        game: Some(game(1, "Alpha")),
        direct,
        choices: uploads
            .into_iter()
            .map(|upload| GameUpdateChoice { upload: Some(upload), build_id: None })
            .collect(),
    }
}

#[test]
fn updates_offer_what_runs() {
    let both = vec![upload(1, "a.zip", false, true), upload(2, "b.zip", true, false)];
    let kept = narrow_updates(&Firmware::none(), Host::Linux, vec![update(both, false)]);
    assert_eq!(kept.len(), 1);
    assert_eq!(kept[0].choices.len(), 1);
    assert_eq!(kept[0].choices[0].upload.as_ref().unwrap().id, 1);
    let foreign = vec![upload(2, "b.zip", true, false)];
    assert!(narrow_updates(&Firmware::none(), Host::Linux, vec![update(foreign, false)]).is_empty());
    let offered = update(vec![upload(1, "a.zip", false, true)], false);
    let question = update_question(&offered, Some(&upload(3, "old.zip", false, true)));
    assert_eq!(question.choices, vec!["Install", "Cancel"]);
    assert!(question.body.contains("Installed: old.zip (Linux)"));
    assert!(question.body.contains("Offered: a.zip (Linux)"));
    assert_eq!(missing_choice(&offered, 0), None);
    assert!(missing_choice(&offered, 1).is_some());
    assert!(!ignores_installers(&Firmware::none(), &upload(1, "a.zip", false, true)));
}

fn target(flavor: Flavor, path: &str) -> LaunchTarget {
    LaunchTarget {
        strategy: Some(StrategyResult {
            strategy: LaunchStrategy::Runtime,
            full_target_path: path.into(),
            candidate: Some(Candidate {
                path: path.into(),
                flavor,
                engine: None,
                linux: None,
            }),
        }),
        action_path: None,
    }
}

#[test]
fn desktops_leave_the_launch_to_butler() {
    assert!(matches!(
        plan_launch(&Firmware::none(), &vec![]),
        Plan::Launch(None) | Plan::Fail(_)
    ));
}

#[test]
fn payloads_are_picked_from() {
    let firmware = handheld();
    let targets = vec![target(Flavor::Love, "/g/a.love"), target(Flavor::Love, "/g/b.love")];
    match plan_launch(&firmware, &targets) {
        Plan::Pick(choices, question) => {
            assert_eq!(choices.len(), 2);
            assert_eq!(question.choices.len(), choices.len());
            assert_eq!(picked_target(&choices, 1), choices[1].target);
        }
        other => panic!("{other:?}"),
    }
    match plan_launch(&firmware, &vec![target(Flavor::Love, "/g/a.love")]) {
        Plan::Launch(Some(_)) => {}
        other => panic!("{other:?}"),
    }
}

#[test]
fn the_same_file_is_one_choice() {
    let twice = vec![target(Flavor::Love, "/g/a.love"), target(Flavor::Love, "/g/a.love")];
    assert!(matches!(plan_launch(&handheld(), &twice), Plan::Launch(Some(_))));
}

#[test]
fn builds_that_cannot_run_say_why() {
    let native = LaunchTarget {
        strategy: Some(StrategyResult {
            strategy: LaunchStrategy::Native,
            full_target_path: "/g/game".into(),
            candidate: Some(Candidate {
                path: "game".into(),
                flavor: Flavor::NativeLinux,
                engine: None,
                linux: Some(LinuxInfo { sdl: Some("3".into()), ..Default::default() }),
            }),
        }),
        action_path: None,
    };
    let Plan::Fail(words) = plan_launch(&handheld(), &vec![native]) else {
        panic!("it was launched");
    };
    assert!(words.contains("SDL3"), "{words}");
}

#[test]
fn requests_during_a_launch_are_answered() {
    let firmware = handheld();
    let runtime = LaunchRequest::Runtime {
        candidate: Some(Candidate {
            path: "a.love".into(),
            flavor: Flavor::Love,
            engine: None,
            linux: None,
        }),
        path: "/g/a.love".into(),
    };
    assert_eq!(
        launch_step(&firmware, runtime),
        LaunchStep::Run(Content::Love { path: "/g/a.love".into() })
    );
    assert_eq!(
        asked_about(&LaunchRequest::License("text".into())),
        Some(Asked::License)
    );
    assert!(matches!(
        launch_step(&firmware, LaunchRequest::License("text".into())),
        LaunchStep::Ask(_)
    ));
    assert_eq!(launch_reply(Asked::License, Some(0)), LaunchReply::Accept(true));
    assert_eq!(launch_reply(Asked::License, None), LaunchReply::Accept(false));
    assert_eq!(launch_reply(Asked::Action, Some(2)), LaunchReply::Picked(2));
    assert_eq!(
        launch_step(&firmware, LaunchRequest::Open("https://itch.io".into())),
        LaunchStep::Open("https://itch.io".into())
    );
    assert!(reply_error(LaunchReply::Accept(true)).is_none());
    assert!(reply_error(LaunchReply::NotSupported).is_some());
}

#[test]
fn logs_keep_their_last_lines() {
    let mut tail = LogTail::new();
    for n in 0..500 {
        tail.push(format!("line {n}"));
    }
    let failure = tail.failure("boom");
    assert_eq!(failure.log.last().unwrap(), "line 499");
    assert!(failure.log.len() < 500);
    assert!(failure.message.contains("boom"));
    // A game that was quit did not fail.
    let failed = || Err(LaunchFailure { message: "killed".into(), log: vec![] });
    assert_eq!(launch_result(failed(), true), Ok(()));
    assert_eq!(launch_result(failed(), false), failed());
}

#[test]
fn questions_are_numbered() {
    let mut prompts = Prompts::new();
    let first = prompts.show(ask("Really?", String::new(), either("Yes", "No")));
    let second = prompts.show(discard_question("Alpha"));
    assert_ne!(first.id, second.id);
    assert!(prompts.answer(first.id));
    prompts.close(first.id);
    assert!(!prompts.answer(first.id));
    assert!(uninstall_question("Alpha").title.contains("Alpha"));
    assert!(pick("Which?", String::new(), vec!["a".into()]).stacked);
    // What was asked for stands second.
    assert!(agreed(Some(1)) && !agreed(Some(0)) && !agreed(None));
    assert!(accepted(Some(0)) && !accepted(None));
}

#[test]
fn a_good_run_leaves_nothing_stale() {
    let mut sync = Sync::new(true);
    let mut step = sync.begin();
    let mut steps = vec![step];
    while step != SyncStep::Done {
        let (next, news) = sync.succeed(step, false);
        // Being online is told once the probe has settled.
        assert_eq!(news.is_some(), step == SyncStep::Probe);
        step = next;
        steps.push(step);
        assert!(steps.len() < 20);
    }
    assert!(!sync.stale && !sync.collections_stale && sync.online);
    let mut sync = Sync::new(true);
    let step = sync.begin();
    assert_eq!(sync.fail(step, true), (SyncFailure::GoOn(SyncStep::Probe), None));
}

#[test]
fn one_game_runs_at_a_time() {
    let mut backend = Backend::new(false, 0);
    let launch = |cave: &str| Command::Launch { cave_id: cave.into() };
    assert_eq!(
        backend.take(launch("c1"), 0),
        Work::Launch { cave_id: "c1".into() }
    );
    backend.track("c1".into());
    assert!(!matches!(backend.take(launch("c1"), 0), Work::Launch { .. }));
    backend.forget("c1");
    assert_eq!(
        backend.take(launch("c1"), 0),
        Work::Launch { cave_id: "c1".into() }
    );
    assert_eq!(backend.take(Command::Shutdown, 0), Work::Stop);
}

#[test]
fn failures_reach_the_interface() {
    assert_eq!(
        failure_event(Operation::Install { game_id: 3 }, "no space".into(), "no space".into(), true),
        Some(Event::InstallFailed { game_id: 3, error: "no space".into() })
    );
}

fn profile(id: i64, name: &str, last: &str) -> Profile {
    Profile {
        id,
        user: Some(User { username: name.into(), display_name: String::new() }),
        last_connected: Some(last.into()),
    }
}

#[test]
fn the_last_profile_signs_in() {
    let saved = vec![profile(1, "amos", "2024-01-01"), profile(2, "leaf", "2025-01-01")];
    let Ok(SignIn::Saved { profile_id, .. }) = choose_sign_in(&saved, None, false, "/db") else {
        panic!("nobody signed in");
    };
    assert_eq!(profile_id, 2);
    let Ok(SignIn::Saved { profile_id, .. }) = choose_sign_in(&saved, Some(1), true, "/db") else {
        panic!("nobody signed in");
    };
    assert_eq!(profile_id, 1);
    let unknown = choose_sign_in(&saved, Some(9), true, "/db").unwrap_err();
    assert!(unknown.contains("amos") && unknown.contains("leaf"), "{unknown}");
    assert_eq!(choose_sign_in(&vec![], None, true, "/db"), Ok(SignIn::ApiKey));
    assert!(choose_sign_in(&vec![], None, false, "/db").is_err());
    assert!(welcome(&saved[0]).contains("amos"));
}

#[test]
fn pages_are_gathered() {
    let mut pages = Pages::new();
    assert_eq!(
        pages.take(vec![1, 2], Some(false), Some("next".into())),
        Some("next".to_string())
    );
    assert_eq!(pages.take(vec![3], Some(true), Some(String::new())), None);
    let (items, _) = pages.finish(false);
    assert_eq!(items, vec![1, 2, 3]);
    assert_eq!(next_cursor(Some(String::new())), None);
    assert_eq!(next_cursor(Some("x".into())).as_deref(), Some("x"));
    let games = present_games(vec![None, Some(game(1, "Alpha")), None]);
    assert_eq!(games, vec![game(1, "Alpha")]);
    let made = shelf(
        Collection { id: 4, title: "Nice".into(), games_count: 1 },
        vec![Some(game(1, "Alpha")), None],
        Some(String::new()),
    );
    assert_eq!((made.games.len(), made.next_cursor), (1, None));
    assert_eq!(first_location(&vec!["/a".into(), "/b".into()]).as_deref(), Some("/a"));
}

#[test]
fn downloads_report_as_they_go() {
    let progress = || DownloadProgress {
        stage: "Downloading".into(),
        fraction: 0,
        percent: 0,
        moving: false,
        bps: 0,
        eta: 0,
    };
    assert_eq!(
        drive(DriveNote::Progress { download_id: Some("d".into()), progress: Some(progress()) }),
        vec![DriveWork::Tell(Event::DownloadProgress {
            download_id: "d".into(),
            progress: progress()
        })]
    );
    assert!(drive(DriveNote::Progress { download_id: None, progress: Some(progress()) }).is_empty());
    assert!(drive(DriveNote::Started).contains(&DriveWork::RefreshDownloads));
    let done = Download {
        id: "d".into(),
        error: None,
        error_message: None,
        reason: DownloadReason::Install,
        position: 0,
        cave_id: "c".into(),
        game: None,
        started_at: None,
        finished_at: None,
    };
    let work = drive(DriveNote::Finished(Some(done)));
    assert!(work.iter().any(|w| matches!(w, DriveWork::Tell(Event::DownloadFinished(_)))));
    assert!(work.contains(&DriveWork::RefreshCaves));
    assert!(drive(DriveNote::Other).is_empty());
}

#[test]
fn online_is_told_when_it_changes() {
    assert_eq!(tells_online(None, true), Some(Event::Online(true)));
    assert_eq!(tells_online(None, false), Some(Event::Online(false)));
    assert_eq!(tells_online(Some(true), true), None);
    assert_eq!(tells_online(Some(true), false), Some(Event::Online(false)));
    let mut sync = Sync::new(false);
    assert_eq!(sync.succeed(SyncStep::Probe, false).1, Some(Event::Online(true)));
    assert_eq!(sync.succeed(SyncStep::Probe, false).1, None);
    let offline = (SyncFailure::Offline, Some(Event::Online(false)));
    assert_eq!(sync.fail(SyncStep::Probe, true), offline);
    assert_eq!(sync.fail(SyncStep::Probe, true), (SyncFailure::Offline, None));
    assert_eq!(sync.fail(SyncStep::Probe, false), (SyncFailure::Failed, None));
    assert_eq!(sync.succeed(SyncStep::Probe, false).1, Some(Event::Online(true)));
}

#[test]
fn launches_are_reported_as_they_go() {
    assert_eq!(
        launch_news(LaunchNote::Running { cave_id: "c".into() }),
        LaunchWork::Tell(Event::LaunchRunning { cave_id: "c".into() })
    );
    assert_eq!(
        launch_news(LaunchNote::PrereqsStarted(3)),
        LaunchWork::Status("Installing 3 prerequisites".into())
    );
    assert_eq!(
        launch_news(LaunchNote::PrereqsTask {
            name: "dotnet".into(),
            status: PrereqStatus::Downloading,
            percent: "42".into(),
        }),
        LaunchWork::Status("dotnet: Downloading 42%".into())
    );
    let log = |level| launch_news(LaunchNote::Log { level, line: "oops".into() });
    assert_eq!(log(LogLevel::Error), LaunchWork::Keep("oops".into()));
    assert_eq!(log(LogLevel::Warning), LaunchWork::Nothing);
    assert_eq!(launch_news(LaunchNote::Exited), LaunchWork::Nothing);
    assert_eq!(launch_news(LaunchNote::Other), LaunchWork::Nothing);
}

#[test]
fn butler_is_kept_up() {
    assert_eq!(watch(Health::Alive), Watch::Work);
    assert_eq!(watch(Health::Dead), Watch::Respawn);
    assert_eq!(watch(Health::Respawned), Watch::Resume);
    assert_eq!(watch(Health::RespawnFailed), Watch::Rest(5_000_000_000));
    assert_eq!(watch(Health::Rested(Told::Nothing)), Watch::Look);
    assert_eq!(watch(Health::Rested(Told::Command)), Watch::Look);
    assert_eq!(watch(Health::Rested(Told::Shutdown)), Watch::Stop);
    assert_eq!(watch(Health::Rested(Told::Closed)), Watch::Stop);
}
