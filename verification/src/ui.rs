//! What the pages say and offer, ready to be drawn.
use vstd::prelude::*;
use vstd::string::*;
use crate::model::{Action, Cave, Game, GameUpdate, InstallState, UploadExt};
use crate::size::{human_size, size_text};
use crate::text::{decimal, digit, joined, number_text, signed_decimal, signed_text};

verus! {

/// A button: its label and what pressing it does.
pub type Button = (&'static str, Action);

/// Buttons as the values they hold.
pub open spec fn button_views(buttons: Seq<Button>) -> Seq<(Seq<char>, Action)> {
    buttons.map_values(|b: Button| (b.0@, b.1))
}

/// Which part of the Downloads list a row belongs to.
#[derive(Debug, Clone, Copy, PartialEq, Eq, Structural)]
pub enum DownloadSection {
    Updates,
    Queue,
    Finished,
}

/// One entry on the Downloads tab, already worded.
#[derive(Debug, PartialEq, Eq)]
pub struct DownloadRow<'a> {
    pub game: Option<&'a Game>,
    pub title: String,
    pub detail: String,
    /// How much is done, 0 to 1, as the bits of a double, while butler is working on it.
    pub progress: Option<u64>,
    pub failed: bool,
    pub section: DownloadSection,
    pub direct_update: bool,
    pub buttons: Vec<Button>,
}

/// A row of the Downloads tab as the values it holds.
#[verifier::ext_equal]
pub struct DownloadRowView {
    pub game: Option<Game>,
    pub title: Seq<char>,
    pub detail: Seq<char>,
    pub progress: Option<u64>,
    pub failed: bool,
    pub section: DownloadSection,
    pub direct_update: bool,
    pub buttons: Seq<(Seq<char>, Action)>,
}

/// The game behind an optional reference.
pub open spec fn game_behind(game: Option<&Game>) -> Option<Game> {
    match game {
        Some(g) => Some(*g),
        None => None,
    }
}

impl<'a> View for DownloadRow<'a> {
    type V = DownloadRowView;

    open spec fn view(&self) -> DownloadRowView {
        DownloadRowView {
            game: game_behind(self.game),
            title: self.title@,
            detail: self.detail@,
            progress: self.progress,
            failed: self.failed,
            section: self.section,
            direct_update: self.direct_update,
            buttons: button_views(self.buttons@),
        }
    }
}

pub open spec fn row_views(rows: Seq<DownloadRow<'_>>) -> Seq<DownloadRowView> {
    rows.map_values(|r: DownloadRow<'_>| r@)
}

/// A control above a tab's list.
#[derive(Debug, PartialEq, Eq)]
pub enum ToolbarControl {
    /// Options of which each is on or off.
    Filters(Vec<(&'static str, bool)>),
    Button {
        label: &'static str,
        busy: bool,
    },
}

/// An item of the menu drawer.
#[derive(Debug, PartialEq, Eq)]
pub struct MenuItem {
    pub label: &'static str,
    pub action: Action,
    pub busy: bool,
}

// ---------------------------------------------------------------------------
// Times
// ---------------------------------------------------------------------------

/// Division that drops the fraction, towards zero.
pub open spec fn truncated(n: int, d: int) -> int {
    if n < 0 {
        -((-n) / d)
    } else {
        n / d
    }
}

/// A number below a hundred in two digits.
pub open spec fn two_digits(n: nat) -> Seq<char> {
    seq![digit(n / 10), digit(n % 10)]
}

fn two_digit_text(n: u64) -> (r: String)
    requires
        n < 100,
    ensures
        r@ == two_digits(n as nat),
{
    let tens = number_text(n / 10);
    let ones = number_text(n % 10);
    let r = joined(tens.as_str(), ones.as_str());
    assert(r@ =~= two_digits(n as nat));
    r
}

/// Remaining time in words.
pub open spec fn seconds_text(seconds: int) -> Seq<char> {
    if seconds < 60 {
        signed_decimal(seconds) + "s"@
    } else {
        decimal((seconds / 60) as nat) + "m "@ + two_digits((seconds % 60) as nat) + "s"@
    }
}

/// Short remaining-time text for progress lines.
pub fn human_duration_seconds(seconds: i64) -> (r: String)
    ensures
        r@ == seconds_text(seconds as int),
{
    if seconds < 60 {
        joined(signed_text(seconds).as_str(), "s")
    } else {
        let mut r = number_text((seconds / 60) as u64);
        r.append("m ");
        r.append(two_digit_text((seconds % 60) as u64).as_str());
        r.append("s");
        r
    }
}

/// Time played in words.
pub open spec fn duration_text(seconds: int) -> Seq<char> {
    let minutes = truncated(seconds, 60);
    if minutes < 60 {
        signed_decimal(minutes) + " min"@
    } else {
        decimal((minutes / 60) as nat) + "h "@ + two_digits((minutes % 60) as nat) + "m"@
    }
}

/// Time played, in minutes or in hours and minutes.
pub fn human_duration(seconds: i64) -> (r: String)
    ensures
        r@ == duration_text(seconds as int),
{
    let minutes: i64 = if seconds >= 0 {
        seconds / 60
    } else if seconds == i64::MIN {
        -153722867280912930
    } else {
        -((-seconds) / 60)
    };
    if minutes < 60 {
        joined(signed_text(minutes).as_str(), " min")
    } else {
        let mut r = number_text((minutes / 60) as u64);
        r.append("h ");
        r.append(two_digit_text((minutes % 60) as u64).as_str());
        r.append("m");
        r
    }
}

// ---------------------------------------------------------------------------
// A game's page
// ---------------------------------------------------------------------------

/// The first of a game's installs.
pub open spec fn first_cave(caves: Seq<&Cave>) -> Option<Cave> {
    if caves.len() > 0 {
        Some(*caves[0])
    } else {
        None
    }
}

/// What the detail page offers for a game, in button order.
pub open spec fn offered(
    game_id: i64,
    cave: Option<Cave>,
    install: Option<InstallState>,
    running: bool,
    update: bool,
    online: bool,
) -> Seq<(Seq<char>, Action)> {
    if running {
        seq![]
    } else {
        match (install, cave) {
            (Some(install), _) => if install.cancelling {
                seq![]
            } else if install.error is Some {
                seq![
                    ("Retry"@, Action::RetryInstall { game_id }),
                    ("Dismiss"@, Action::CancelInstall { game_id }),
                ]
            } else {
                seq![("Cancel"@, Action::CancelInstall { game_id })]
            },
            (None, Some(cave)) => if update && online {
                seq![
                    ("Play"@, Action::Play { cave_id: cave.id }),
                    ("Update"@, Action::Update { cave_id: cave.id }),
                    ("Uninstall"@, Action::Uninstall { cave_id: cave.id }),
                ]
            } else {
                seq![
                    ("Play"@, Action::Play { cave_id: cave.id }),
                    ("Uninstall"@, Action::Uninstall { cave_id: cave.id }),
                ]
            },
            (None, None) => if online {
                seq![("Install"@, Action::Install { game_id })]
            } else {
                seq![]
            },
        }
    }
}

/// The value behind an optional reference.
pub open spec fn behind<T>(o: Option<&T>) -> Option<T> {
    match o {
        Some(x) => Some(*x),
        None => None,
    }
}

/// What the detail page offers for a game, in button order.
pub fn game_buttons(
    game: &Game,
    caves: &Vec<&Cave>,
    install: Option<&InstallState>,
    running: bool,
    update: Option<&GameUpdate>,
    online: bool,
) -> (r: Vec<Button>)
    ensures
        button_views(r@) == offered(
            game.id,
            first_cave(caves@),
            behind(install),
            running,
            update is Some,
            online,
        ),
{
    let game_id = game.id;
    let mut r: Vec<Button> = Vec::new();
    if running {
        // Nothing to press while it runs.
    } else if let Some(install) = install {
        if install.cancelling {
            // Nothing to press while it goes away.
        } else if install.error.is_some() {
            r.push(("Retry", Action::RetryInstall { game_id }));
            r.push(("Dismiss", Action::CancelInstall { game_id }));
        } else {
            r.push(("Cancel", Action::CancelInstall { game_id }));
        }
    } else if caves.len() > 0 {
        let cave_id = &caves[0].id;
        r.push(("Play", Action::Play { cave_id: cave_id.clone() }));
        if update.is_some() && online {
            r.push(("Update", Action::Update { cave_id: cave_id.clone() }));
        }
        r.push(("Uninstall", Action::Uninstall { cave_id: cave_id.clone() }));
    } else if online {
        r.push(("Install", Action::Install { game_id }));
    }
    proof {
        let ghost all = offered(
            game.id,
            first_cave(caves@),
            behind(install),
            running,
            update is Some,
            online,
        );
        assert(button_views(r@) =~= all);
    }
    r
}

/// How a line on a game's page is coloured.
#[derive(Debug, Clone, Copy, PartialEq, Eq, Structural)]
pub enum Tone {
    /// Work in progress, or a failure.
    Accent,
    /// It is here.
    Good,
    /// Something to act on.
    Notice,
    /// Just so you know.
    Quiet,
}

/// The state of a download in words.
pub open spec fn install_text(install: InstallState) -> Seq<char> {
    match install.error {
        Some(error) => "Failed: "@ + error@,
        None => if install.cancelling {
            "Cancelling"@
        } else {
            let done = install.stage@ + ", "@ + signed_decimal(install.percent as int) + "%"@;
            if install.moving {
                done + ", "@ + size_text(install.bps as int) + "/s, "@ + seconds_text(
                    install.eta_seconds as int,
                ) + " left"@
            } else {
                done
            }
        },
    }
}

/// What is installed, in words.
pub open spec fn installed_text(cave: Cave) -> Seq<char> {
    let sized = match cave.installed_size {
        Some(size) => "Installed"@ + ", "@ + size_text(size as int),
        None => "Installed"@,
    };
    match cave.upload {
        Some(upload) => sized + ", "@ + upload.shown_name(),
        None => sized,
    }
}

/// The name of the upload that an update would bring.
pub open spec fn update_name(update: GameUpdate) -> Seq<char> {
    if update.choices@.len() > 0 {
        match update.choices@[0].upload {
            Some(upload) => upload.shown_name(),
            None => "newer version"@,
        }
    } else {
        "newer version"@
    }
}

/// What an update would bring, in the words of a game's page. A direct update is the
/// installed upload, newer; an indirect one is a guess.
pub open spec fn update_text(update: GameUpdate) -> Seq<char> {
    if update.direct {
        "Update available: "@ + update_name(update)
    } else if update.choices@.len() > 1 {
        decimal(update.choices@.len()) + " newer uploads available"@
    } else {
        "Newer upload available: "@ + update_name(update)
    }
}

pub fn name_of_update(update: &GameUpdate) -> (r: &str)
    ensures
        r@ == update_name(*update),
{
    if update.choices.len() > 0 {
        match &update.choices[0].upload {
            Some(upload) => upload.name(),
            None => "newer version",
        }
    } else {
        "newer version"
    }
}

/// The lines below a game's title: what state it is in, and how each is coloured.
pub open spec fn status_lines(
    cave: Option<Cave>,
    install: Option<InstallState>,
    running: bool,
    update: Option<GameUpdate>,
    online: bool,
) -> Seq<(Tone, Seq<char>)> {
    match (install, cave) {
        (Some(install), _) => seq![(Tone::Accent, install_text(install))],
        (None, Some(cave)) => if running {
            seq![(Tone::Good, "Running"@)]
        } else {
            let here = seq![(Tone::Good, installed_text(cave))];
            let played = match cave.stats {
                Some(stats) if stats.seconds_run > 0 => here.push(
                    (Tone::Quiet, "Played "@ + duration_text(stats.seconds_run as int)),
                ),
                _ => here,
            };
            match update {
                Some(update) => played.push((Tone::Notice, update_text(update))),
                None => played,
            }
        },
        (None, None) => seq![
            (
                Tone::Quiet,
                if online {
                    "Not installed"@
                } else {
                    "Not installed; offline"@
                },
            ),
        ],
    }
}

pub open spec fn line_views(lines: Seq<(Tone, String)>) -> Seq<(Tone, Seq<char>)> {
    lines.map_values(|l: (Tone, String)| (l.0, l.1@))
}

pub fn install_line(install: &InstallState) -> (r: String)
    ensures
        r@ == install_text(*install),
{
    match &install.error {
        Some(error) => joined("Failed: ", error.as_str()),
        None => {
            if install.cancelling {
                return "Cancelling".to_owned();
            }
            let mut r = install.stage.clone();
            r.append(", ");
            r.append(signed_text(install.percent).as_str());
            r.append("%");
            if install.moving {
                r.append(", ");
                r.append(human_size(install.bps).as_str());
                r.append("/s, ");
                r.append(human_duration_seconds(install.eta_seconds).as_str());
                r.append(" left");
            }
            r
        },
    }
}

fn installed_line(cave: &Cave) -> (r: String)
    ensures
        r@ == installed_text(*cave),
{
    let mut r = "Installed".to_owned();
    if let Some(size) = cave.installed_size {
        r.append(", ");
        r.append(human_size(size).as_str());
    }
    if let Some(upload) = &cave.upload {
        r.append(", ");
        r.append(upload.name());
    }
    r
}

fn update_line(update: &GameUpdate) -> (r: String)
    ensures
        r@ == update_text(*update),
{
    if update.direct {
        joined("Update available: ", name_of_update(update))
    } else if update.choices.len() > 1 {
        joined(number_text(update.choices.len() as u64).as_str(), " newer uploads available")
    } else {
        joined("Newer upload available: ", name_of_update(update))
    }
}

/// The lines below a game's title.
pub fn game_lines(
    cave: Option<&Cave>,
    install: Option<&InstallState>,
    running: bool,
    update: Option<&GameUpdate>,
    online: bool,
) -> (r: Vec<(Tone, String)>)
    ensures
        line_views(r@) == status_lines(
            behind(cave),
            behind(install),
            running,
            behind(update),
            online,
        ),
{
    let mut r: Vec<(Tone, String)> = Vec::new();
    match (install, cave) {
        (Some(install), _) => {
            r.push((Tone::Accent, install_line(install)));
        },
        (None, Some(cave)) => {
            if running {
                r.push((Tone::Good, "Running".to_owned()));
            } else {
                r.push((Tone::Good, installed_line(cave)));
                if let Some(stats) = &cave.stats {
                    if stats.seconds_run > 0 {
                        r.push(
                            (
                                Tone::Quiet,
                                joined("Played ", human_duration(stats.seconds_run).as_str()),
                            ),
                        );
                    }
                }
                if let Some(update) = update {
                    r.push((Tone::Notice, update_line(update)));
                }
            }
        },
        (None, None) => {
            r.push(
                (
                    Tone::Quiet,
                    if online {
                        "Not installed".to_owned()
                    } else {
                        "Not installed; offline".to_owned()
                    },
                ),
            );
        },
    }
    assert(line_views(r@) =~= status_lines(
        behind(cave),
        behind(install),
        running,
        behind(update),
        online,
    ));
    r
}

/// What a tile is marked with, below its cover.
#[derive(Debug, Clone, Copy, PartialEq, Eq, Structural)]
pub enum TileMark {
    /// A progress bar.
    Progress,
    Update,
    Installed,
    Nothing,
}

/// A running download outranks a waiting update, and that the mark for being installed.
pub fn tile_mark(installing: bool, updatable: bool, installed: bool) -> (r: TileMark)
    ensures
        r == TileMark::Progress <==> installing,
        r == TileMark::Update <==> !installing && updatable,
        r == TileMark::Installed <==> !installing && !updatable && installed,
{
    if installing {
        TileMark::Progress
    } else if updatable {
        TileMark::Update
    } else if installed {
        TileMark::Installed
    } else {
        TileMark::Nothing
    }
}

/// A game that runs, or whose download is going away, offers nothing to press; every other
/// game does, unless it is neither installed nor can be fetched.
pub proof fn a_page_offers_something_unless_busy(
    game_id: i64,
    cave: Option<Cave>,
    install: Option<InstallState>,
    running: bool,
    update: bool,
    online: bool,
)
    ensures
        offered(game_id, cave, install, running, update, online).len() == 0 <==> (running || (
        install is Some && install->0.cancelling) || (install is None && cave is None && !online)),
        offered(game_id, cave, install, running, update, online).len() <= 3,
{
}

/// Playing and uninstalling are offered exactly for an installed game that neither runs nor
/// downloads; updating only while online besides.
pub proof fn play_is_offered_for_installed_games(
    game_id: i64,
    cave: Cave,
    install: Option<InstallState>,
    running: bool,
    update: bool,
    online: bool,
)
    ensures
        offered(game_id, Some(cave), install, running, update, online).contains(
            ("Play"@, Action::Play { cave_id: cave.id }),
        ) <==> !running && install is None,
        offered(game_id, Some(cave), install, running, update, online).contains(
            ("Update"@, Action::Update { cave_id: cave.id }),
        ) <==> !running && install is None && update && online,
{
    let all = offered(game_id, Some(cave), install, running, update, online);
    if !running && install is None {
        assert(all[0] == ("Play"@, Action::Play { cave_id: cave.id }));
        if update && online {
            assert(all[1] == ("Update"@, Action::Update { cave_id: cave.id }));
        }
    }
}

/// A duration is told in minutes and seconds, or in hours and minutes, the smaller unit with two
/// digits wherever the larger one is told too.
pub proof fn durations_are_told_in_two_units(hours: nat, minutes: nat, seconds: nat)
    requires
        minutes < 60,
        seconds < 60,
    ensures
        seconds_text(seconds as int) == decimal(seconds) + "s"@,
        hours >= 1 ==> seconds_text((60 * hours + seconds) as int) == decimal(hours) + "m "@ + seq![
            digit(seconds / 10),
            digit(seconds % 10),
        ] + "s"@,
        duration_text((60 * minutes + seconds) as int) == decimal(minutes) + " min"@,
        hours >= 1 ==> duration_text((3600 * hours + 60 * minutes + seconds) as int) == decimal(
            hours,
        )
            + "h "@ + seq![digit(minutes / 10), digit(minutes % 10)] + "m"@,
{
    assert((60 * hours + seconds) / 60 == hours && (60 * hours + seconds) % 60 == seconds);
    assert((60 * minutes + seconds) / 60 == minutes);
    let all = 3600 * hours + 60 * minutes + seconds;
    assert(all / 60 == 60 * hours + minutes);
    assert((60 * hours + minutes) / 60 == hours && (60 * hours + minutes) % 60 == minutes);
}

/// A game's page says first what matters most: a download under way, then that the game runs,
/// then that it is installed, for how long it was played and whether an update waits; or else
/// that it is not installed.
pub proof fn pages_say_what_matters(
    cave: Option<Cave>,
    install: Option<InstallState>,
    running: bool,
    update: Option<GameUpdate>,
    online: bool,
)
    ensures
        ({
            let lines = status_lines(cave, install, running, update, online);
            &&& lines.len() > 0
            &&& install is Some ==> lines.len() == 1 && lines[0].0 == Tone::Accent
            &&& install is None && cave is Some && running ==> lines == seq![
                (Tone::Good, "Running"@),
            ]
            &&& install is None && cave is Some && !running ==> {
                &&& lines[0].0 == Tone::Good
                &&& update is Some ==> lines.last().0 == Tone::Notice
                &&& lines.len() == 1 + (if (cave->0).stats matches Some(stats) && stats.seconds_run
                    > 0 {
                    1int
                } else {
                    0
                }) + (if update is Some {
                    1int
                } else {
                    0
                })
                &&& ((cave->0).stats matches Some(stats) && stats.seconds_run > 0) ==> lines[1]
                    == (
                    Tone::Quiet,
                    "Played "@ + duration_text((cave->0).stats->0.seconds_run as int),
                )
            }
            &&& install is None && cave is None && online ==> lines == seq![
                (Tone::Quiet, "Not installed"@),
            ]
            &&& install is None && cave is None && !online ==> lines == seq![
                (Tone::Quiet, "Not installed; offline"@),
            ]
        }),
{
}

/// What a download says of itself: why it failed, or that it is being cancelled, or how far it
/// is, and while it moves also how fast and how long it takes.
pub proof fn downloads_say_how_they_go(install: InstallState)
    ensures
        install.error matches Some(error) ==> install_text(install) == "Failed: "@ + error@,
        install.error is None && install.cancelling ==> install_text(install) == "Cancelling"@,
        install.error is None && !install.cancelling && !install.moving ==> install_text(install)
            == install.stage@ + ", "@ + signed_decimal(install.percent as int) + "%"@,
        install.error is None && !install.cancelling && install.moving ==> install_text(install)
            == install.stage@ + ", "@ + signed_decimal(install.percent as int) + "%"@ + ", "@
            + size_text(install.bps as int) + "/s, "@ + seconds_text(install.eta_seconds as int)
            + " left"@,
{
}

/// An update is told by the upload it brings: a certain one as an update, a guess as a newer
/// upload, and several guesses by their number.
pub proof fn updates_are_told_by_what_they_bring(update: GameUpdate)
    ensures
        update.choices@.len() > 0 ==> (update.choices@[0].upload matches Some(upload)
            ==> update_name(update) == upload.shown_name()),
        update.choices@.len() == 0 ==> update_name(update) == "newer version"@,
        update.direct ==> update_text(update) == "Update available: "@ + update_name(update),
        !update.direct && update.choices@.len() == 1 ==> update_text(update)
            == "Newer upload available: "@ + update_name(update),
        !update.direct && update.choices@.len() > 1 ==> update_text(update) == decimal(
            update.choices@.len(),
        ) + " newer uploads available"@,
{
}

/// A running game's page offers nothing, a download under way can be cancelled, a failed one
/// retried or dismissed, an installed game played and removed, and any other installed while
/// itch.io can be reached.
pub proof fn pages_offer_what_can_be_done(
    game_id: i64,
    cave: Cave,
    install: InstallState,
    update: bool,
    online: bool,
)
    ensures
        offered(game_id, Some(cave), Some(install), true, update, online).len() == 0,
        install.cancelling ==> offered(
            game_id,
            Some(cave),
            Some(install),
            false,
            update,
            online,
        ).len() == 0,
        !install.cancelling && install.error is None ==> offered(
            game_id,
            None,
            Some(install),
            false,
            update,
            online,
        ) == seq![("Cancel"@, Action::CancelInstall { game_id })],
        !install.cancelling && install.error is Some ==> offered(
            game_id,
            None,
            Some(install),
            false,
            update,
            online,
        ) == seq![
            ("Retry"@, Action::RetryInstall { game_id }),
            ("Dismiss"@, Action::CancelInstall { game_id }),
        ],
        offered(game_id, Some(cave), None, false, update, online)[0] == (
            "Play"@,
            Action::Play { cave_id: cave.id },
        ),
        offered(game_id, Some(cave), None, false, update, online).last() == (
            "Uninstall"@,
            Action::Uninstall { cave_id: cave.id },
        ),
        offered(game_id, Some(cave), None, false, update, online).len() == (if update && online {
            3int
        } else {
            2
        }),
        update && online ==> offered(game_id, Some(cave), None, false, update, online)[1] == (
            "Update"@,
            Action::Update { cave_id: cave.id },
        ),
        online ==> offered(game_id, None, None, false, update, online) == seq![
            ("Install"@, Action::Install { game_id }),
        ],
        !online ==> offered(game_id, None, None, false, update, online).len() == 0,
{
}

} // verus!
