//! The download queue: what each game shows of it, and what the Downloads tab lists.
use std::collections::HashMap;
use vstd::prelude::*;
use vstd::string::*;
use crate::app::state::{App, Queue};
use crate::model::{
    copy_text, Action, Cave, Direction, Download, DownloadProgress, DownloadReason, Game,
    GameUpdate, InstallState, Page,
};
use crate::moment::{ago, human_time_ago, moment, rfc3339_to_unix};
use crate::order::{arranged, sorted, stable_order, Ascending, Newest};
use crate::rows::{at_most, last_index};
use crate::size::{human_size, size_text};
use crate::text::{
    capitalize, capitalized, decimal, joined, joined3, number_text, same, signed_decimal,
    signed_text, text_of,
};
use crate::ui::{
    button_views, human_duration_seconds, name_of_update, row_views, seconds_text, update_name,
    Button, DownloadRow, DownloadRowView, DownloadSection,
};

verus! {

broadcast use vstd::std_specs::hash::group_hash_axioms;

// ---------------------------------------------------------------------------
// What each game's tile and page show
// ---------------------------------------------------------------------------

/// A game's download as the values the interface shows.
#[verifier::ext_equal]
pub struct InstallView {
    pub download_id: Seq<char>,
    pub fraction: u64,
    pub percent: i64,
    pub moving: bool,
    pub bps: i64,
    pub eta_seconds: i64,
    pub stage: Seq<char>,
    pub cancelling: bool,
    pub error: Option<Seq<char>>,
}

impl View for InstallState {
    type V = InstallView;

    open spec fn view(&self) -> InstallView {
        InstallView {
            download_id: self.download_id@,
            fraction: self.fraction,
            percent: self.percent,
            moving: self.moving,
            bps: self.bps,
            eta_seconds: self.eta_seconds,
            stage: self.stage@,
            cancelling: self.cancelling,
            error: text_of(self.error),
        }
    }
}

pub open spec fn install_views(installs: Map<i64, InstallState>) -> Map<i64, InstallView> {
    installs.map_values(|s: InstallState| s@)
}

/// Why a download stopped: butler's message, or failing that its code.
pub open spec fn failure_of(download: Download) -> Option<String> {
    match download.error_message {
        Some(message) => Some(message),
        None => download.error,
    }
}

/// Done, and nothing went wrong.
pub open spec fn is_done(download: Download) -> bool {
    download.finished_at is Some && download.error is None
}

/// What a game shows between the press and the queue's first word of it.
pub open spec fn queueing() -> InstallView {
    InstallView {
        download_id: Seq::empty(),
        fraction: 0,
        percent: 0,
        moving: false,
        bps: 0,
        eta_seconds: 0,
        stage: "Queueing"@,
        cancelling: false,
        error: None,
    }
}

impl App {
    pub open spec fn progress_of(&self, download: Download) -> Option<DownloadProgress> {
        if self.queue.progress@.contains_key(download.id@) {
            Some(self.queue.progress@[download.id@])
        } else {
            None
        }
    }

    /// What a game shows of its download.
    pub open spec fn install_view(&self, download: Download) -> InstallView {
        let progress = self.progress_of(download);
        InstallView {
            download_id: download.id@,
            fraction: match progress {
                Some(p) => p.fraction,
                None => 0,
            },
            percent: match progress {
                Some(p) => p.percent,
                None => 0,
            },
            moving: match progress {
                Some(p) => p.moving,
                None => false,
            },
            bps: match progress {
                Some(p) => p.bps,
                None => 0,
            },
            eta_seconds: match progress {
                Some(p) => p.eta,
                None => 0,
            },
            stage: match progress {
                Some(p) if p.stage@.len() > 0 => capitalized(p.stage@),
                _ => if download.started_at is Some {
                    "Starting"@
                } else {
                    "Queued"@
                },
            },
            cancelling: self.queue.discarding@.contains_key(download.id@),
            error: text_of(failure_of(download)),
        }
    }

    /// What the games of queued downloads show; of two downloads for one game the later
    /// listed counts. Downloads that are done show nothing.
    pub open spec fn queued_installs(&self, downloads: Seq<Download>) -> Map<i64, InstallView>
        decreases downloads.len(),
    {
        if downloads.len() == 0 {
            Map::empty()
        } else {
            let before = self.queued_installs(downloads.drop_last());
            let download = downloads.last();
            match download.game {
                Some(game) if !is_done(download) => before.insert(
                    game.id,
                    self.install_view(download),
                ),
                _ => before,
            }
        }
    }

    /// What every game shows: its download, or that it is being queued.
    pub open spec fn all_installs(&self) -> Map<i64, InstallView> {
        with_queueing(self.queued_installs(self.queue.downloads@), self.queue.pending_installs@)
    }

    fn install_state(&self, download: &Download) -> (r: InstallState)
        ensures
            r@ == self.install_view(*download),
    {
        let progress = self.queue.progress.get(download.id.as_str());
        let error = match &download.error_message {
            Some(message) => Some(message.clone()),
            None => copy_text(&download.error),
        };
        let cancelling = self.queue.discarding.contains_key(download.id.as_str());
        let idle = if download.started_at.is_some() {
            "Starting"
        } else {
            "Queued"
        };
        let r = match progress {
            Some(p) => InstallState {
                download_id: download.id.clone(),
                fraction: p.fraction,
                percent: p.percent,
                moving: p.moving,
                bps: p.bps,
                eta_seconds: p.eta,
                stage: if !p.stage.as_str().is_empty() {
                    capitalize(p.stage.as_str())
                } else {
                    idle.to_owned()
                },
                cancelling,
                error,
            },
            None => InstallState {
                download_id: download.id.clone(),
                fraction: 0,
                percent: 0,
                moving: false,
                bps: 0,
                eta_seconds: 0,
                stage: idle.to_owned(),
                cancelling,
                error,
            },
        };
        assert(r@ =~= self.install_view(*download));
        r
    }

    /// Derives what each game's tile and page show from the queue.
    pub fn rebuild_installs(&mut self)
        ensures
            *final(self) == (App {
                queue: Queue { installs: final(self).queue.installs, ..old(self).queue },
                ..*old(self)
            }),
            install_views(final(self).queue.installs@) == old(self).all_installs(),
    {
        let mut installs: HashMap<i64, InstallState> = HashMap::new();
        let mut i: usize = 0;
        assert(install_views(installs@) =~= self.queued_installs(self.queue.downloads@.take(0)));
        while i < self.queue.downloads.len()
            invariant
                i <= self.queue.downloads@.len(),
                install_views(installs@) == self.queued_installs(self.queue.downloads@.take(i as int)),
            decreases self.queue.downloads@.len() - i,
        {
            assert(self.queue.downloads@.take(i + 1).drop_last() =~= self.queue.downloads@.take(i as int));
            let download = &self.queue.downloads[i];
            if let Some(game) = &download.game {
                if !(download.finished_at.is_some() && download.error.is_none()) {
                    let ghost before = install_views(installs@);
                    let state = self.install_state(download);
                    let ghost view = state@;
                    installs.insert(game.id, state);
                    assert(install_views(installs@) =~= before.insert(game.id, view));
                }
            }
            i += 1;
        }
        assert(self.queue.downloads@.take(i as int) =~= self.queue.downloads@);
        let ghost queue = install_views(installs@);
        assert(queue =~= with_queueing(queue, Set::empty()));
        let ghost mut done: Set<i64> = Set::empty();
        for id in it: self.queue.pending_installs.iter()
            invariant
                queue == self.queued_installs(self.queue.downloads@),
                it.seq().unref().to_set() == self.queue.pending_installs@,
                done == it.seq().take(it.index() as int).unref().to_set(),
                it.index() == it.seq().len() ==> done == self.queue.pending_installs@,
                install_views(installs@) == with_queueing(queue, done),
        {
            let ghost before = it.seq().take(it.index() as int).unref();
            let ghost after = it.seq().take(it.index() + 1).unref();
            proof {
                assert(after =~= before.push(*id));
                assert(after.to_set() =~= before.to_set().insert(*id)) by {
                    assert forall|x: i64| after.contains(x) <==> before.contains(x) || x == *id by {
                        assert(after[before.len() as int] == *id);
                        if before.contains(x) {
                            let k = choose|k: int| 0 <= k < before.len() && before[k] == x;
                            assert(after[k] == x);
                        }
                        if after.contains(x) && x != *id {
                            let k = choose|k: int| 0 <= k < after.len() && after[k] == x;
                            assert(before[k] == x);
                        }
                    }
                }
            }
            if !installs.contains_key(id) {
                let ghost shown = install_views(installs@);
                assert(!installs@.contains_key(*id));
                assert(!shown.contains_key(*id));
                assert(!with_queueing(queue, done).contains_key(*id));
                let state = InstallState {
                    download_id: String::new(),
                    fraction: 0,
                    percent: 0,
                    moving: false,
                    bps: 0,
                    eta_seconds: 0,
                    stage: "Queueing".to_owned(),
                    cancelling: false,
                    error: None,
                };
                assert(state@ =~= queueing());
                installs.insert(*id, state);
                assert(install_views(installs@) =~= shown.insert(*id, queueing()));
                assert forall|x: i64| #[trigger] install_views(installs@).contains_key(x)
                    <==> with_queueing(queue, done.insert(*id)).contains_key(x) by {
                    assert(shown.contains_key(x) <==> with_queueing(queue, done).contains_key(x));
                }
                assert(install_views(installs@) =~= with_queueing(queue, done.insert(*id)));
            } else {
                assert(install_views(installs@).contains_key(*id));
                assert(install_views(installs@) =~= with_queueing(queue, done.insert(*id)));
            }
            proof {
                done = done.insert(*id);
            }
            assert(it.index() + 1 == it.seq().len() ==> it.seq().take(it.index() + 1) =~= it.seq());
        }
        self.queue.installs = installs;
    }
}

/// What games show, with those that are only asked for.
pub open spec fn with_queueing(queue: Map<i64, InstallView>, pending: Set<i64>) -> Map<
    i64,
    InstallView,
> {
    Map::new(
        |id: i64| queue.contains_key(id) || pending.contains(id),
        |id: i64|
            if queue.contains_key(id) {
                queue[id]
            } else {
                queueing()
            },
    )
}

// ---------------------------------------------------------------------------
// The Downloads tab
// ---------------------------------------------------------------------------

/// The downloads that have ended, or those that have not.
pub open spec fn ended(downloads: Seq<Download>, yes: bool) -> Seq<Download>
    decreases downloads.len(),
{
    if downloads.len() == 0 {
        Seq::empty()
    } else {
        let before = ended(downloads.drop_last(), yes);
        if (downloads.last().finished_at is Some) == yes {
            before.push(downloads.last())
        } else {
            before
        }
    }
}

/// butler's pending queue, in its order.
pub open spec fn queue_order(downloads: Seq<Download>) -> Seq<Download> {
    let pending = ended(downloads, false);
    arranged(pending, stable_order(pending.map_values(|d: Download| Ascending(d.position))))
}

/// Everything that has ended, done or failed, newest first.
pub open spec fn finish_order(downloads: Seq<Download>) -> Seq<Download> {
    let finished = ended(downloads, true);
    arranged(finished, stable_order(finished.map_values(|d: Download| Newest(d.finished_at))))
}

/// The first install with an id.
pub open spec fn cave_named(caves: Seq<Cave>, id: Seq<char>) -> Option<Cave>
    decreases caves.len(),
{
    if caves.len() == 0 {
        None
    } else if caves[0].id@ == id {
        Some(caves[0])
    } else {
        cave_named(caves.skip(1), id)
    }
}

/// Something for the cave is being fetched.
pub open spec fn is_fetching(downloads: Seq<Download>, cave_id: Seq<char>) -> bool {
    exists|i: int|
        0 <= i < downloads.len() && (#[trigger] downloads[i]).cave_id@ == cave_id
            && downloads[i].finished_at is None
}

/// What became of a download, in a word.
pub open spec fn outcome(reason: DownloadReason) -> Seq<char> {
    match reason {
        DownloadReason::Install => "Installed"@,
        DownloadReason::Update => "Updated"@,
        DownloadReason::Reinstall => "Reinstalled"@,
        DownloadReason::VersionSwitch => "Switched version"@,
        DownloadReason::Unknown => "Finished"@,
    }
}

/// A game's title, or a word in its place.
pub open spec fn title_or(game: Option<Game>, word: Seq<char>) -> Seq<char> {
    match game {
        Some(game) => game.title@,
        None => word,
    }
}

pub open spec fn open_page(game: Game) -> (Seq<char>, Action) {
    ("Open"@, Action::Open(Page::Game { id: game.id, button: 0 }))
}

/// What the tab says of an update. Same wording as the game page: a direct update is the
/// installed upload, newer; an indirect one is a guess.
pub open spec fn update_detail(update: GameUpdate) -> Seq<char> {
    if update.direct {
        "Update available: "@ + update_name(update)
    } else if update.choices@.len() > 1 {
        decimal(update.choices@.len()) + " newer uploads, maybe replacements"@
    } else {
        "Newer upload, maybe a replacement: "@ + update_name(update)
    }
}

pub open spec fn update_label(update: GameUpdate) -> Seq<char> {
    if update.direct {
        "Update"@
    } else if update.choices@.len() > 1 {
        "Newer uploads"@
    } else {
        "Newer upload"@
    }
}

/// When a download ended, in seconds since the start of 1970, where it says so.
pub open spec fn finished_when(download: Download) -> Option<int> {
    match download.finished_at {
        Some(finished) => moment(finished@),
        None => None,
    }
}

impl App {
    /// An update waits for the cave and nothing is fetching it yet.
    pub open spec fn awaits_update(&self, cave: Cave, direct_only: bool) -> bool {
        &&& self.news.updates@.contains_key(cave.id@)
        &&& self.news.updates@[cave.id@].direct || !direct_only
        &&& !is_fetching(self.queue.downloads@, cave.id@)
    }

    /// Caves with an update waiting that nothing is fetching yet, in library order.
    pub open spec fn awaiting(&self, caves: Seq<Cave>, direct_only: bool) -> Seq<String>
        decreases caves.len(),
    {
        if caves.len() == 0 {
            Seq::empty()
        } else {
            let before = self.awaiting(caves.drop_last(), direct_only);
            if self.awaits_update(caves.last(), direct_only) {
                before.push(caves.last().id)
            } else {
                before
            }
        }
    }

    /// The game that an update is for: the install's, or as the update has it.
    pub open spec fn updated_game(&self, cave_id: Seq<char>) -> Option<Game> {
        let of_cave = match cave_named(self.library.caves@, cave_id) {
            Some(cave) => cave.game,
            None => None,
        };
        match of_cave {
            Some(game) => Some(game),
            None => self.news.updates@[cave_id].game,
        }
    }

    pub open spec fn open_button(&self, game: Option<Game>) -> Seq<(Seq<char>, Action)> {
        match game {
            Some(game) if self.library.catalog@.contains_key(game.id) => seq![open_page(game)],
            _ => Seq::empty(),
        }
    }

    /// The row of an update that waits.
    pub open spec fn update_row(&self, cave_id: String) -> DownloadRowView {
        let update = self.news.updates@[cave_id@];
        let game = self.updated_game(cave_id@);
        DownloadRowView {
            game,
            title: title_or(game, "Game"@),
            detail: update_detail(update),
            progress: None,
            failed: false,
            section: DownloadSection::Updates,
            direct_update: update.direct,
            buttons: seq![(update_label(update), Action::Update { cave_id })] + self.open_button(
                game,
            ),
        }
    }

    pub open spec fn queue_detail(&self, download: Download) -> (Seq<char>, Option<u64>) {
        let prefix = if cave_named(self.library.caves@, download.cave_id@) is Some {
            "Update: "@
        } else {
            ""@
        };
        match self.progress_of(download) {
            Some(p) if p.moving => (
                prefix + capitalized(p.stage@) + ", "@ + signed_decimal(p.percent as int) + "%, "@
                    + size_text(p.bps as int) + "/s, "@ + seconds_text(p.eta as int) + " left"@,
                Some(p.fraction),
            ),
            Some(p) if p.stage@.len() > 0 => (
                prefix + capitalized(p.stage@) + ", "@ + signed_decimal(p.percent as int) + "%"@,
                Some(p.fraction),
            ),
            _ => if download.started_at is Some {
                (prefix + "Starting"@, Some(0))
            } else {
                (prefix + "Queued"@, None)
            },
        }
    }

    /// The row of a download that is queued or under way.
    pub open spec fn queue_row(&self, download: Download) -> DownloadRowView {
        DownloadRowView {
            game: download.game,
            title: title_or(download.game, "Download"@),
            detail: self.queue_detail(download).0,
            progress: self.queue_detail(download).1,
            failed: false,
            section: DownloadSection::Queue,
            direct_update: false,
            buttons: match download.game {
                Some(game) => seq![
                    (
                        if self.queue.discarding@.contains_key(download.id@) {
                            "Cancelling"@
                        } else {
                            "Cancel"@
                        },
                        Action::CancelInstall { game_id: game.id },
                    ),
                ],
                None => Seq::empty(),
            },
        }
    }

    /// What became of a download, and how long ago where it says when it ended.
    pub open spec fn finished_detail(&self, download: Download) -> Seq<char> {
        match failure_of(download) {
            Some(error) => "Failed, "@ + error@,
            None => match finished_when(download) {
                Some(when) => outcome(download.reason) + ", "@ + ago(self.queue.wall - when),
                None => outcome(download.reason),
            },
        }
    }

    /// The row of a download that has ended.
    pub open spec fn finished_row(&self, download: Download) -> DownloadRowView {
        let failed = failure_of(download) is Some;
        DownloadRowView {
            game: download.game,
            title: title_or(download.game, "Download"@),
            detail: self.finished_detail(download),
            progress: None,
            failed,
            section: DownloadSection::Finished,
            direct_update: false,
            buttons: if failed {
                match download.game {
                    Some(game) => seq![
                        ("Retry"@, Action::RetryInstall { game_id: game.id }),
                        ("Dismiss"@, Action::CancelInstall { game_id: game.id }),
                    ],
                    None => Seq::empty(),
                }
            } else {
                self.open_button(download.game)
            },
        }
    }

    pub open spec fn update_list(&self) -> Seq<DownloadRowView> {
        if self.news.online {
            self.awaiting(self.library.caves@, false).map_values(|id: String| self.update_row(id))
        } else {
            Seq::empty()
        }
    }

    pub open spec fn queue_list(&self) -> Seq<DownloadRowView> {
        queue_order(self.queue.downloads@).map_values(|d: Download| self.queue_row(d))
    }

    pub open spec fn finished_list(&self) -> Seq<DownloadRowView> {
        finish_order(self.queue.downloads@).map_values(|d: Download| self.finished_row(d))
    }

    /// What the Downloads tab lists, split the way the itch app splits it:
    /// updates that wait, butler's pending queue in its order, then everything that has
    /// ended, done or failed, newest first.
    pub open spec fn download_list(&self) -> Seq<DownloadRowView> {
        self.update_list() + self.queue_list() + self.finished_list()
    }
}

fn fetching(downloads: &Vec<Download>, cave_id: &str) -> (r: bool)
    ensures
        r == is_fetching(downloads@, cave_id@),
{
    let mut i: usize = 0;
    while i < downloads.len()
        invariant
            i <= downloads@.len(),
            forall|k: int|
                0 <= k < i ==> !((#[trigger] downloads@[k]).cave_id@ == cave_id@
                    && downloads@[k].finished_at is None),
        decreases downloads@.len() - i,
    {
        if downloads[i].finished_at.is_none() && same(downloads[i].cave_id.as_str(), cave_id) {
            return true;
        }
        i += 1;
    }
    false
}

/// The first install with an id.
pub fn find_cave<'a>(caves: &'a Vec<Cave>, id: &str) -> (r: Option<&'a Cave>)
    ensures
        r matches Some(cave) ==> cave_named(caves@, id@) == Some(*cave),
        r is None ==> cave_named(caves@, id@) is None,
{
    let mut i: usize = 0;
    assert(caves@.skip(0) =~= caves@);
    while i < caves.len()
        invariant
            i <= caves@.len(),
            cave_named(caves@.skip(i as int), id@) == cave_named(caves@, id@),
        decreases caves@.len() - i,
    {
        assert(caves@.skip(i as int).skip(1) =~= caves@.skip(i + 1));
        if same(caves[i].id.as_str(), id) {
            return Some(&caves[i]);
        }
        i += 1;
    }
    None
}

fn outcome_word(reason: DownloadReason) -> (r: &'static str)
    ensures
        r@ == outcome(reason),
{
    match reason {
        DownloadReason::Install => "Installed",
        DownloadReason::Update => "Updated",
        DownloadReason::Reinstall => "Reinstalled",
        DownloadReason::VersionSwitch => "Switched version",
        DownloadReason::Unknown => "Finished",
    }
}

fn title_text(game: Option<&Game>, word: &str) -> (r: String)
    ensures
        r@ == title_or(crate::ui::game_behind(game), word@),
{
    match game {
        Some(game) => game.title.clone(),
        None => word.to_owned(),
    }
}

impl App {
    /// Caves with an update waiting that nothing is fetching yet, in
    /// library order; `direct_only` leaves out butler's guesses.
    pub fn pending_updates(&self, direct_only: bool) -> (r: Vec<String>)
        ensures
            r@ == self.awaiting(self.library.caves@, direct_only),
    {
        let mut r: Vec<String> = Vec::new();
        let mut i: usize = 0;
        assert(self.library.caves@.take(0) =~= Seq::empty());
        while i < self.library.caves.len()
            invariant
                i <= self.library.caves@.len(),
                r@ == self.awaiting(self.library.caves@.take(i as int), direct_only),
            decreases self.library.caves@.len() - i,
        {
            assert(self.library.caves@.take(i + 1).drop_last() =~= self.library.caves@.take(i as int));
            let cave = &self.library.caves[i];
            if let Some(update) = self.news.updates.get(cave.id.as_str()) {
                if (update.direct || !direct_only) && !fetching(
                    &self.queue.downloads,
                    cave.id.as_str(),
                ) {
                    r.push(cave.id.clone());
                }
            }
            i += 1;
        }
        assert(self.library.caves@.take(i as int) =~= self.library.caves@);
        r
    }

    fn push_open(&self, game: Option<&Game>, buttons: &mut Vec<Button>)
        ensures
            button_views(final(buttons)@) == button_views(old(buttons)@) + self.open_button(
                crate::ui::game_behind(game),
            ),
    {
        let ghost before = button_views(buttons@);
        if let Some(game) = game {
            if self.library.catalog.contains_key(&game.id) {
                buttons.push(("Open", Action::Open(Page::Game { id: game.id, button: 0 })));
                assert(button_views(buttons@) =~= before.push(open_page(*game)));
            }
        }
        assert(button_views(buttons@) =~= before + self.open_button(
            crate::ui::game_behind(game),
        ));
    }

    fn update_entry(&self, cave_id: &String, update: &GameUpdate) -> (r: DownloadRow<'_>)
        requires
            self.news.updates@.contains_key(cave_id@),
            self.news.updates@[cave_id@] == *update,
        ensures
            r@ == self.update_row(*cave_id),
    {
        let of_cave = match find_cave(&self.library.caves, cave_id.as_str()) {
            Some(cave) => cave.game.as_ref(),
            None => None,
        };
        let game = match of_cave {
            Some(game) => Some(game),
            None => match self.news.updates.get(cave_id.as_str()) {
                Some(update) => update.game.as_ref(),
                None => None,
            },
        };
        let (detail, label) = if update.direct {
            (joined("Update available: ", name_of_update(update)), "Update")
        } else if update.choices.len() > 1 {
            (
                joined(
                    number_text(update.choices.len() as u64).as_str(),
                    " newer uploads, maybe replacements",
                ),
                "Newer uploads",
            )
        } else {
            (
                joined("Newer upload, maybe a replacement: ", name_of_update(update)),
                "Newer upload",
            )
        };
        let mut buttons: Vec<Button> = Vec::new();
        buttons.push((label, Action::Update { cave_id: cave_id.clone() }));
        assert(button_views(buttons@) =~= seq![
            (update_label(*update), Action::Update { cave_id: *cave_id }),
        ]);
        self.push_open(game, &mut buttons);
        let r = DownloadRow {
            game,
            title: title_text(game, "Game"),
            detail,
            progress: None,
            failed: false,
            section: DownloadSection::Updates,
            direct_update: update.direct,
            buttons,
        };
        assert(r@ =~= self.update_row(*cave_id));
        r
    }

    fn queue_entry<'a>(&self, download: &'a Download) -> (r: DownloadRow<'a>)
        ensures
            r@ == self.queue_row(*download),
    {
        let game = download.game.as_ref();
        let updating = find_cave(&self.library.caves, download.cave_id.as_str()).is_some();
        let mut detail = if updating {
            "Update: ".to_owned()
        } else {
            "".to_owned()
        };
        let mut buttons: Vec<Button> = Vec::new();
        if let Some(game) = game {
            let label = if self.queue.discarding.contains_key(download.id.as_str()) {
                "Cancelling"
            } else {
                "Cancel"
            };
            buttons.push((label, Action::CancelInstall { game_id: game.id }));
        }
        let mut progress: Option<u64> = None;
        let known = self.queue.progress.get(download.id.as_str());
        let mut worded = false;
        if let Some(p) = known {
            if p.moving || !p.stage.as_str().is_empty() {
                detail.append(capitalize(p.stage.as_str()).as_str());
                detail.append(", ");
                detail.append(signed_text(p.percent).as_str());
                if p.moving {
                    detail.append("%, ");
                    detail.append(human_size(p.bps).as_str());
                    detail.append("/s, ");
                    detail.append(human_duration_seconds(p.eta).as_str());
                    detail.append(" left");
                } else {
                    detail.append("%");
                }
                progress = Some(p.fraction);
                worded = true;
            }
        }
        if !worded {
            if download.started_at.is_some() {
                detail.append("Starting");
                progress = Some(0);
            } else {
                detail.append("Queued");
            }
        }
        let r = DownloadRow {
            game,
            title: title_text(game, "Download"),
            detail,
            progress,
            failed: false,
            section: DownloadSection::Queue,
            direct_update: false,
            buttons,
        };
        assert(r@.buttons =~= self.queue_row(*download).buttons);
        assert(r@ =~= self.queue_row(*download));
        r
    }

    fn finished_entry<'a>(&self, download: &'a Download) -> (r: DownloadRow<'a>)
        ensures
            r@ == self.finished_row(*download),
    {
        let game = download.game.as_ref();
        let error = match &download.error_message {
            Some(message) => Some(message),
            None => match &download.error {
                Some(error) => Some(error),
                None => None,
            },
        };
        let mut buttons: Vec<Button> = Vec::new();
        let failed = error.is_some();
        let detail = match error {
            Some(error) => {
                if let Some(game) = game {
                    buttons.push(("Retry", Action::RetryInstall { game_id: game.id }));
                    buttons.push(("Dismiss", Action::CancelInstall { game_id: game.id }));
                }
                assert(button_views(buttons@) =~= self.finished_row(*download).buttons);
                joined("Failed, ", error.as_str())
            },
            None => {
                assert(button_views(buttons@) =~= Seq::empty());
                self.push_open(game, &mut buttons);
                assert(button_views(buttons@) =~= self.finished_row(*download).buttons);
                let word = outcome_word(download.reason);
                let when = match &download.finished_at {
                    Some(finished) => rfc3339_to_unix(finished.as_str()),
                    None => None,
                };
                match when {
                    Some(when) => joined3(
                        word,
                        ", ",
                        human_time_ago(when, self.queue.wall).as_str(),
                    ),
                    None => word.to_owned(),
                }
            },
        };
        let r = DownloadRow {
            game,
            title: title_text(game, "Download"),
            detail,
            progress: None,
            failed,
            section: DownloadSection::Finished,
            direct_update: false,
            buttons,
        };
        assert(r@ =~= self.finished_row(*download));
        r
    }

    /// Which downloads have ended, or have not.
    fn pick(&self, yes: bool) -> (r: Vec<&Download>)
        ensures
            r@.map_values(|d: &Download| *d) == ended(self.queue.downloads@, yes),
    {
        let mut r: Vec<&Download> = Vec::new();
        let mut i: usize = 0;
        assert(r@.map_values(|d: &Download| *d) =~= ended(self.queue.downloads@.take(0), yes));
        while i < self.queue.downloads.len()
            invariant
                i <= self.queue.downloads@.len(),
                r@.map_values(|d: &Download| *d) == ended(self.queue.downloads@.take(i as int), yes),
            decreases self.queue.downloads@.len() - i,
        {
            let ghost before = r@.map_values(|d: &Download| *d);
            assert(self.queue.downloads@.take(i + 1).drop_last() =~= self.queue.downloads@.take(i as int));
            let download = &self.queue.downloads[i];
            if download.finished_at.is_some() == yes {
                r.push(download);
                assert(r@.map_values(|d: &Download| *d) =~= before.push(*download));
            }
            i += 1;
        }
        assert(self.queue.downloads@.take(i as int) =~= self.queue.downloads@);
        r
    }

    fn push_updates<'a>(&'a self, rows: &mut Vec<DownloadRow<'a>>)
        ensures
            row_views(final(rows)@) == row_views(old(rows)@) + self.update_list(),
    {
        let ghost before = row_views(rows@);
        if !self.news.online {
            assert(row_views(rows@) =~= before + self.update_list());
            return;
        }
        let ids = self.pending_updates(false);
        proof {
            lemma_awaiting(*self, self.library.caves@, false);
        }
        let ghost list = self.update_list();
        let mut i: usize = 0;
        assert(row_views(rows@) =~= before + list.take(0));
        while i < ids.len()
            invariant
                i <= ids@.len(),
                ids@ == self.awaiting(self.library.caves@, false),
                list == ids@.map_values(|id: String| self.update_row(id)),
                forall|k: int|
                    0 <= k < ids@.len() ==> self.news.updates@.contains_key((#[trigger] ids@[k])@),
                row_views(rows@) == before + list.take(i as int),
            decreases ids@.len() - i,
        {
            let ghost so_far = row_views(rows@);
            if let Some(update) = self.news.updates.get(ids[i].as_str()) {
                let row = self.update_entry(&ids[i], update);
                let ghost view = row@;
                rows.push(row);
                assert(row_views(rows@) =~= so_far.push(view));
                assert(row_views(rows@) =~= before + list.take(i + 1));
            }
            i += 1;
        }
        assert(list.take(i as int) =~= list);
    }

    fn push_queue<'a>(&'a self, rows: &mut Vec<DownloadRow<'a>>)
        ensures
            row_views(final(rows)@) == row_views(old(rows)@) + self.queue_list(),
    {
        let ghost before = row_views(rows@);
        let pending = self.pick(false);
        let ghost all = ended(self.queue.downloads@, false);
        let ghost wanted = all.map_values(|d: Download| Ascending(d.position));
        let mut keys: Vec<Ascending> = Vec::new();
        let mut i: usize = 0;
        while i < pending.len()
            invariant
                i <= pending@.len(),
                pending@.map_values(|d: &Download| *d) == all,
                wanted == all.map_values(|d: Download| Ascending(d.position)),
                keys@ == wanted.take(i as int),
            decreases pending@.len() - i,
        {
            assert(all[i as int] == *pending@[i as int]);
            keys.push(Ascending(pending[i].position));
            i += 1;
            assert(keys@ =~= wanted.take(i as int));
        }
        assert(keys@ =~= wanted);
        let order = sorted(&keys);
        let ghost list = self.queue_list();
        let mut k: usize = 0;
        assert(row_views(rows@) =~= before + list.take(0));
        while k < order.len()
            invariant
                k <= order@.len(),
                all == ended(self.queue.downloads@, false),
                pending@.map_values(|d: &Download| *d) == all,
                list == self.queue_list(),
                wanted == all.map_values(|d: Download| Ascending(d.position)),
                order@.map_values(|i: usize| i as int) == stable_order(wanted),
                forall|i: int| 0 <= i < order@.len() ==> (#[trigger] order@[i]) < pending@.len(),
                row_views(rows@) == before + list.take(k as int),
            decreases order@.len() - k,
        {
            let ghost so_far = row_views(rows@);
            let download = pending[order[k]];
            proof {
                assert(stable_order(wanted)[k as int] == order@[k as int]);
                assert(all[order@[k as int] as int] == *download);
            }
            let row = self.queue_entry(download);
            let ghost view = row@;
            rows.push(row);
            assert(row_views(rows@) =~= so_far.push(view));
            assert(list[k as int] == view);
            assert(row_views(rows@) =~= before + list.take(k + 1));
            k += 1;
        }
        assert(stable_order(wanted).len() == order@.len());
        assert(list.take(k as int) =~= list);
    }

    fn push_finished<'a>(&'a self, rows: &mut Vec<DownloadRow<'a>>)
        ensures
            row_views(final(rows)@) == row_views(old(rows)@) + self.finished_list(),
    {
        let ghost before = row_views(rows@);
        let finished = self.pick(true);
        let ghost all = ended(self.queue.downloads@, true);
        let ghost wanted = all.map_values(|d: Download| Newest(d.finished_at));
        let mut keys: Vec<Newest> = Vec::new();
        let mut i: usize = 0;
        while i < finished.len()
            invariant
                i <= finished@.len(),
                finished@.map_values(|d: &Download| *d) == all,
                wanted == all.map_values(|d: Download| Newest(d.finished_at)),
                keys@ == wanted.take(i as int),
            decreases finished@.len() - i,
        {
            assert(all[i as int] == *finished@[i as int]);
            keys.push(Newest(copy_text(&finished[i].finished_at)));
            i += 1;
            assert(keys@ =~= wanted.take(i as int));
        }
        assert(keys@ =~= wanted);
        let order = sorted(&keys);
        let ghost list = self.finished_list();
        let mut k: usize = 0;
        assert(row_views(rows@) =~= before + list.take(0));
        while k < order.len()
            invariant
                k <= order@.len(),
                all == ended(self.queue.downloads@, true),
                finished@.map_values(|d: &Download| *d) == all,
                list == self.finished_list(),
                wanted == all.map_values(|d: Download| Newest(d.finished_at)),
                order@.map_values(|i: usize| i as int) == stable_order(wanted),
                forall|i: int| 0 <= i < order@.len() ==> (#[trigger] order@[i]) < finished@.len(),
                row_views(rows@) == before + list.take(k as int),
            decreases order@.len() - k,
        {
            let ghost so_far = row_views(rows@);
            let download = finished[order[k]];
            proof {
                assert(stable_order(wanted)[k as int] == order@[k as int]);
                assert(all[order@[k as int] as int] == *download);
            }
            let row = self.finished_entry(download);
            let ghost view = row@;
            rows.push(row);
            assert(row_views(rows@) =~= so_far.push(view));
            assert(list[k as int] == view);
            assert(row_views(rows@) =~= before + list.take(k + 1));
            k += 1;
        }
        assert(stable_order(wanted).len() == order@.len());
        assert(list.take(k as int) =~= list);
    }

    /// What the Downloads tab lists. Finished entries stay
    /// in butler's queue until the user clears them.
    pub fn download_rows(&self) -> (r: Vec<DownloadRow<'_>>)
        ensures
            row_views(r@) == self.download_list(),
    {
        let mut rows: Vec<DownloadRow<'_>> = Vec::new();
        assert(row_views(rows@) =~= Seq::empty());
        self.push_updates(&mut rows);
        assert(row_views(rows@) =~= self.update_list());
        self.push_queue(&mut rows);
        self.push_finished(&mut rows);
        rows
    }
}

pub(crate) proof fn lemma_awaiting(app: App, caves: Seq<Cave>, direct_only: bool)
    ensures
        forall|k: int|
            0 <= k < app.awaiting(caves, direct_only).len() ==> app.news.updates@.contains_key(
                (#[trigger] app.awaiting(caves, direct_only)[k])@,
            ) && (direct_only ==> app.news.updates@[app.awaiting(caves, direct_only)[k]@].direct)
                && !is_fetching(app.queue.downloads@, app.awaiting(caves, direct_only)[k]@),
    decreases caves.len(),
{
    if caves.len() > 0 {
        let rest = caves.drop_last();
        lemma_awaiting(app, rest, direct_only);
        let before = app.awaiting(rest, direct_only);
        let all = app.awaiting(caves, direct_only);
        assert forall|k: int| 0 <= k < all.len() implies app.news.updates@.contains_key(
            (#[trigger] all[k])@,
        ) && (direct_only ==> app.news.updates@[all[k]@].direct) && !is_fetching(
            app.queue.downloads@,
            all[k]@,
        ) by {
            if k < before.len() {
                assert(all[k] == before[k]);
            }
        }
    }
}

// ---------------------------------------------------------------------------
// Focus in the list
// ---------------------------------------------------------------------------

pub open spec fn buttons_in(rows: Seq<DownloadRowView>, row: usize) -> nat {
    if row < rows.len() {
        rows[row as int].buttons.len()
    } else {
        0
    }
}

/// A focus clamped to the rows and buttons there are.
pub open spec fn clamped(focus: (usize, usize), rows: Seq<DownloadRowView>) -> (usize, usize) {
    let row = at_most(focus.0, last_index(rows.len()));
    (row, at_most(focus.1, last_index(buttons_in(rows, row))))
}

/// One step within the Downloads list.
pub open spec fn stepped(
    focus: (usize, usize),
    direction: Direction,
    rows: Seq<DownloadRowView>,
) -> (usize, usize) {
    let last = last_index(rows.len());
    let row = match direction {
        Direction::Up => if focus.0 == 0 {
            0usize
        } else {
            (focus.0 - 1) as usize
        },
        Direction::Down => if focus.0 < last {
            (focus.0 + 1) as usize
        } else {
            last
        },
        Direction::Home => 0,
        Direction::End => last,
        _ => focus.0,
    };
    let end = last_index(buttons_in(rows, row));
    let button = match direction {
        Direction::Left => if focus.1 == 0 {
            0usize
        } else {
            (focus.1 - 1) as usize
        },
        Direction::Right => if focus.1 < end {
            (focus.1 + 1) as usize
        } else {
            end
        },
        _ => focus.1,
    };
    (row, at_most(button, end))
}

fn count_buttons(rows: &Vec<DownloadRow<'_>>, row: usize) -> (r: usize)
    ensures
        r == buttons_in(row_views(rows@), row),
{
    if row < rows.len() {
        rows[row].buttons.len()
    } else {
        0
    }
}

fn last_of(len: usize) -> (r: usize)
    ensures
        r == last_index(len as nat),
{
    if len == 0 {
        0
    } else {
        len - 1
    }
}

/// One step within the Downloads list. Up off the first row is the
/// toolbar's, handled before this.
pub fn step_download_row(
    focus: (usize, usize),
    direction: Direction,
    rows: &Vec<DownloadRow<'_>>,
) -> (r: (usize, usize))
    ensures
        r == stepped(focus, direction, row_views(rows@)),
{
    let (row, button) = focus;
    let last = last_of(rows.len());
    let row: usize = match direction {
        Direction::Up => if row == 0 {
            0
        } else {
            row - 1
        },
        Direction::Down => if row < last {
            row + 1
        } else {
            last
        },
        Direction::Home => 0,
        Direction::End => last,
        _ => row,
    };
    let end = last_of(count_buttons(rows, row));
    let button: usize = match direction {
        Direction::Left => if button == 0 {
            0
        } else {
            button - 1
        },
        Direction::Right => if button < end {
            button + 1
        } else {
            end
        },
        _ => button,
    };
    (
        row,
        if button < end {
            button
        } else {
            end
        },
    )
}

impl App {
    /// The remembered Downloads focus, clamped to the rows there are: they
    /// come and go as butler works.
    pub fn downloads_row_in(&self, rows: &Vec<DownloadRow<'_>>) -> (r: (usize, usize))
        ensures
            r == clamped(self.screen.downloads_row, row_views(rows@)),
    {
        let (row, button) = self.screen.downloads_row;
        let last = last_of(rows.len());
        let row: usize = if row < last {
            row
        } else {
            last
        };
        let end = last_of(count_buttons(rows, row));
        (
            row,
            if button < end {
                button
            } else {
                end
            },
        )
    }
}

/// The focus of the Downloads list never leaves the rows and buttons there are, whatever
/// the queue did meanwhile, and a step keeps it there.
pub proof fn download_focus_stays_in_the_list(
    focus: (usize, usize),
    direction: Direction,
    rows: Seq<DownloadRowView>,
)
    requires
        rows.len() <= usize::MAX,
        forall|i: int| 0 <= i < rows.len() ==> (#[trigger] rows[i]).buttons.len() <= usize::MAX,
    ensures
        clamped(focus, rows).0 <= last_index(rows.len()),
        rows.len() > 0 ==> clamped(focus, rows).1 <= last_index(
            rows[clamped(focus, rows).0 as int].buttons.len(),
        ),
        clamped(clamped(focus, rows), rows) == clamped(focus, rows),
        clamped(stepped(clamped(focus, rows), direction, rows), rows) == stepped(
            clamped(focus, rows),
            direction,
            rows,
        ),
{
}

} // verus!
