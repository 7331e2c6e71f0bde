//! What happens once per frame, and what a frame shows.
use std::collections::HashSet;
use vstd::prelude::*;
use crate::app::state::{
    caves_of, first_in, App, Device, News, Queue, Screen, WindowRequest, NOTICE_FOR,
    UP_TO_DATE_FOR,
};
use crate::gamepad::Poll;
use crate::glyphs::InputMode;
use crate::model::{Action, Cave, CaveExt, Direction, Download, Loadable, Page, Tab};

verus! {

broadcast use vstd::std_specs::hash::group_hash_axioms;

/// The keys that mean something.
#[derive(Debug, Clone, Copy, PartialEq, Eq, Structural)]
pub enum Key {
    Enter,
    Escape,
    Up,
    Down,
    Left,
    Right,
    Home,
    End,
    Slash,
    Q,
    E,
}

/// What the keys do, in the order in which they are looked at. While the search box has the
/// keyboard it owns the arrows and letters; only leaving it is for the page.
pub open spec fn key_map(typing: bool) -> Seq<(Key, Action)> {
    if typing {
        seq![
            (Key::Enter, Action::SearchDone),
            (Key::Escape, Action::ClearSearch),
            (Key::Down, Action::SearchDone),
        ]
    } else {
        seq![
            (Key::Up, Action::MoveFocus(Direction::Up)),
            (Key::Down, Action::MoveFocus(Direction::Down)),
            (Key::Left, Action::MoveFocus(Direction::Left)),
            (Key::Right, Action::MoveFocus(Direction::Right)),
            (Key::Home, Action::MoveFocus(Direction::Home)),
            (Key::End, Action::MoveFocus(Direction::End)),
            (Key::Enter, Action::Activate),
            (Key::Escape, Action::Back),
            (Key::Slash, Action::FocusSearch),
            (Key::Q, Action::CycleTab(-1i32)),
            (Key::E, Action::CycleTab(1)),
        ]
    }
}

/// What the keys do, in the order in which they are looked at.
pub fn keys(typing: bool) -> (r: Vec<(Key, Action)>)
    ensures
        r@ == key_map(typing),
{
    let mut r: Vec<(Key, Action)> = Vec::new();
    if typing {
        r.push((Key::Enter, Action::SearchDone));
        r.push((Key::Escape, Action::ClearSearch));
        r.push((Key::Down, Action::SearchDone));
    } else {
        r.push((Key::Up, Action::MoveFocus(Direction::Up)));
        r.push((Key::Down, Action::MoveFocus(Direction::Down)));
        r.push((Key::Left, Action::MoveFocus(Direction::Left)));
        r.push((Key::Right, Action::MoveFocus(Direction::Right)));
        r.push((Key::Home, Action::MoveFocus(Direction::Home)));
        r.push((Key::End, Action::MoveFocus(Direction::End)));
        r.push((Key::Enter, Action::Activate));
        r.push((Key::Escape, Action::Back));
        r.push((Key::Slash, Action::FocusSearch));
        r.push((Key::Q, Action::CycleTab(-1)));
        r.push((Key::E, Action::CycleTab(1)));
    }
    assert(r@ =~= key_map(typing));
    r
}

/// The device that the hints speak to after a frame's input.
pub open spec fn input_noted(device: Device, pad: Poll, keys: bool, touches: bool) -> Device {
    Device {
        input_mode: if pad.pressed {
            InputMode::Gamepad
        } else if keys {
            InputMode::Keyboard
        } else if touches {
            InputMode::Touch
        } else if pad.connected && !device.input_seen {
            // A handheld has a controller before it has a first press.
            InputMode::Gamepad
        } else {
            device.input_mode
        },
        input_seen: device.input_seen || pad.pressed || keys || touches,
        ..device
    }
}

/// How long something that began at `since` and lasts so long has left.
pub open spec fn time_left(since: u64, lasts: u64, now: u64) -> int {
    if now <= since {
        lasts as int
    } else if now - since >= lasts {
        0
    } else {
        lasts - (now - since)
    }
}

/// The report of a clean update check stands, for how long still, or has run out.
pub open spec fn report_stands(pre: App, now: u64, post: App, left: Option<u64>) -> bool {
    match pre.news.up_to_date_at {
        Some(at) => {
            let rest = time_left(at, UP_TO_DATE_FOR, now);
            if rest == 0 {
                left is None && post == (App {
                    news: News { up_to_date_at: None, ..pre.news },
                    ..pre
                })
            } else {
                left == Some(rest as u64) && post == pre
            }
        },
        None => left is None && post == pre,
    }
}

/// A notice stands, for how long still, or has run out.
pub open spec fn notice_stands(pre: App, now: u64, post: App, left: Option<u64>) -> bool {
    match pre.screen.notice {
        Some((_, since)) => {
            let rest = time_left(since, NOTICE_FOR, now);
            if rest == 0 {
                left is None && post == (App {
                    screen: Screen { notice: None, ..pre.screen },
                    ..pre
                })
            } else {
                left == Some(rest as u64) && post == pre
            }
        },
        None => left is None && post == pre,
    }
}

/// One frame of the "Quitting" overlay has gone by.
pub open spec fn frame_counted(pre: App, post: App, again: bool) -> bool {
    match pre.screen.quitting {
        Some(frames) => if frames == 0 {
            &&& !again
            &&& post == (App { window: post.window, ..pre })
            &&& post.window@ == pre.window@.push(WindowRequest::Close)
        } else {
            &&& again
            &&& post == (App {
                screen: Screen { quitting: Some((frames - 1) as u32), ..pre.screen },
                ..pre
            })
        },
        None => !again && post == pre,
    }
}

/// The toolbar stands above the page.
pub open spec fn has_toolbar(app: App) -> bool {
    app.screen.page == Page::Library && match app.screen.tab {
        Tab::Library => app.library.owned is Loaded,
        Tab::Collections => app.shelves.collections is Loaded,
        Tab::Downloads => false,
    }
}

/// The footer shows hints.
pub open spec fn has_footer(app: App) -> bool {
    app.device.input_mode != InputMode::Touch && app.library.owned is Loaded
}

fn left_of(since: u64, lasts: u64, now: u64) -> (r: u64)
    ensures
        r == time_left(since, lasts, now),
{
    if now <= since {
        lasts
    } else if now - since >= lasts {
        0
    } else {
        lasts - (now - since)
    }
}

impl App {
    pub fn note_input(&mut self, pad: Poll, keys: bool, touches: bool)
        ensures
            *final(self) == (App {
                device: input_noted(old(self).device, pad, keys, touches),
                ..*old(self)
            }),
    {
        if pad.pressed {
            self.device.input_mode = InputMode::Gamepad;
        } else if keys {
            self.device.input_mode = InputMode::Keyboard;
        } else if touches {
            self.device.input_mode = InputMode::Touch;
        } else if pad.connected && !self.device.input_seen {
            self.device.input_mode = InputMode::Gamepad;
        }
        if pad.pressed || keys || touches {
            self.device.input_seen = true;
        }
    }

    /// Lets the report of a clean update check run out. Says how long it still stands.
    pub fn expire_report(&mut self, now: u64) -> (r: Option<u64>)
        ensures
            report_stands(*old(self), now, *final(self), r),
    {
        match self.news.up_to_date_at {
            Some(at) => {
                let left = left_of(at, UP_TO_DATE_FOR, now);
                if left == 0 {
                    self.news.up_to_date_at = None;
                    None
                } else {
                    Some(left)
                }
            },
            None => None,
        }
    }

    /// Lets a notice run out. Says how long it still stands.
    pub fn expire_notice(&mut self, now: u64) -> (r: Option<u64>)
        ensures
            notice_stands(*old(self), now, *final(self), r),
    {
        let since = match &self.screen.notice {
            Some((_, since)) => *since,
            None => {
                return None;
            },
        };
        let left = left_of(since, NOTICE_FOR, now);
        if left == 0 {
            self.screen.notice = None;
            None
        } else {
            Some(left)
        }
    }

    /// Takes in what the clock on the wall says, in seconds since the start of 1970.
    pub fn tell_time(&mut self, wall: i64)
        ensures
            *final(self) == (App { queue: Queue { wall, ..old(self).queue }, ..*old(self) }),
    {
        self.queue.wall = wall;
    }

    /// Counts the frames of the "Quitting" overlay down; behind the last one the window
    /// closes. Says whether another frame is due.
    pub fn count_down(&mut self) -> (r: bool)
        ensures
            frame_counted(*old(self), *final(self), r),
    {
        match self.screen.quitting {
            Some(frames) => if frames == 0 {
                self.window.push(WindowRequest::Close);
                false
            } else {
                self.screen.quitting = Some(frames - 1);
                true
            },
            None => false,
        }
    }
}

// ---------------------------------------------------------------------------
// What a frame shows
// ---------------------------------------------------------------------------

/// What fills the page.
#[derive(Debug, Clone, Copy, PartialEq, Eq, Structural)]
pub enum PageContent {
    /// The library is loading; the backend's status line says how far.
    Loading,
    /// The library could not be had.
    Failed,
    LibraryRows,
    NoCollections,
    CollectionsFailed,
    CollectionsLoading,
    CollectionRows,
    Downloads,
    Game { id: i64, button: usize },
    /// The page of a game that is not there any more.
    Gone,
}

/// How many downloads are under way or queued.
pub open spec fn unfinished(downloads: Seq<Download>) -> nat
    decreases downloads.len(),
{
    if downloads.len() == 0 {
        0
    } else {
        unfinished(downloads.drop_last()) + (if downloads.last().finished_at is None {
            1nat
        } else {
            0
        })
    }
}

/// The games with a direct update: the installed upload has a newer version. Indirect updates
/// are guesses, mentioned only on the game page.
pub open spec fn updatable_games(app: App, caves: Seq<Cave>) -> Set<i64>
    decreases caves.len(),
{
    if caves.len() == 0 {
        Set::empty()
    } else {
        let before = updatable_games(app, caves.drop_last());
        let cave = caves.last();
        let direct = app.news.updates@.contains_key(cave.id@) && app.news.updates@[cave.id@].direct;
        match cave.game_of() {
            Some(id) if direct => before.insert(id),
            _ => before,
        }
    }
}

impl App {
    /// What fills the page.
    pub open spec fn content(&self) -> PageContent {
        match (self.library.owned, self.screen.page) {
            (Loadable::NotLoaded, _) | (Loadable::Loading, _) => PageContent::Loading,
            (Loadable::Failed(_), _) => PageContent::Failed,
            (Loadable::Loaded(_), Page::Library) => match self.screen.tab {
                Tab::Library => PageContent::LibraryRows,
                Tab::Collections => match self.shelves.collections {
                    Loadable::Loaded(collections) => if collections@.len() == 0 {
                        PageContent::NoCollections
                    } else {
                        PageContent::CollectionRows
                    },
                    Loadable::Failed(_) => PageContent::CollectionsFailed,
                    _ => PageContent::CollectionsLoading,
                },
                Tab::Downloads => PageContent::Downloads,
            },
            (Loadable::Loaded(_), Page::Game { id, button }) => match self.known_game(id) {
                Some(_) => PageContent::Game { id, button },
                None => PageContent::Gone,
            },
        }
    }

    pub fn shown_content(&self) -> (r: PageContent)
        ensures
            r == self.content(),
    {
        match &self.library.owned {
            Loadable::NotLoaded | Loadable::Loading => PageContent::Loading,
            Loadable::Failed(_) => PageContent::Failed,
            Loadable::Loaded(_) => match self.screen.page {
                Page::Library => match self.screen.tab {
                    Tab::Library => PageContent::LibraryRows,
                    Tab::Collections => match &self.shelves.collections {
                        Loadable::Loaded(collections) => if collections.len() == 0 {
                            PageContent::NoCollections
                        } else {
                            PageContent::CollectionRows
                        },
                        Loadable::Failed(_) => PageContent::CollectionsFailed,
                        _ => PageContent::CollectionsLoading,
                    },
                    Tab::Downloads => PageContent::Downloads,
                },
                Page::Game { id, button } => if self.library.catalog.contains_key(&id) {
                    PageContent::Game { id, button }
                } else {
                    PageContent::Gone
                },
            },
        }
    }

    /// Whether the toolbar stands above the page. The Downloads toolbar scrolls with its list
    /// instead.
    pub fn toolbar_shown(&self) -> (r: bool)
        ensures
            r == has_toolbar(*self),
    {
        self.screen.page.is_library() && match self.screen.tab {
            Tab::Library => self.library.owned.get().is_some(),
            Tab::Collections => self.shelves.collections.get().is_some(),
            Tab::Downloads => false,
        }
    }

    /// Whether the footer shows hints: there is something to do and a button to name.
    pub fn footer_shown(&self) -> (r: bool)
        ensures
            r == has_footer(*self),
    {
        self.device.input_mode != InputMode::Touch && self.library.owned.get().is_some()
    }

    /// How many downloads are under way or queued, for the tab strip.
    pub fn downloading(&self) -> (r: usize)
        ensures
            r == unfinished(self.queue.downloads@),
    {
        let mut r: usize = 0;
        let mut i: usize = 0;
        let n = self.queue.downloads.len();
        assert(self.queue.downloads@.take(0) =~= Seq::empty());
        while i < n
            invariant
                n == self.queue.downloads@.len(),
                i <= n,
                r <= i,
                r == unfinished(self.queue.downloads@.take(i as int)),
            decreases n - i,
        {
            assert(self.queue.downloads@.take(i + 1).drop_last()
                =~= self.queue.downloads@.take(i as int));
            if self.queue.downloads[i].finished_at.is_none() {
                r += 1;
            }
            i += 1;
        }
        assert(self.queue.downloads@.take(i as int) =~= self.queue.downloads@);
        r
    }

    /// Games with a direct update, for the grid's badges.
    pub fn updatable(&self) -> (r: HashSet<i64>)
        ensures
            r@ == updatable_games(*self, self.library.caves@),
    {
        let mut r: HashSet<i64> = HashSet::new();
        let mut i: usize = 0;
        assert(self.library.caves@.take(0) =~= Seq::empty());
        while i < self.library.caves.len()
            invariant
                i <= self.library.caves@.len(),
                r@ == updatable_games(*self, self.library.caves@.take(i as int)),
            decreases self.library.caves@.len() - i,
        {
            assert(self.library.caves@.take(i + 1).drop_last()
                =~= self.library.caves@.take(i as int));
            let cave = &self.library.caves[i];
            let direct = match self.news.updates.get(cave.id.as_str()) {
                Some(update) => update.direct,
                None => false,
            };
            if direct {
                if let Some(id) = cave.game_id() {
                    r.insert(id);
                }
            }
            i += 1;
        }
        assert(self.library.caves@.take(i as int) =~= self.library.caves@);
        r
    }

    /// When a game was launched, while it runs.
    pub fn running_since(&self, game_id: i64) -> (r: Option<u64>)
        ensures
            r == first_in(caves_of(self.library.caves@, game_id), self.play.running@),
    {
        let caves = self.caves_for(game_id);
        let ghost all = caves_of(self.library.caves@, game_id);
        let mut i: usize = 0;
        assert(all.skip(0) =~= all);
        while i < caves.len()
            invariant
                i <= caves@.len(),
                all == caves_of(self.library.caves@, game_id),
                caves@.map_values(|c: &Cave| *c) == all,
                first_in(all.skip(i as int), self.play.running@) == first_in(
                    all,
                    self.play.running@,
                ),
            decreases caves@.len() - i,
        {
            assert(all[i as int] == *caves@[i as int]);
            assert(all.skip(i as int).skip(1) =~= all.skip(i + 1));
            if let Some(since) = self.play.running.get(caves[i].id.as_str()) {
                return Some(*since);
            }
            i += 1;
        }
        None
    }

    /// Why a game's last launch failed.
    pub fn failure_for(&self, game_id: i64) -> (r: Option<&crate::model::LaunchFailure>)
        ensures
            r matches Some(failure) ==> first_in(
                caves_of(self.library.caves@, game_id),
                self.play.launch_failures@,
            ) == Some(*failure),
            r is None ==> first_in(
                caves_of(self.library.caves@, game_id),
                self.play.launch_failures@,
            ) is None,
    {
        let caves = self.caves_for(game_id);
        let ghost all = caves_of(self.library.caves@, game_id);
        let mut i: usize = 0;
        assert(all.skip(0) =~= all);
        while i < caves.len()
            invariant
                i <= caves@.len(),
                all == caves_of(self.library.caves@, game_id),
                caves@.map_values(|c: &Cave| *c) == all,
                first_in(all.skip(i as int), self.play.launch_failures@) == first_in(
                    all,
                    self.play.launch_failures@,
                ),
            decreases caves@.len() - i,
        {
            assert(all[i as int] == *caves@[i as int]);
            assert(all.skip(i as int).skip(1) =~= all.skip(i + 1));
            if let Some(failure) = self.play.launch_failures.get(caves[i].id.as_str()) {
                return Some(failure);
            }
            i += 1;
        }
        None
    }
}

/// The overlay stands for as many frames as it is set to, and behind them the window closes:
/// each frame counts one down.
pub proof fn quitting_comes_to_an_end(frames: u32, count: nat)
    requires
        count <= frames,
    ensures
        frames_left(Some(frames), count) == Some((frames - count) as u32),
    decreases count,
{
    if count > 0 {
        quitting_comes_to_an_end(frames, (count - 1) as nat);
    }
}

/// The overlay's frames after so many frames.
pub open spec fn frames_left(quitting: Option<u32>, count: nat) -> Option<u32>
    decreases count,
{
    if count == 0 {
        quitting
    } else {
        match frames_left(quitting, (count - 1) as nat) {
            Some(frames) if frames > 0 => Some((frames - 1) as u32),
            other => other,
        }
    }
}

/// The tab strip's count is that of the queue's rows.
pub proof fn the_strip_counts_the_queue(app: App)
    ensures
        unfinished(app.queue.downloads@) == app.queue_list().len(),
{
    lemma_queue_len(app.queue.downloads@);
    let pending = crate::app::downloads::ended(app.queue.downloads@, false);
    crate::order::sorting_is_stable(
        pending.map_values(|d: Download| crate::order::Ascending(d.position)),
    );
}

proof fn lemma_queue_len(downloads: Seq<Download>)
    ensures
        unfinished(downloads) == crate::app::downloads::ended(downloads, false).len(),
    decreases downloads.len(),
{
    if downloads.len() > 0 {
        lemma_queue_len(downloads.drop_last());
    }
}

/// A notice stands for eight seconds and the report of a clean check for four, and then they
/// are gone; until then it is told how much time is left.
pub proof fn notices_stand_for_their_time(pre: App, since: u64, now: u64, post: App, left: Option<u64>)
    requires
        since <= now,
    ensures
        notice_stands(pre, now, post, left) && (pre.screen.notice matches Some((_, at)) && at
            == since) ==> {
            &&& now - since < 8_000_000_000 ==> post == pre && (left matches Some(rest) && rest
                == 8_000_000_000 - (now - since))
            &&& now - since >= 8_000_000_000 ==> post.screen.notice is None && left is None
        },
        report_stands(pre, now, post, left) && pre.news.up_to_date_at == Some(since) ==> {
            &&& now - since < 4_000_000_000 ==> post == pre && (left matches Some(rest) && rest
                == 4_000_000_000 - (now - since))
            &&& now - since >= 4_000_000_000 ==> post.news.up_to_date_at is None && left is None
        },
        notice_stands(pre, now, post, left) ==> post.news == pre.news && post.commands
            == pre.commands,
        report_stands(pre, now, post, left) ==> post.screen == pre.screen && post.commands
            == pre.commands,
{
}

/// Each frame of the overlay counts one down, and the one behind the last closes the window,
/// not an earlier one.
pub proof fn the_window_closes_behind_the_last_frame(pre: App, post: App, again: bool)
    requires
        frame_counted(pre, post, again),
    ensures
        pre.screen.quitting matches Some(frames) ==> {
            &&& frames > 0 ==> again && (post.screen.quitting matches Some(rest) && rest + 1
                == frames) && post.window@ == pre.window@
            &&& frames == 0 ==> !again && post.window@ == pre.window@.push(WindowRequest::Close)
        },
        pre.screen.quitting is None ==> !again && post == pre,
{
}

/// What was touched last picks the glyphs, a press of the controller before all else; a
/// controller that is only there picks them until something is pressed.
pub proof fn the_last_input_picks_the_glyphs(device: Device, pad: Poll, keys: bool, touches: bool)
    ensures
        pad.pressed ==> input_noted(device, pad, keys, touches).input_mode == InputMode::Gamepad,
        !pad.pressed && keys ==> input_noted(device, pad, keys, touches).input_mode
            == InputMode::Keyboard,
        !pad.pressed && !keys && touches ==> input_noted(device, pad, keys, touches).input_mode
            == InputMode::Touch,
        !pad.pressed && !keys && !touches && pad.connected && !device.input_seen ==> input_noted(
            device,
            pad,
            keys,
            touches,
        ).input_mode == InputMode::Gamepad,
        !pad.pressed && !keys && !touches && (!pad.connected || device.input_seen) ==> input_noted(
            device,
            pad,
            keys,
            touches,
        ).input_mode == device.input_mode,
        input_noted(device, pad, keys, touches).input_seen <==> device.input_seen || pad.pressed
            || keys || touches,
        input_noted(device, pad, keys, touches).host == device.host,
{
}

/// The arrows move the focus their way, Enter confirms and Escape goes back; while the search
/// box has the keyboard Enter and the down arrow leave it and Escape clears it.
pub proof fn keys_mean_what_they_show()
    ensures
        key_map(false).contains((Key::Up, Action::MoveFocus(Direction::Up))),
        key_map(false).contains((Key::Down, Action::MoveFocus(Direction::Down))),
        key_map(false).contains((Key::Left, Action::MoveFocus(Direction::Left))),
        key_map(false).contains((Key::Right, Action::MoveFocus(Direction::Right))),
        key_map(false).contains((Key::Home, Action::MoveFocus(Direction::Home))),
        key_map(false).contains((Key::End, Action::MoveFocus(Direction::End))),
        key_map(false).contains((Key::Enter, Action::Activate)),
        key_map(false).contains((Key::Escape, Action::Back)),
        key_map(false).contains((Key::Slash, Action::FocusSearch)),
        key_map(false).contains((Key::Q, Action::CycleTab(-1i32))),
        key_map(false).contains((Key::E, Action::CycleTab(1i32))),
        key_map(true).contains((Key::Enter, Action::SearchDone)),
        key_map(true).contains((Key::Down, Action::SearchDone)),
        key_map(true).contains((Key::Escape, Action::ClearSearch)),
        key_map(true).len() == 3,
        forall|typing: bool, i: int, j: int|
            0 <= i < j < key_map(typing).len() ==> (#[trigger] key_map(typing)[i]).0 != (
            #[trigger] key_map(typing)[j]).0,
{
    let keys = key_map(false);
    assert(keys[0].0 == Key::Up && keys[1].0 == Key::Down && keys[2].0 == Key::Left);
    assert(keys[3].0 == Key::Right && keys[4].0 == Key::Home && keys[5].0 == Key::End);
    assert(keys[6].0 == Key::Enter && keys[7].0 == Key::Escape && keys[8].0 == Key::Slash);
    assert(keys[9].0 == Key::Q && keys[10].0 == Key::E);
    let typed = key_map(true);
    assert(typed[0].0 == Key::Enter && typed[1].0 == Key::Escape && typed[2].0 == Key::Down);
}

/// A tile wears the badge of an update exactly where an install of its game has a certain one.
pub proof fn badges_mark_certain_updates(app: App, caves: Seq<Cave>, id: i64)
    ensures
        updatable_games(app, caves).contains(id) <==> exists|i: int|
            {
                &&& 0 <= i < caves.len()
                &&& #[trigger] caves[i].game matches Some(game)
                &&& game.id == id
                &&& app.news.updates@.contains_key(caves[i].id@)
                &&& app.news.updates@[caves[i].id@].direct
            },
    decreases caves.len(),
{
    if caves.len() > 0 {
        let rest = caves.drop_last();
        let last = caves.len() - 1;
        badges_mark_certain_updates(app, rest, id);
        assert forall|i: int| 0 <= i < last implies #[trigger] caves[i] == rest[i] by {}
        if exists|i: int|
            {
                &&& 0 <= i < rest.len()
                &&& #[trigger] rest[i].game matches Some(game)
                &&& game.id == id
                &&& app.news.updates@.contains_key(rest[i].id@)
                &&& app.news.updates@[rest[i].id@].direct
            } {
            let i = choose|i: int|
                {
                    &&& 0 <= i < rest.len()
                    &&& #[trigger] rest[i].game matches Some(game)
                    &&& game.id == id
                    &&& app.news.updates@.contains_key(rest[i].id@)
                    &&& app.news.updates@[rest[i].id@].direct
                };
            assert(caves[i].game == rest[i].game);
        }
        assert(caves[last].game == caves.last().game);
    }
}

/// What fills the page: the library's rows once it has loaded, the page of a game that the
/// catalog knows, and otherwise what there is to say.
pub proof fn pages_fill_with_what_has_loaded(app: App)
    ensures
        app.library.owned is Loaded && app.screen.page == Page::Library ==> {
            &&& app.screen.tab == Tab::Library ==> app.content() == PageContent::LibraryRows
            &&& app.screen.tab == Tab::Downloads ==> app.content() == PageContent::Downloads
            &&& app.screen.tab == Tab::Collections && (app.shelves.collections matches Loadable::Loaded(
                list,
            ) && list@.len() > 0) ==> app.content() == PageContent::CollectionRows
            &&& app.screen.tab == Tab::Collections && (app.shelves.collections matches Loadable::Loaded(
                list,
            ) && list@.len() == 0) ==> app.content() == PageContent::NoCollections
            &&& app.screen.tab == Tab::Collections && app.shelves.collections is Failed
                ==> app.content() == PageContent::CollectionsFailed
            &&& app.screen.tab == Tab::Collections && (app.shelves.collections is Loading
                || app.shelves.collections is NotLoaded) ==> app.content()
                == PageContent::CollectionsLoading
        },
        app.library.owned is Loaded ==> (app.screen.page matches Page::Game { id, button }
            ==> app.content() == (if app.library.catalog@.contains_key(id) {
            PageContent::Game { id, button }
        } else {
            PageContent::Gone
        })),
        app.library.owned is Failed ==> app.content() == PageContent::Failed,
        app.library.owned is Loading || app.library.owned is NotLoaded ==> app.content()
            == PageContent::Loading,
{
}

/// The toolbar stands over the rows it filters, once they are there, and the footer once there
/// is something to do and a button to name.
pub proof fn bars_stand_where_they_serve(app: App)
    ensures
        has_toolbar(app) ==> app.screen.page == Page::Library && app.screen.tab != Tab::Downloads,
        app.screen.page == Page::Library && app.screen.tab == Tab::Library
            && app.library.owned is Loaded ==> has_toolbar(app),
        app.screen.page == Page::Library && app.screen.tab == Tab::Collections ==> (has_toolbar(app)
            <==> app.shelves.collections is Loaded),
        app.screen.tab == Tab::Library && !(app.library.owned is Loaded) ==> !has_toolbar(app),
        has_footer(app) ==> app.library.owned is Loaded,
        app.device.input_mode == InputMode::Touch ==> !has_footer(app),
        app.device.input_mode == InputMode::Keyboard || app.device.input_mode == InputMode::Gamepad
            ==> (has_footer(app) <==> app.library.owned is Loaded),
{
}

} // verus!
