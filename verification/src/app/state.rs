//! What the interface knows.
use std::collections::HashMap;
use std::collections::HashSet;
use vstd::prelude::*;
use crate::backend::Command;
use crate::glyphs::InputMode;
use crate::model::{
    Action, Cave, CaveExt, CollectionGames, Download, DownloadProgress, Game, GameUpdate, Host,
    InstallState, LaunchFailure, Loadable, Page, Profile, Prompt, Tab,
};
use crate::rows::{no_rows, Rows};
use crate::table::Table;

verus! {

broadcast use vstd::std_specs::hash::group_hash_axioms;

/// What is asked of the window.
#[derive(Debug, Clone, Copy, PartialEq, Eq, Structural)]
pub enum WindowRequest {
    /// Come back from being minimized.
    Restore,
    /// Take the keyboard.
    Focus,
    Minimize,
    /// Hand the pixels over.
    Screenshot,
    Close,
}

/// Per tab, the toolbar stop with controller focus, or none while
/// focus is in the list below.
#[derive(Debug, Clone, Copy, PartialEq, Eq, Structural)]
pub struct ToolbarFocus {
    pub library: Option<usize>,
    pub collections: Option<usize>,
    pub downloads: Option<usize>,
}

impl ToolbarFocus {
    pub open spec fn on(self, tab: Tab) -> Option<usize> {
        match tab {
            Tab::Library => self.library,
            Tab::Collections => self.collections,
            Tab::Downloads => self.downloads,
        }
    }

    pub open spec fn with(self, tab: Tab, focus: Option<usize>) -> ToolbarFocus {
        match tab {
            Tab::Library => ToolbarFocus { library: focus, ..self },
            Tab::Collections => ToolbarFocus { collections: focus, ..self },
            Tab::Downloads => ToolbarFocus { downloads: focus, ..self },
        }
    }

    pub fn get(&self, tab: Tab) -> (r: Option<usize>)
        ensures
            r == self.on(tab),
    {
        match tab {
            Tab::Library => self.library,
            Tab::Collections => self.collections,
            Tab::Downloads => self.downloads,
        }
    }

    pub fn set(&mut self, tab: Tab, focus: Option<usize>)
        ensures
            *final(self) == old(self).with(tab, focus),
    {
        match tab {
            Tab::Library => {
                self.library = focus;
            },
            Tab::Collections => {
                self.collections = focus;
            },
            Tab::Downloads => {
                self.downloads = focus;
            },
        }
    }
}

/// The device and how it is used.
pub struct Device {
    /// The kind of device this is.
    pub host: Host,
    /// Drawn for a handheld, which has no keyboard: the search box stays
    /// hidden until there is an on-screen one to type into.
    pub handheld: bool,
    pub minimize_while_playing: bool,
    /// The device the user touched last, which picks the footer's glyphs.
    pub input_mode: InputMode,
    /// Something has been pressed or touched this session. Until then a
    /// controller connecting picks the glyphs; after, only input does.
    pub input_seen: bool,
}

/// What is on the screen and where the focus is.
pub struct Screen {
    pub page: Page,
    pub tab: Tab,
    /// The focused item while the menu drawer is open.
    pub menu: Option<usize>,
    /// Frames of the "Quitting" overlay left to show before the window is
    /// asked to close. The backend join that follows the close blocks the
    /// last frame on screen, so it must be one that already says Quitting;
    /// a few frames also let a pending screenshot read back first.
    pub quitting: Option<u32>,
    pub toolbar_focus: ToolbarFocus,
    /// The row and button with focus on the Downloads list.
    pub downloads_row: (usize, usize),
    /// A question from the backend, shown over everything until answered.
    pub prompt: Option<Prompt>,
    /// Questions that arrived while another was showing, oldest first.
    pub prompt_queue: Vec<Prompt>,
    /// A failure with no page of its own, shown briefly above the footer.
    pub notice: Option<(String, u64)>,
    /// The backend's latest progress line, shown while the library loads.
    pub status: String,
}

/// The search box.
pub struct Search {
    pub query: String,
    /// Move keyboard focus into the search box on the next frame.
    pub focus_search: bool,
    /// Take keyboard focus out of the search box on the next frame.
    pub blur_search: bool,
}

/// What the account owns and what is installed.
pub struct Library {
    pub profile: Option<Profile>,
    /// Games the profile has a key for, in butler's order (newest first).
    pub owned: Loadable<Vec<Game>>,
    pub caves: Vec<Cave>,
    /// Every game the screen can show, owned or installed, by id.
    pub catalog: HashMap<i64, Game>,
    pub installed: HashSet<i64>,
    /// Hide games with no upload for this device, on every tab.
    pub playable_only: bool,
    /// The Library tab's carousels.
    pub rows: Rows,
}

/// The collections.
pub struct Shelves {
    pub collections: Loadable<Vec<CollectionGames>>,
    /// Show only installed games on the Collections tab.
    pub collections_installed_only: bool,
    /// Installed games per collection from butler's filter, or `None` while
    /// unknown; no collection is listed twice. Cleared whenever the installs change.
    pub collection_installed: Option<Vec<(i64, Vec<Game>)>>,
    /// Collections with a page request in flight.
    pub collection_loading: HashSet<i64>,
    /// The Collections tab's carousels, one per collection.
    pub collection_rows: Rows,
}

/// The downloads.
pub struct Queue {
    /// butler's download queue and the latest progress per download.
    pub downloads: Vec<Download>,
    pub progress: Table<DownloadProgress>,
    /// What the clock on the wall says, in seconds since the start of 1970.
    pub wall: i64,
    /// Games the user asked to install that the queue has not listed yet.
    pub pending_installs: HashSet<i64>,
    /// Downloads the user asked to discard that the queue still lists.
    pub discarding: Table<()>,
    /// What the interface shows per game, rebuilt from the fields above.
    pub installs: HashMap<i64, InstallState>,
    /// Why a game's last install failed, shown on its page until the next
    /// attempt.
    pub install_failures: HashMap<i64, String>,
}

/// The games that run.
pub struct Play {
    /// Games in flight, by cave id, with when they were launched.
    pub running: Table<u64>,
    /// Why the last launch of a cave failed, until it is launched again.
    pub launch_failures: Table<LaunchFailure>,
}

/// What is new on itch.io, and whether it can be reached.
pub struct News {
    /// Updates butler found, by cave.
    pub updates: Table<GameUpdate>,
    /// An update check the user asked for is still running.
    pub checking_updates: bool,
    /// When a check the user asked for last came back with nothing; the
    /// button says so for a moment.
    pub up_to_date_at: Option<u64>,
    /// A library refresh the user asked for is still running.
    pub refreshing: bool,
    /// Whether butler can reach itch.io; installs and updates need it.
    pub online: bool,
}

pub struct App {
    pub device: Device,
    pub screen: Screen,
    pub search: Search,
    pub library: Library,
    pub shelves: Shelves,
    pub queue: Queue,
    pub play: Play,
    pub news: News,
    /// What was asked for and not applied yet, oldest first.
    pub actions: Vec<Action>,
    /// What the backend is to do, oldest first.
    pub commands: Vec<Command>,
    /// What the window is to do, oldest first.
    pub window: Vec<WindowRequest>,
}

/// Frames the "Quitting" overlay is held before the window closes.
/// Long enough to paint and to finish a screenshot readback.
pub const QUIT_FRAMES: u32 = 3;

/// How long a notice stays up; Back dismisses it sooner.
pub const NOTICE_FOR: u64 = 8_000_000_000;

/// How long the update button reports a clean check.
pub const UP_TO_DATE_FOR: u64 = 4_000_000_000;

/// The elements of a loaded list.
pub open spec fn loaded<T>(list: Loadable<Vec<T>>) -> Seq<T> {
    match list {
        Loadable::Loaded(items) => items@,
        _ => Seq::empty(),
    }
}

/// The installs of a game, in library order.
pub open spec fn caves_of(caves: Seq<Cave>, game_id: i64) -> Seq<Cave>
    decreases caves.len(),
{
    if caves.len() == 0 {
        Seq::empty()
    } else {
        let before = caves_of(caves.drop_last(), game_id);
        if caves.last().game_of() == Some(game_id) {
            before.push(caves.last())
        } else {
            before
        }
    }
}

/// The first install of those that has an entry in a table.
pub open spec fn first_in<V>(caves: Seq<Cave>, table: Map<Seq<char>, V>) -> Option<V>
    decreases caves.len(),
{
    if caves.len() == 0 {
        None
    } else if table.contains_key(caves[0].id@) {
        Some(table[caves[0].id@])
    } else {
        first_in(caves.skip(1), table)
    }
}

impl App {
    /// The rows are in order.
    pub open spec fn wf(&self) -> bool {
        self.library.rows@.wf() && self.shelves.collection_rows@.wf()
    }

    pub open spec fn known_game(&self, id: i64) -> Option<Game> {
        if self.library.catalog@.contains_key(id) {
            Some(self.library.catalog@[id])
        } else {
            None
        }
    }

    pub open spec fn install_of(&self, id: i64) -> Option<InstallState> {
        if self.queue.installs@.contains_key(id) {
            Some(self.queue.installs@[id])
        } else {
            None
        }
    }

    /// The update that waits for a game.
    pub open spec fn update_of(&self, game_id: i64) -> Option<GameUpdate> {
        first_in(caves_of(self.library.caves@, game_id), self.news.updates@)
    }

    /// Whether one of a game's installs runs.
    pub open spec fn runs(&self, game_id: i64) -> bool {
        exists|i: int|
            0 <= i < self.library.caves@.len() && (#[trigger] self.library.caves@[i]).game_of() == Some(game_id)
                && self.play.running@.contains_key(self.library.caves@[i].id@)
    }

    /// The first install of a game.
    pub open spec fn cave_of(&self, game_id: i64) -> Option<Cave> {
        let caves = caves_of(self.library.caves@, game_id);
        if caves.len() > 0 {
            Some(caves[0])
        } else {
            None
        }
    }

    /// What a game's page offers.
    pub open spec fn page_buttons(&self, id: i64) -> Seq<(Seq<char>, Action)> {
        crate::ui::offered(
            id,
            self.cave_of(id),
            self.install_of(id),
            self.runs(id),
            self.update_of(id) is Some,
            self.news.online,
        )
    }

    /// An interface that knows nothing yet but what the clock on the wall says.
    pub fn new(host: Host, minimize_while_playing: bool, wall: i64) -> (r: Self)
        ensures
            r.wf(),
            r.device == (Device {
                host,
                handheld: false,
                minimize_while_playing,
                input_mode: InputMode::Keyboard,
                input_seen: false,
            }),
            r.screen == (Screen {
                page: Page::Library,
                tab: Tab::Library,
                menu: None,
                quitting: None,
                toolbar_focus: ToolbarFocus { library: None, collections: None, downloads: None },
                downloads_row: (0usize, 0usize),
                prompt: None,
                prompt_queue: r.screen.prompt_queue,
                notice: None,
                status: r.screen.status,
            }),
            r.screen.prompt_queue@.len() == 0 && r.screen.status@.len() == 0,
            r.search.query@.len() == 0 && !r.search.focus_search && !r.search.blur_search,
            r.library.profile is None && r.library.owned is Loading && !r.library.playable_only,
            r.library.caves@.len() == 0 && r.library.rows@ == no_rows(),
            r.library.catalog@ == Map::<i64, Game>::empty(),
            r.library.installed@ == Set::<i64>::empty(),
            r.shelves.collections is NotLoaded && r.shelves.collection_installed is None,
            !r.shelves.collections_installed_only,
            r.shelves.collection_loading@ == Set::<i64>::empty(),
            r.shelves.collection_rows@ == no_rows(),
            r.queue.downloads@.len() == 0,
            r.queue.progress@ == Map::<Seq<char>, DownloadProgress>::empty(),
            r.queue.wall == wall,
            r.queue.pending_installs@ == Set::<i64>::empty(),
            r.queue.discarding@ == Map::<Seq<char>, ()>::empty(),
            r.queue.installs@ == Map::<i64, InstallState>::empty(),
            r.queue.install_failures@ == Map::<i64, String>::empty(),
            r.play.running@ == Map::<Seq<char>, u64>::empty(),
            r.play.launch_failures@ == Map::<Seq<char>, LaunchFailure>::empty(),
            r.news.updates@ == Map::<Seq<char>, GameUpdate>::empty(),
            !r.news.checking_updates && !r.news.refreshing && r.news.online,
            r.news.up_to_date_at is None,
            r.actions@.len() == 0 && r.commands@.len() == 0 && r.window@.len() == 0,
    {
        App {
            device: Device {
                host,
                handheld: false,
                minimize_while_playing,
                input_mode: InputMode::Keyboard,
                input_seen: false,
            },
            screen: Screen {
                page: Page::Library,
                tab: Tab::Library,
                menu: None,
                quitting: None,
                toolbar_focus: ToolbarFocus { library: None, collections: None, downloads: None },
                downloads_row: (0, 0),
                prompt: None,
                prompt_queue: Vec::new(),
                notice: None,
                status: String::new(),
            },
            search: Search { query: String::new(), focus_search: false, blur_search: false },
            library: Library {
                profile: None,
                owned: Loadable::Loading,
                caves: Vec::new(),
                catalog: HashMap::new(),
                installed: HashSet::new(),
                playable_only: false,
                rows: Rows::new(),
            },
            shelves: Shelves {
                collections: Loadable::NotLoaded,
                collections_installed_only: false,
                collection_installed: None,
                collection_loading: HashSet::new(),
                collection_rows: Rows::new(),
            },
            queue: Queue {
                downloads: Vec::new(),
                progress: Table::new(),
                wall,
                pending_installs: HashSet::new(),
                discarding: Table::new(),
                installs: HashMap::new(),
                install_failures: HashMap::new(),
            },
            play: Play { running: Table::new(), launch_failures: Table::new() },
            news: News {
                updates: Table::new(),
                checking_updates: false,
                up_to_date_at: None,
                refreshing: false,
                online: true,
            },
            actions: Vec::new(),
            commands: Vec::new(),
            window: Vec::new(),
        }
    }

    /// A game's installs, in library order.
    pub fn caves_for(&self, game_id: i64) -> (r: Vec<&Cave>)
        ensures
            r@.map_values(|c: &Cave| *c) == caves_of(self.library.caves@, game_id),
    {
        let mut r: Vec<&Cave> = Vec::new();
        let mut i: usize = 0;
        assert(r@.map_values(|c: &Cave| *c) =~= caves_of(self.library.caves@.take(0), game_id));
        while i < self.library.caves.len()
            invariant
                i <= self.library.caves@.len(),
                r@.map_values(|c: &Cave| *c) == caves_of(self.library.caves@.take(i as int), game_id),
            decreases self.library.caves@.len() - i,
        {
            let ghost before = r@.map_values(|c: &Cave| *c);
            assert(self.library.caves@.take(i + 1).drop_last() =~= self.library.caves@.take(i as int));
            let cave = &self.library.caves[i];
            if cave.game_id() == Some(game_id) {
                r.push(cave);
                assert(r@.map_values(|c: &Cave| *c) =~= before.push(*cave));
            }
            i += 1;
        }
        assert(self.library.caves@.take(i as int) =~= self.library.caves@);
        r
    }

    pub fn game(&self, id: i64) -> (r: Option<&Game>)
        ensures
            r matches Some(game) ==> self.known_game(id) == Some(*game),
            r is None ==> self.known_game(id) is None,
    {
        self.library.catalog.get(&id)
    }

    pub fn update_for(&self, game_id: i64) -> (r: Option<&GameUpdate>)
        ensures
            r matches Some(update) ==> self.update_of(game_id) == Some(*update),
            r is None ==> self.update_of(game_id) is None,
    {
        let caves = self.caves_for(game_id);
        let ghost all = caves_of(self.library.caves@, game_id);
        let mut i: usize = 0;
        assert(all.skip(0) =~= all);
        while i < caves.len()
            invariant
                i <= caves@.len(),
                all == caves_of(self.library.caves@, game_id),
                caves@.map_values(|c: &Cave| *c) == all,
                first_in(all.skip(i as int), self.news.updates@) == first_in(all, self.news.updates@),
            decreases caves@.len() - i,
        {
            assert(all[i as int] == *caves@[i as int]);
            assert(all.skip(i as int).skip(1) =~= all.skip(i + 1));
            if let Some(update) = self.news.updates.get(caves[i].id.as_str()) {
                return Some(update);
            }
            i += 1;
        }
        None
    }

    pub fn is_running(&self, game_id: i64) -> (r: bool)
        ensures
            r == self.runs(game_id),
    {
        let mut i: usize = 0;
        while i < self.library.caves.len()
            invariant
                i <= self.library.caves@.len(),
                forall|k: int|
                    0 <= k < i ==> !((#[trigger] self.library.caves@[k]).game_of() == Some(game_id)
                        && self.play.running@.contains_key(self.library.caves@[k].id@)),
            decreases self.library.caves@.len() - i,
        {
            let cave = &self.library.caves[i];
            if cave.game_id() == Some(game_id) && self.play.running.contains_key(cave.id.as_str()) {
                return true;
            }
            i += 1;
        }
        false
    }

    /// The buttons of a game's page.
    pub fn buttons_for(&self, game: &Game) -> (r: Vec<crate::ui::Button>)
        ensures
            crate::ui::button_views(r@) == self.page_buttons(game.id),
    {
        let caves = self.caves_for(game.id);
        let update = self.update_for(game.id);
        let install = self.queue.installs.get(&game.id);
        let running = self.is_running(game.id);
        let r = crate::ui::game_buttons(game, &caves, install, running, update, self.news.online);
        proof {
            let all = caves_of(self.library.caves@, game.id);
            assert(all.len() == caves@.len());
            if caves@.len() > 0 {
                assert(all[0] == *caves@[0]);
            }
            assert(crate::ui::first_cave(caves@) == self.cave_of(game.id));
            assert(crate::ui::behind(install) == self.install_of(game.id));
        }
        r
    }
}

/// The installs of a game are those whose game it is, in the order of the library.
pub proof fn installs_of_a_game(caves: Seq<Cave>, game_id: i64, cave: Cave)
    ensures
        caves_of(caves, game_id).contains(cave) <==> caves.contains(cave) && (
        cave.game matches Some(game) && game.id == game_id),
        crate::lists::in_order_of(caves_of(caves, game_id), caves),
{
    let keep = |c: Cave| c.game matches Some(game) && game.id == game_id;
    lemma_caves_of(caves, game_id, keep);
    crate::lists::filtering_keeps_what_passes(caves, keep);
}

proof fn lemma_caves_of(caves: Seq<Cave>, game_id: i64, keep: spec_fn(Cave) -> bool)
    requires
        forall|c: Cave| #[trigger] keep(c) == (c.game matches Some(game) && game.id == game_id),
    ensures
        caves_of(caves, game_id) == caves.filter(keep),
    decreases caves.len(),
{
    reveal(Seq::filter);
    if caves.len() > 0 {
        lemma_caves_of(caves.drop_last(), game_id, keep);
        assert(keep(caves.last()) == (caves.last().game matches Some(game) && game.id == game_id));
    } else {
        assert(caves.filter(keep) =~= Seq::empty());
    }
}

/// Of the installs that a table knows, the first one counts; without any there is nothing.
pub proof fn the_first_known_install_counts<V>(caves: Seq<Cave>, table: Map<Seq<char>, V>, i: int)
    requires
        0 <= i <= caves.len(),
        forall|k: int| 0 <= k < i ==> !table.contains_key((#[trigger] caves[k]).id@),
        i < caves.len() ==> table.contains_key(caves[i].id@),
    ensures
        i < caves.len() ==> first_in(caves, table) == Some(table[caves[i].id@]),
        i == caves.len() ==> first_in(caves, table) is None,
    decreases i,
{
    if i > 0 {
        let rest = caves.skip(1);
        assert forall|k: int| 0 <= k < i - 1 implies !table.contains_key((#[trigger] rest[k]).id@) by {
            assert(rest[k] == caves[k + 1]);
        }
        if i < caves.len() {
            assert(rest[i - 1] == caves[i]);
        }
        the_first_known_install_counts(rest, table, i - 1);
        assert(!table.contains_key(caves[0].id@));
    }
}

/// Each tab keeps its own place on the toolbar: setting one changes that one and no other.
pub proof fn tabs_keep_their_own_place(focus: ToolbarFocus, tab: Tab, other: Tab, place: Option<usize>)
    ensures
        focus.with(tab, place).on(tab) == place,
        other != tab ==> focus.with(tab, place).on(other) == focus.on(other),
        focus.on(Tab::Library) == focus.library,
        focus.on(Tab::Collections) == focus.collections,
        focus.on(Tab::Downloads) == focus.downloads,
{
}

} // verus!
