//! Types shared between the backend and the interface.
use vstd::prelude::*;

verus! {

/// A copy of an optional text.
pub fn copy_text(text: &Option<String>) -> (r: Option<String>)
    ensures
        r == *text,
{
    match text {
        Some(t) => Some(t.clone()),
        None => None,
    }
}

/// What kind of thing a page on itch.io offers.
#[derive(Debug, Clone, Copy, PartialEq, Eq, Structural)]
pub enum GameClassification {
    Game,
    Tool,
    Assets,
    GameMod,
    PhysicalGame,
    Soundtrack,
    Comic,
    Book,
    Other,
    Unknown,
}

/// The operating systems that something has a build for.
#[derive(Debug, Clone, Copy, PartialEq, Eq, Structural)]
pub struct Platforms {
    pub windows: bool,
    pub linux: bool,
    pub osx: bool,
}

/// The operating system the program runs on.
#[derive(Debug, Clone, Copy, PartialEq, Eq, Structural)]
pub enum Host {
    Linux,
    Mac,
    Windows,
}

/// A game's page.
#[derive(Debug, PartialEq, Eq)]
pub struct Game {
    pub id: i64,
    pub title: String,
    pub short_text: Option<String>,
    pub classification: GameClassification,
    pub platforms: Platforms,
    pub cover_url: Option<String>,
    pub still_cover_url: Option<String>,
}

impl Clone for Game {
    fn clone(&self) -> (r: Self)
        ensures
            r == *self,
    {
        Game {
            id: self.id,
            title: self.title.clone(),
            short_text: copy_text(&self.short_text),
            classification: self.classification,
            platforms: self.platforms,
            cover_url: copy_text(&self.cover_url),
            still_cover_url: copy_text(&self.still_cover_url),
        }
    }
}

/// What a file that a game's page offers is.
#[derive(Debug, Clone, Copy, PartialEq, Eq, Structural)]
pub enum UploadType {
    Default,
    Flash,
    Unity,
    Java,
    HTML,
    Soundtrack,
    Book,
    Video,
    Documentation,
    Mod,
    AudioAssets,
    GraphicalAssets,
    Sourcecode,
    Other,
    Unknown,
}

/// A file that a game's page offers.
#[derive(Debug, PartialEq, Eq)]
pub struct Upload {
    pub id: i64,
    pub filename: String,
    pub display_name: String,
    pub size: i64,
    pub demo: bool,
    pub kind: UploadType,
    pub platforms: Platforms,
}

impl Clone for Upload {
    fn clone(&self) -> (r: Self)
        ensures
            r == *self,
    {
        Upload {
            id: self.id,
            filename: self.filename.clone(),
            display_name: self.display_name.clone(),
            size: self.size,
            demo: self.demo,
            kind: self.kind,
            platforms: self.platforms,
        }
    }
}

/// How much an install has been used.
#[derive(Debug, PartialEq, Eq)]
pub struct CaveStats {
    pub installed_at: Option<String>,
    pub last_touched_at: Option<String>,
    pub seconds_run: i64,
}

impl Clone for CaveStats {
    fn clone(&self) -> (r: Self)
        ensures
            r == *self,
    {
        CaveStats {
            installed_at: copy_text(&self.installed_at),
            last_touched_at: copy_text(&self.last_touched_at),
            seconds_run: self.seconds_run,
        }
    }
}

/// An installed game.
#[derive(Debug, PartialEq, Eq)]
pub struct Cave {
    pub id: String,
    pub game: Option<Game>,
    pub upload: Option<Upload>,
    pub stats: Option<CaveStats>,
    /// Bytes on disk, where known.
    pub installed_size: Option<i64>,
}

impl Clone for Cave {
    fn clone(&self) -> (r: Self)
        ensures
            r == *self,
    {
        Cave {
            id: self.id.clone(),
            game: match &self.game {
                Some(game) => Some(game.clone()),
                None => None,
            },
            upload: match &self.upload {
                Some(upload) => Some(upload.clone()),
                None => None,
            },
            stats: match &self.stats {
                Some(stats) => Some(stats.clone()),
                None => None,
            },
            installed_size: self.installed_size,
        }
    }
}

/// What a download is for.
#[derive(Debug, Clone, Copy, PartialEq, Eq, Structural)]
pub enum DownloadReason {
    Install,
    Update,
    Reinstall,
    VersionSwitch,
    Unknown,
}

/// An entry of butler's download queue.
#[derive(Debug, PartialEq, Eq)]
pub struct Download {
    pub id: String,
    pub error: Option<String>,
    pub error_message: Option<String>,
    pub reason: DownloadReason,
    pub position: i64,
    pub cave_id: String,
    pub game: Option<Game>,
    pub started_at: Option<String>,
    pub finished_at: Option<String>,
}

/// How far a download has come.
#[derive(Debug, PartialEq, Eq)]
pub struct DownloadProgress {
    /// What butler is doing right now: downloading, installing, and so on.
    pub stage: String,
    /// How much is done, 0 to 1, as the bits of a double; only for the bar.
    pub fraction: u64,
    /// How much is done, to the nearest percent.
    pub percent: i64,
    /// Whether anything is coming in.
    pub moving: bool,
    /// Whole bytes per second.
    pub bps: i64,
    /// Whole seconds left.
    pub eta: i64,
}

/// A newer upload or build that an update could bring.
#[derive(Debug, PartialEq, Eq)]
pub struct GameUpdateChoice {
    pub upload: Option<Upload>,
    pub build_id: Option<i64>,
}

impl Clone for GameUpdateChoice {
    fn clone(&self) -> (r: Self)
        ensures
            r == *self,
    {
        GameUpdateChoice {
            upload: match &self.upload {
                Some(upload) => Some(upload.clone()),
                None => None,
            },
            build_id: self.build_id,
        }
    }
}

/// An update butler found for an install.
#[derive(Debug, PartialEq, Eq)]
pub struct GameUpdate {
    pub cave_id: String,
    pub game: Option<Game>,
    /// The installed upload itself has a newer version; otherwise a guess.
    pub direct: bool,
    pub choices: Vec<GameUpdateChoice>,
}

/// Two records of an update that say the same.
pub open spec fn same_update(a: GameUpdate, b: GameUpdate) -> bool {
    &&& a.cave_id == b.cave_id
    &&& a.game == b.game
    &&& a.direct == b.direct
    &&& a.choices@ == b.choices@
}

impl Clone for GameUpdate {
    fn clone(&self) -> (r: Self)
        ensures
            same_update(r, *self),
    {
        let mut choices: Vec<GameUpdateChoice> = Vec::new();
        let mut i: usize = 0;
        while i < self.choices.len()
            invariant
                i <= self.choices@.len(),
                choices@ == self.choices@.take(i as int),
            decreases self.choices@.len() - i,
        {
            choices.push(self.choices[i].clone());
            i += 1;
        }
        assert(choices@ =~= self.choices@);
        GameUpdate {
            cave_id: self.cave_id.clone(),
            game: match &self.game {
                Some(game) => Some(game.clone()),
                None => None,
            },
            direct: self.direct,
            choices,
        }
    }
}

#[derive(Debug, PartialEq, Eq)]
pub struct User {
    pub username: String,
    pub display_name: String,
}

/// A signed-in account, as butler remembers it.
#[derive(Debug, PartialEq, Eq)]
pub struct Profile {
    pub id: i64,
    pub user: Option<User>,
    pub last_connected: Option<String>,
}

#[derive(Debug, PartialEq, Eq)]
pub struct Collection {
    pub id: i64,
    pub title: String,
    pub games_count: i64,
}

/// Why a launch failed: the message, and the last lines of the log.
#[derive(Debug, PartialEq, Eq)]
pub struct LaunchFailure {
    pub message: String,
    pub log: Vec<String>,
}

// ---------------------------------------------------------------------------
// Names
// ---------------------------------------------------------------------------

pub trait UserExt {
    /// The display name, or the username when none is set.
    fn name(&self) -> &str;
}

impl User {
    pub open spec fn shown_name(&self) -> Seq<char> {
        if self.display_name@.len() == 0 {
            self.username@
        } else {
            self.display_name@
        }
    }
}

impl UserExt for User {
    fn name(&self) -> (r: &str)
        ensures
            r@ == self.shown_name(),
    {
        if self.display_name.as_str().is_empty() {
            self.username.as_str()
        } else {
            self.display_name.as_str()
        }
    }
}

pub trait UploadExt {
    /// The display name, or the file's name, or at least a word.
    fn name(&self) -> &str;
}

impl Upload {
    pub open spec fn shown_name(&self) -> Seq<char> {
        if self.display_name@.len() > 0 {
            self.display_name@
        } else if self.filename@.len() > 0 {
            self.filename@
        } else {
            "upload"@
        }
    }
}

impl UploadExt for Upload {
    fn name(&self) -> (r: &str)
        ensures
            r@ == self.shown_name(),
    {
        if !self.display_name.as_str().is_empty() {
            self.display_name.as_str()
        } else if !self.filename.as_str().is_empty() {
            self.filename.as_str()
        } else {
            "upload"
        }
    }
}

pub trait CaveExt {
    fn game_id(&self) -> Option<i64>;
}

impl Cave {
    pub open spec fn game_of(&self) -> Option<i64> {
        match self.game {
            Some(game) => Some(game.id),
            None => None,
        }
    }
}

impl CaveExt for Cave {
    fn game_id(&self) -> (r: Option<i64>)
        ensures
            r == self.game_of(),
    {
        match &self.game {
            Some(game) => Some(game.id),
            None => None,
        }
    }
}

/// The image that a web address names is a GIF.
pub open spec fn is_gif(url: Seq<char>) -> bool {
    crate::text::lowercase(crate::text::split(url, '.').last()) == "gif"@
}

impl Game {
    /// The animated cover, when the game has one distinct from its still.
    pub open spec fn moving_cover(&self) -> Option<String> {
        match self.cover_url {
            Some(cover) if is_gif(cover@) && (match self.still_cover_url {
                Some(still) => still@ != cover@,
                None => true,
            }) => Some(cover),
            _ => None,
        }
    }

    /// The still cover, or failing that whatever cover there is.
    pub open spec fn shown_cover(&self) -> Option<String> {
        match self.still_cover_url {
            Some(still) => Some(still),
            None => self.cover_url,
        }
    }

    /// The animated cover, when the game has one distinct from its still.
    pub fn animated_cover(&self) -> (r: Option<&String>)
        ensures
            r matches Some(cover) ==> self.moving_cover() == Some(*cover),
            r is None ==> self.moving_cover() is None,
    {
        match &self.cover_url {
            Some(cover) => {
                let parts = crate::text::split_at_each(cover.as_str(), '.');
                let ending = crate::text::to_lowercase(parts[parts.len() - 1].as_str());
                if !crate::text::same(ending.as_str(), "gif") {
                    return None;
                }
                match &self.still_cover_url {
                    Some(still) => if *still == *cover {
                        None
                    } else {
                        Some(cover)
                    },
                    None => Some(cover),
                }
            },
            None => None,
        }
    }

    /// The picture to show for the game: the still frame of an animated cover.
    pub fn cover(&self) -> (r: Option<&String>)
        ensures
            r matches Some(cover) ==> self.shown_cover() == Some(*cover),
            r is None ==> self.shown_cover() is None,
    {
        match &self.still_cover_url {
            Some(still) => Some(still),
            None => match &self.cover_url {
                Some(cover) => Some(cover),
                None => None,
            },
        }
    }
}

// ---------------------------------------------------------------------------
// Which games a row shows
// ---------------------------------------------------------------------------

/// Whether a game has an upload for this device.
pub open spec fn is_playable(host: Host, game: Game) -> bool {
    match host {
        Host::Linux => game.platforms.linux,
        Host::Mac => game.platforms.osx,
        Host::Windows => game.platforms.windows,
    }
}

pub fn playable_here(host: Host, game: &Game) -> (r: bool)
    ensures
        r == is_playable(host, *game),
{
    match host {
        Host::Linux => game.platforms.linux,
        Host::Mac => game.platforms.osx,
        Host::Windows => game.platforms.windows,
    }
}

/// The remainder that is never negative.
pub open spec fn wrapped(index: int, len: int) -> int {
    index % len
}

fn wrap(index: usize, step: i32, len: usize) -> (r: usize)
    requires
        index < len <= 16,
    ensures
        r == wrapped(index + step, len as int),
        r < len,
{
    let sum: i64 = index as i64 + step as i64;
    let n: i64 = len as i64;
    if sum >= 0 {
        (sum % n) as usize
    } else {
        // Rust's remainder takes the sign of the left side.
        let above: i64 = sum + n * 0x1_0000_0000;
        proof {
            vstd::arithmetic::div_mod::lemma_mod_multiples_vanish(0x1_0000_0000, sum as int, n as int);
            assert(n * 0x1_0000_0000 >= 0x1_0000_0000) by (nonlinear_arith)
                requires
                    n >= 1,
            ;
            assert(above as int == n as int * 0x1_0000_0000 + sum as int);
        }
        (above % n) as usize
    }
}

/// Which part of the library the main row shows.
#[derive(Debug, Clone, Copy, PartialEq, Eq, Structural)]
pub enum Filter {
    All,
    /// Has an upload for this operating system.
    Playable,
    Games,
    /// Tools and asset packs.
    Tools,
    /// Soundtracks, books, comics, mods, physical games, and the rest.
    Other,
}

impl Default for Filter {
    fn default() -> (r: Self)
        ensures
            r == Filter::All,
    {
        Filter::All
    }
}

impl Filter {
    /// The filters in the order in which they are stepped through.
    pub open spec fn at(index: int) -> Filter {
        if index == 0 {
            Filter::All
        } else if index == 1 {
            Filter::Playable
        } else if index == 2 {
            Filter::Games
        } else if index == 3 {
            Filter::Tools
        } else {
            Filter::Other
        }
    }

    pub open spec fn index(self) -> int {
        match self {
            Filter::All => 0,
            Filter::Playable => 1,
            Filter::Games => 2,
            Filter::Tools => 3,
            Filter::Other => 4,
        }
    }

    pub open spec fn shown_label(self) -> Seq<char> {
        match self {
            Filter::All => "All"@,
            Filter::Playable => "Playable here"@,
            Filter::Games => "Games"@,
            Filter::Tools => "Tools & assets"@,
            Filter::Other => "Other"@,
        }
    }

    pub open spec fn lets_through(self, host: Host, game: Game) -> bool {
        let kind = game.classification;
        match self {
            Filter::All => true,
            Filter::Playable => is_playable(host, game),
            Filter::Games => kind == GameClassification::Game,
            Filter::Tools => kind == GameClassification::Tool || kind == GameClassification::Assets,
            Filter::Other => kind != GameClassification::Game && kind != GameClassification::Tool
                && kind != GameClassification::Assets,
        }
    }

    pub fn label(self) -> (r: &'static str)
        ensures
            r@ == self.shown_label(),
    {
        match self {
            Filter::All => "All",
            Filter::Playable => "Playable here",
            Filter::Games => "Games",
            Filter::Tools => "Tools & assets",
            Filter::Other => "Other",
        }
    }

    /// Whether the filter lets the game through, on a device of the given kind.
    pub fn matches(self, host: Host, game: &Game) -> (r: bool)
        ensures
            r == self.lets_through(host, *game),
    {
        match self {
            Filter::All => true,
            Filter::Playable => playable_here(host, game),
            Filter::Games => game.classification == GameClassification::Game,
            Filter::Tools => game.classification == GameClassification::Tool || game.classification
                == GameClassification::Assets,
            Filter::Other => game.classification != GameClassification::Game && game.classification
                != GameClassification::Tool && game.classification != GameClassification::Assets,
        }
    }

    /// The filter `step` places further, wrapping at both ends.
    pub fn next(self, step: i32) -> (r: Filter)
        ensures
            r == Filter::at(wrapped(self.index() + step, 5)),
    {
        let index: usize = match self {
            Filter::All => 0,
            Filter::Playable => 1,
            Filter::Games => 2,
            Filter::Tools => 3,
            Filter::Other => 4,
        };
        match wrap(index, step, 5) {
            0 => Filter::All,
            1 => Filter::Playable,
            2 => Filter::Games,
            3 => Filter::Tools,
            _ => Filter::Other,
        }
    }
}

/// The rows of the owned library: one per kind of thing.
#[derive(Debug, Clone, Copy, PartialEq, Eq, Structural)]
pub enum Kind {
    Games,
    /// Tools and asset packs.
    Tools,
    /// Soundtracks, books, comics, mods, physical games, and the rest.
    Other,
}

impl Kind {
    /// The filter that picks this kind.
    pub open spec fn as_filter(self) -> Filter {
        match self {
            Kind::Games => Filter::Games,
            Kind::Tools => Filter::Tools,
            Kind::Other => Filter::Other,
        }
    }

    pub open spec fn covers(self, game: Game) -> bool {
        self.as_filter().lets_through(Host::Linux, game)
    }

    pub fn filter(self) -> (r: Filter)
        ensures
            r == self.as_filter(),
    {
        match self {
            Kind::Games => Filter::Games,
            Kind::Tools => Filter::Tools,
            Kind::Other => Filter::Other,
        }
    }

    pub fn label(self) -> (r: &'static str)
        ensures
            r@ == self.as_filter().shown_label(),
    {
        self.filter().label()
    }

    pub fn matches(self, game: &Game) -> (r: bool)
        ensures
            r == self.covers(*game),
    {
        self.filter().matches(Host::Linux, game)
    }
}

/// Every game is of exactly one kind, so the rows of the library part it.
pub proof fn kinds_part_the_library(game: Game)
    ensures
        Kind::Games.covers(game) || Kind::Tools.covers(game) || Kind::Other.covers(game),
        !(Kind::Games.covers(game) && Kind::Tools.covers(game)),
        !(Kind::Games.covers(game) && Kind::Other.covers(game)),
        !(Kind::Tools.covers(game) && Kind::Other.covers(game)),
{
}

/// Stepping through the filters and back returns to the filter one came from, and a full
/// round changes nothing.
pub proof fn filter_steps_wrap(filter: Filter, step: int)
    ensures
        Filter::at(wrapped(Filter::at(wrapped(filter.index() + step, 5)).index() - step, 5))
            == filter,
        Filter::at(wrapped(filter.index() + 5 * step, 5)) == filter,
{
    let there = (filter.index() + step) % 5;
    assert((there - step) % 5 == filter.index() && (filter.index() + 5 * step) % 5
        == filter.index()) by (nonlinear_arith)
        requires
            there == (filter.index() + step) % 5,
            0 <= filter.index() < 5,
    ;
}

// ---------------------------------------------------------------------------
// Screens
// ---------------------------------------------------------------------------

/// What the window is showing.
#[derive(Debug, Clone, Copy, PartialEq, Eq, Structural)]
pub enum Page {
    Library,
    /// One game, with one of its buttons focused.
    Game {
        id: i64,
        button: usize,
    },
}

impl Page {
    pub fn is_library(&self) -> (r: bool)
        ensures
            r == (*self == Page::Library),
    {
        match self {
            Page::Library => true,
            Page::Game { .. } => false,
        }
    }
}

/// A collection with the games butler has for it.
#[derive(Debug, PartialEq, Eq)]
pub struct CollectionGames {
    pub collection: Collection,
    pub games: Vec<Game>,
    /// Where the next page of games starts; none once all are here.
    pub next_cursor: Option<String>,
}

/// The top-level screens, switched with the bumpers.
#[derive(Debug, Clone, Copy, PartialEq, Eq, Structural)]
pub enum Tab {
    Library,
    Collections,
    Downloads,
}

impl Default for Tab {
    fn default() -> (r: Self)
        ensures
            r == Tab::Library,
    {
        Tab::Library
    }
}

impl Tab {
    /// The tabs from left to right.
    pub open spec fn at(index: int) -> Tab {
        if index == 0 {
            Tab::Library
        } else if index == 1 {
            Tab::Collections
        } else {
            Tab::Downloads
        }
    }

    pub open spec fn index(self) -> int {
        match self {
            Tab::Library => 0,
            Tab::Collections => 1,
            Tab::Downloads => 2,
        }
    }

    pub open spec fn shown_label(self) -> Seq<char> {
        match self {
            Tab::Library => "Library"@,
            Tab::Collections => "Collections"@,
            Tab::Downloads => "Downloads"@,
        }
    }

    pub fn label(self) -> (r: &'static str)
        ensures
            r@ == self.shown_label(),
    {
        match self {
            Tab::Library => "Library",
            Tab::Collections => "Collections",
            Tab::Downloads => "Downloads",
        }
    }

    pub open spec fn stepped(self, step: int) -> Tab {
        Tab::at(wrapped(self.index() + step, 3))
    }

    /// The tab `step` places to the right, wrapping at both ends.
    pub fn next(self, step: i32) -> (r: Tab)
        ensures
            r == self.stepped(step as int),
    {
        let index: usize = match self {
            Tab::Library => 0,
            Tab::Collections => 1,
            Tab::Downloads => 2,
        };
        match wrap(index, step, 3) {
            0 => Tab::Library,
            1 => Tab::Collections,
            _ => Tab::Downloads,
        }
    }
}

/// Stepping through the tabs and back returns to the tab one came from, and a full round
/// changes nothing.
pub proof fn tab_steps_wrap(tab: Tab, step: int)
    ensures
        tab.stepped(step).stepped(-step) == tab,
        tab.stepped(3 * step) == tab,
{
    let there = (tab.index() + step) % 3;
    assert((there - step) % 3 == tab.index() && (tab.index() + 3 * step) % 3 == tab.index())
        by (nonlinear_arith)
        requires
            there == (tab.index() + step) % 3,
            0 <= tab.index() < 3,
    ;
}

/// Something that is fetched.
#[derive(Debug, PartialEq, Eq)]
pub enum Loadable<T> {
    NotLoaded,
    Loading,
    Loaded(T),
    Failed(String),
}

impl<T> Default for Loadable<T> {
    fn default() -> (r: Self)
        ensures
            r == Loadable::<T>::NotLoaded,
    {
        Loadable::NotLoaded
    }
}

impl<T> Loadable<T> {
    /// What was fetched, once it is here.
    pub open spec fn value(self) -> Option<T> {
        match self {
            Loadable::Loaded(value) => Some(value),
            _ => None,
        }
    }

    pub fn get(&self) -> (r: Option<&T>)
        ensures
            r matches Some(value) ==> self.value() == Some(*value),
            r is None ==> self.value() is None,
    {
        match self {
            Loadable::Loaded(value) => Some(value),
            _ => None,
        }
    }
}

#[derive(Debug, Clone, Copy, PartialEq, Eq, Structural)]
pub enum Direction {
    Up,
    Down,
    Left,
    Right,
    /// All the way to the start.
    Home,
    /// All the way to the end.
    End,
}

/// A queued or running download for a game, as the interface sees it.
#[derive(Debug, PartialEq, Eq)]
pub struct InstallState {
    /// butlerd's download id; empty until the queue has answered.
    pub download_id: String,
    /// How much is done, 0 to 1, as the bits of a double; only for the bar.
    pub fraction: u64,
    /// How much is done, to the nearest percent.
    pub percent: i64,
    /// Whether anything is coming in.
    pub moving: bool,
    /// Whole bytes per second.
    pub bps: i64,
    /// Whole seconds left.
    pub eta_seconds: i64,
    /// What butler is doing right now: downloading, installing, and so on.
    pub stage: String,
    pub cancelling: bool,
    /// Set when the download stopped with an error; Retry or Dismiss apply.
    pub error: Option<String>,
}

/// A question the backend needs answered before a call can go on, shown as
/// a modal. The backend maps the chosen index back to the typed reply.
#[derive(Debug, PartialEq, Eq)]
pub struct Prompt {
    pub id: u64,
    pub title: String,
    pub body: String,
    pub choices: Vec<String>,
    pub focus: usize,
    /// The choice drawn as the obvious one, if there is one.
    pub primary: Option<usize>,
    /// The choices stand one above the other, not side by side.
    pub stacked: bool,
}

/// What the interface asked for while drawing. Applied after the frame so
/// views never mutate state they are reading.
#[derive(Debug, PartialEq, Eq)]
pub enum Action {
    MoveFocus(Direction),
    /// Focus the nth owned game, scrolling to it; for scripted screenshots.
    FocusIndex(usize),
    /// Focus a tile without scrolling to it; the pointer is already there.
    FocusTile {
        row: usize,
        col: usize,
    },
    /// Focus a button of the Downloads list; the pointer is already there.
    FocusDownload {
        row: usize,
        button: usize,
    },
    /// Focus a stop of the toolbar; the pointer is already there.
    FocusToolbar(usize),
    /// Focus a detail-page button; the pointer is already there.
    FocusButton(usize),
    Activate,
    Back,
    Open(Page),
    Play {
        cave_id: String,
    },
    /// End a running game.
    QuitGame {
        cave_id: String,
    },
    /// Answer the open prompt with a choice, or dismiss it with `None`.
    Answer {
        prompt: u64,
        choice: Option<usize>,
    },
    /// Focus a prompt button; the pointer is already there.
    PromptFocus(usize),
    SetPlayableOnly(bool),
    SetCollectionsInstalledOnly(bool),
    SetTab(Tab),
    /// Step through the tabs, wrapping.
    CycleTab(i32),
    /// Put the cursor in the search box.
    FocusSearch,
    /// Leave the search box, keeping its text; focus goes to the results.
    SearchDone,
    ClearSearch,
    /// Open or close the menu drawer, bringing the window to the front.
    Menu,
    /// Focus a menu item; the pointer is already there.
    MenuFocus(usize),
    Quit,
    /// Get out of the way of the running game.
    BackToGame,
    /// The end of a collection's row is in view and there is more of it.
    MoreGames {
        row: usize,
    },
    ClearFinished,
    RefreshLibrary,
    /// Queue every direct update that waits.
    UpdateAll,
    CheckUpdates,
    Install {
        game_id: i64,
    },
    /// Discard the game's download, whether running or failed.
    CancelInstall {
        game_id: i64,
    },
    RetryInstall {
        game_id: i64,
    },
    /// Queue the update butler found for this cave.
    Update {
        cave_id: String,
    },
    Uninstall {
        cave_id: String,
    },
}

impl Clone for Action {
    fn clone(&self) -> (r: Self)
        ensures
            r == *self,
    {
        match self {
            Action::MoveFocus(direction) => Action::MoveFocus(*direction),
            Action::FocusIndex(index) => Action::FocusIndex(*index),
            Action::FocusTile { row, col } => Action::FocusTile { row: *row, col: *col },
            Action::FocusDownload { row, button } => Action::FocusDownload {
                row: *row,
                button: *button,
            },
            Action::FocusToolbar(index) => Action::FocusToolbar(*index),
            Action::FocusButton(button) => Action::FocusButton(*button),
            Action::Activate => Action::Activate,
            Action::Back => Action::Back,
            Action::Open(page) => Action::Open(*page),
            Action::Play { cave_id } => Action::Play { cave_id: cave_id.clone() },
            Action::QuitGame { cave_id } => Action::QuitGame { cave_id: cave_id.clone() },
            Action::Answer { prompt, choice } => Action::Answer {
                prompt: *prompt,
                choice: *choice,
            },
            Action::PromptFocus(index) => Action::PromptFocus(*index),
            Action::SetPlayableOnly(on) => Action::SetPlayableOnly(*on),
            Action::SetCollectionsInstalledOnly(on) => Action::SetCollectionsInstalledOnly(*on),
            Action::SetTab(tab) => Action::SetTab(*tab),
            Action::CycleTab(step) => Action::CycleTab(*step),
            Action::FocusSearch => Action::FocusSearch,
            Action::SearchDone => Action::SearchDone,
            Action::ClearSearch => Action::ClearSearch,
            Action::Menu => Action::Menu,
            Action::MenuFocus(index) => Action::MenuFocus(*index),
            Action::Quit => Action::Quit,
            Action::BackToGame => Action::BackToGame,
            Action::MoreGames { row } => Action::MoreGames { row: *row },
            Action::ClearFinished => Action::ClearFinished,
            Action::RefreshLibrary => Action::RefreshLibrary,
            Action::UpdateAll => Action::UpdateAll,
            Action::CheckUpdates => Action::CheckUpdates,
            Action::Install { game_id } => Action::Install { game_id: *game_id },
            Action::CancelInstall { game_id } => Action::CancelInstall { game_id: *game_id },
            Action::RetryInstall { game_id } => Action::RetryInstall { game_id: *game_id },
            Action::Update { cave_id } => Action::Update { cave_id: cave_id.clone() },
            Action::Uninstall { cave_id } => Action::Uninstall { cave_id: cave_id.clone() },
        }
    }
}

/// A game can be played on a device that it has a build for.
pub proof fn games_are_played_where_they_have_a_build(game: Game)
    ensures
        is_playable(Host::Linux, game) <==> game.platforms.linux,
        is_playable(Host::Mac, game) <==> game.platforms.osx,
        is_playable(Host::Windows, game) <==> game.platforms.windows,
{
}

/// A filter lets through what it names: everything, what can be played here, or one kind.
pub proof fn filters_let_through_what_they_name(host: Host, game: Game)
    ensures
        Filter::All.lets_through(host, game),
        Filter::Playable.lets_through(host, game) <==> is_playable(host, game),
        Filter::Games.lets_through(host, game) <==> game.classification == GameClassification::Game,
        Filter::Tools.lets_through(host, game) <==> game.classification == GameClassification::Tool
            || game.classification == GameClassification::Assets,
        Filter::Other.lets_through(host, game) <==> !Filter::Games.lets_through(host, game)
            && !Filter::Tools.lets_through(host, game),
        Kind::Games.covers(game) <==> game.classification == GameClassification::Game,
        Kind::Tools.covers(game) <==> game.classification == GameClassification::Tool
            || game.classification == GameClassification::Assets,
        game.classification == GameClassification::Comic || game.classification
            == GameClassification::Soundtrack ==> Kind::Other.covers(game),
{
}

/// The filters follow each other from everything to the rest, and round again.
pub proof fn filters_follow_each_other(filter: Filter)
    ensures
        Filter::at(wrapped(Filter::All.index() + 1, 5)) == Filter::Playable,
        Filter::at(wrapped(Filter::Playable.index() + 1, 5)) == Filter::Games,
        Filter::at(wrapped(Filter::Games.index() + 1, 5)) == Filter::Tools,
        Filter::at(wrapped(Filter::Tools.index() + 1, 5)) == Filter::Other,
        Filter::at(wrapped(Filter::Other.index() + 1, 5)) == Filter::All,
        Filter::at(filter.index()) == filter,
{
}

/// A tile draws the still cover where there is one; what moves is played only where it is a GIF
/// and not the still itself.
pub proof fn covers_are_still_where_they_can_be(game: Game)
    ensures
        game.still_cover_url is Some ==> game.shown_cover() == game.still_cover_url,
        game.still_cover_url is None ==> game.shown_cover() == game.cover_url,
        game.moving_cover() is Some ==> game.moving_cover() == game.cover_url,
        (game.cover_url matches Some(cover) && !is_gif(cover@)) ==> game.moving_cover() is None,
        (game.cover_url matches Some(cover) && is_gif(cover@)) && game.still_cover_url is None
            ==> game.moving_cover() == game.cover_url,
        (game.cover_url matches Some(cover) && (game.still_cover_url matches Some(still) && still@
            == cover@)) ==> game.moving_cover() is None,
        (game.cover_url matches Some(cover) && is_gif(cover@) && (
        game.still_cover_url matches Some(still) && still@ != cover@)) ==> game.moving_cover()
            == game.cover_url,
{
}

/// A GIF is known by the end of its address, in any case of letters.
pub proof fn gifs_are_known_by_their_ending(stem: Seq<char>)
    ensures
        is_gif(stem.push('.') + "gif"@),
        is_gif(stem.push('.') + "GIF"@),
        !is_gif(stem.push('.') + "png"@),
{
    reveal_strlit("gif");
    reveal_strlit("GIF");
    reveal_strlit("png");
    lemma_ending(stem, "gif"@);
    lemma_ending(stem, "GIF"@);
    lemma_ending(stem, "png"@);
    assert(crate::text::lowercase("gif"@) =~= "gif"@);
    crate::text::lowering_changes_capitals_only("GIF"@);
    crate::text::lowering_changes_capitals_only("png"@);
    let low = crate::text::lowercase("GIF"@);
    assert("GIF"@[0] == 'G' && "GIF"@[1] == 'I' && "GIF"@[2] == 'F');
    assert(low[0] as u32 == 0x67 && low[1] as u32 == 0x69 && low[2] as u32 == 0x66);
    assert(low[0] == 'g' && low[1] == 'i' && low[2] == 'f');
    assert(low =~= "gif"@);
    assert("png"@[0] == 'p' && "gif"@[0] == 'g');
    assert(crate::text::lowercase("png"@)[0] == 'p');
}

proof fn lemma_ending(stem: Seq<char>, ext: Seq<char>)
    requires
        forall|i: int| 0 <= i < ext.len() ==> ext[i] != '.',
    ensures
        crate::text::split(stem.push('.') + ext, '.').last() == ext,
    decreases ext.len(),
{
    let all = stem.push('.') + ext;
    if ext.len() == 0 {
        assert(all =~= stem.push('.'));
        assert(ext =~= Seq::empty());
    } else {
        let rest = ext.drop_last();
        lemma_ending(stem, rest);
        assert(all.drop_last() =~= stem.push('.') + rest);
        assert(all.last() == ext[ext.len() - 1]);
        assert(rest.push(ext.last()) =~= ext);
    }
}

/// A user goes by the name they chose to show, or by their user name.
pub proof fn users_go_by_the_name_they_show(user: User)
    ensures
        user.display_name@.len() > 0 ==> user.shown_name() == user.display_name@,
        user.display_name@.len() == 0 ==> user.shown_name() == user.username@,
{
}

} // verus!
