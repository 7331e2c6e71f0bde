//! What the backend does next: the work that comes round by itself, and what a command asks
//! for. Times are in nanoseconds since some start.
use vstd::prelude::*;
use vstd::string::*;
use crate::backend::questions::{
    discard_asks, discard_question, uninstall_asks, uninstall_question, Question,
};
use crate::backend::{Command, Event};
use crate::model::{Game, GameUpdate, LaunchFailure};
use crate::table::Table;
use crate::text::joined;

verus! {

/// How often to look for the network again while offline.
pub const PROBE_EVERY: u64 = 60_000_000_000;

/// How often to ask itch.io for updates while online. The itch app's
/// intended cadence.
pub const UPDATE_EVERY: u64 = 1_800_000_000_000;

/// A time so much later, as far as times go.
pub open spec fn later(now: u64, by: u64) -> u64 {
    if now + by > u64::MAX {
        u64::MAX
    } else {
        (now + by) as u64
    }
}

fn add_time(now: u64, by: u64) -> (r: u64)
    ensures
        r == later(now, by),
{
    if by > u64::MAX - now {
        u64::MAX
    } else {
        now + by
    }
}

// ---------------------------------------------------------------------------
// The background work
// ---------------------------------------------------------------------------

/// The background work: collections, a fresh owned list when butler's
/// cache is stale, and the update check. Runs at startup and again
/// whenever the network comes back, and is what decides whether we are
/// online. Everything here runs one step after another:
/// butlerd handles requests concurrently and two large writes at once
/// can fail on a stale sqlite snapshot, which is what happened when the
/// owned list and the collections refetched side by side.
#[derive(Debug, Clone, Copy, PartialEq, Eq, Structural)]
pub struct Sync {
    pub online: bool,
    /// What the interface was last told of that; nothing before the first network call
    /// settles.
    pub told: Option<bool>,
    /// Whether butler flagged the cached owned list stale, so a fresh
    /// fetch is still owed.
    pub stale: bool,
    /// The cached collections have been sent once.
    pub collections_loaded: bool,
    /// Butler flagged the cached collections stale.
    pub collections_stale: bool,
    /// The last run failed for a reason other than being offline, so the
    /// main loop should run it again at the next probe.
    pub retry: bool,
}

/// The steps of a run.
#[derive(Debug, Clone, Copy, PartialEq, Eq, Structural)]
pub enum SyncStep {
    /// Local reads only; the rows show before the network is probed.
    CachedCollections,
    /// A one-item fresh fetch is the cheapest call that must reach the
    /// API, so it doubles as the network probe.
    Probe,
    /// Before the slow refetches, so updates show within seconds
    /// of the library.
    CheckUpdates,
    /// The cached list is shown already; the itch app also refetches
    /// when butler flags it stale, so new purchases appear.
    FreshOwned,
    FreshCollections,
    Done,
}

/// What a failed step comes to.
#[derive(Debug, Clone, Copy, PartialEq, Eq, Structural)]
pub enum SyncFailure {
    /// The collections could not be had; the run goes on with this step.
    GoOn(SyncStep),
    /// Butler cannot reach itch.io; the run is over.
    Offline,
    /// Something else; the run is over and will be tried again.
    Failed,
}

/// What the interface is told of butler reaching itch.io or not: the first time it is known,
/// and then whenever it changes.
pub open spec fn telling(told: Option<bool>, now: bool) -> Option<Event> {
    if told == Some(now) {
        None
    } else {
        Some(Event::Online(now))
    }
}

pub fn tells_online(told: Option<bool>, now: bool) -> (r: Option<Event>)
    ensures
        r == telling(told, now),
{
    match told {
        Some(before) => if before == now {
            None
        } else {
            Some(Event::Online(now))
        },
        None => Some(Event::Online(now)),
    }
}

impl Sync {
    /// What stands at the start, by what butler says of its cached owned list.
    pub fn new(stale: bool) -> (r: Self)
        ensures
            r == (Sync {
                online: true,
                told: None,
                stale,
                collections_loaded: false,
                collections_stale: false,
                retry: false,
            }),
    {
        Sync {
            online: true,
            told: None,
            stale,
            collections_loaded: false,
            collections_stale: false,
            retry: false,
        }
    }

    /// The first step of a run.
    pub open spec fn first_step(self) -> SyncStep {
        if self.collections_loaded {
            SyncStep::Probe
        } else {
            SyncStep::CachedCollections
        }
    }

    /// Begins a run.
    pub fn begin(&mut self) -> (r: SyncStep)
        ensures
            *final(self) == (Sync { retry: false, ..*old(self) }),
            r == old(self).first_step(),
    {
        self.retry = false;
        if self.collections_loaded {
            SyncStep::Probe
        } else {
            SyncStep::CachedCollections
        }
    }

    /// What a step that went well changes. `stale` is what butler says of the collections it
    /// read.
    pub open spec fn done(self, step: SyncStep, stale: bool) -> Sync {
        match step {
            SyncStep::CachedCollections => Sync {
                collections_loaded: true,
                collections_stale: stale,
                ..self
            },
            SyncStep::Probe => Sync { online: true, told: Some(true), ..self },
            SyncStep::FreshOwned => Sync { stale: false, ..self },
            SyncStep::FreshCollections => Sync { collections_stale: false, ..self },
            SyncStep::CheckUpdates | SyncStep::Done => self,
        }
    }

    /// The step behind one.
    pub open spec fn next(self, step: SyncStep) -> SyncStep {
        match step {
            SyncStep::CachedCollections => SyncStep::Probe,
            SyncStep::Probe => SyncStep::CheckUpdates,
            SyncStep::CheckUpdates => if self.stale {
                SyncStep::FreshOwned
            } else if self.collections_stale {
                SyncStep::FreshCollections
            } else {
                SyncStep::Done
            },
            SyncStep::FreshOwned => if self.collections_stale {
                SyncStep::FreshCollections
            } else {
                SyncStep::Done
            },
            SyncStep::FreshCollections | SyncStep::Done => SyncStep::Done,
        }
    }

    /// What the interface is told of a step that went well: that butler can reach itch.io, if
    /// that is news.
    pub open spec fn news(self, step: SyncStep) -> Option<Event> {
        if step == SyncStep::Probe {
            telling(self.told, true)
        } else {
            None
        }
    }

    /// A step went well. Says which comes next, and what the interface is told.
    pub fn succeed(&mut self, step: SyncStep, stale: bool) -> (r: (SyncStep, Option<Event>))
        ensures
            *final(self) == old(self).done(step, stale),
            r.0 == old(self).done(step, stale).next(step),
            r.1 == old(self).news(step),
    {
        match step {
            SyncStep::CachedCollections => {
                self.collections_loaded = true;
                self.collections_stale = stale;
                (SyncStep::Probe, None)
            },
            SyncStep::Probe => {
                let event = tells_online(self.told, true);
                self.online = true;
                self.told = Some(true);
                (SyncStep::CheckUpdates, event)
            },
            SyncStep::CheckUpdates => if self.stale {
                (SyncStep::FreshOwned, None)
            } else if self.collections_stale {
                (SyncStep::FreshCollections, None)
            } else {
                (SyncStep::Done, None)
            },
            SyncStep::FreshOwned => {
                self.stale = false;
                if self.collections_stale {
                    (SyncStep::FreshCollections, None)
                } else {
                    (SyncStep::Done, None)
                }
            },
            SyncStep::FreshCollections => {
                self.collections_stale = false;
                (SyncStep::Done, None)
            },
            SyncStep::Done => (SyncStep::Done, None),
        }
    }

    /// What a step that failed comes to: without the cached collections the run goes on; any
    /// other failure ends it.
    pub open spec fn failed(
        self,
        step: SyncStep,
        offline: bool,
        after: Sync,
        comes_to: SyncFailure,
        news: Option<Event>,
    ) -> bool {
        match step {
            SyncStep::CachedCollections => {
                &&& comes_to == SyncFailure::GoOn(self.next(step))
                &&& news is None
                &&& after == self
            },
            _ => if offline {
                &&& comes_to == SyncFailure::Offline
                &&& news == telling(self.told, false)
                &&& after == (Sync { online: false, told: Some(false), ..self })
            } else {
                &&& comes_to == SyncFailure::Failed
                &&& news is None
                &&& after == (Sync { retry: true, ..self })
            },
        }
    }

    /// A step failed. Says what that comes to, and what the interface is told.
    pub fn fail(&mut self, step: SyncStep, offline: bool) -> (r: (SyncFailure, Option<Event>))
        ensures
            old(self).failed(step, offline, *final(self), r.0, r.1),
    {
        match step {
            SyncStep::CachedCollections => (SyncFailure::GoOn(SyncStep::Probe), None),
            _ => if offline {
                let event = tells_online(self.told, false);
                self.online = false;
                self.told = Some(false);
                (SyncFailure::Offline, event)
            } else {
                self.retry = true;
                (SyncFailure::Failed, None)
            },
        }
    }

    /// How many steps can still come, at most.
    pub open spec fn left(step: SyncStep) -> nat {
        match step {
            SyncStep::CachedCollections => 5,
            SyncStep::Probe => 4,
            SyncStep::CheckUpdates => 3,
            SyncStep::FreshOwned => 2,
            SyncStep::FreshCollections => 1,
            SyncStep::Done => 0,
        }
    }

    /// What a run that goes well from a step on leaves behind.
    pub open spec fn finished(self, step: SyncStep, stale: bool) -> Sync
        decreases Sync::left(step),
    {
        if step == SyncStep::Done {
            self
        } else {
            let after = self.done(step, stale);
            after.finished(after.next(step), stale)
        }
    }
}

/// A run that goes well ends, and leaves nothing stale: the owned list and the collections are
/// fresh, and butler is known to be online.
pub proof fn a_good_run_leaves_nothing_stale(sync: Sync, stale: bool)
    ensures
        sync.finished(sync.first_step(), stale) == (Sync {
            online: true,
            told: Some(true),
            stale: false,
            collections_loaded: true,
            collections_stale: false,
            retry: sync.retry,
        }),
{
    reveal_with_fuel(Sync::finished, 7);
}

/// Whether butler can reach itch.io is told once the first network call has settled, and then
/// whenever it changes: a probe that goes well tells it unless it was told so last, and leaves
/// nothing to tell for the next one.
pub proof fn online_is_told_when_it_changes(sync: Sync, stale: bool)
    ensures
        sync.told is None ==> sync.news(SyncStep::Probe) == Some(Event::Online(true)),
        sync.told == Some(false) ==> sync.news(SyncStep::Probe) == Some(Event::Online(true)),
        sync.told == Some(true) ==> sync.news(SyncStep::Probe) is None,
        sync.done(SyncStep::Probe, stale).news(SyncStep::Probe) is None,
        telling(sync.done(SyncStep::Probe, stale).told, false) == Some(Event::Online(false)),
        telling(Some(false), false) is None,
{
}

// ---------------------------------------------------------------------------
// The loop
// ---------------------------------------------------------------------------

/// Something for the program around to carry out.
#[derive(Debug, PartialEq, Eq)]
pub enum Work {
    /// Start the background work.
    Sync,
    /// Say that the library is being refreshed, and start the background work.
    Refresh,
    /// Ask for updates; `asked` where the user wants to know what came of it.
    CheckUpdates {
        asked: bool,
    },
    Install {
        game: Game,
    },
    CollectionPage {
        collection_id: i64,
        cursor: String,
    },
    CollectionsInstalled {
        collection_ids: Vec<i64>,
    },
    Discard {
        download_id: String,
    },
    /// Discard if the user agrees.
    AskDiscard {
        download_id: String,
        question: Question,
    },
    Retry {
        download_id: String,
    },
    ClearFinished,
    /// Uninstall if the user agrees.
    AskUninstall {
        cave_id: String,
        question: Question,
    },
    Launch {
        cave_id: String,
    },
    /// End the launch call, where there is one, and whatever the firmware runs.
    Quit {
        cave_id: String,
        launched: bool,
    },
    /// Queue the first choice of an update.
    QueueUpdate {
        update: GameUpdate,
    },
    /// Indirect updates are butler's guesses, so the user picks.
    AskUpdate {
        update: GameUpdate,
    },
    /// Hand an answer to whoever asked.
    Answer {
        prompt: u64,
        choice: Option<usize>,
    },
    /// Tell the interface.
    Tell(Event),
    Stop,
}

/// The state of the backend between two commands.
pub struct Backend {
    pub sync: Sync,
    pub next_probe: u64,
    pub next_update_check: u64,
    /// Launch calls in flight, so a running game can be quit from the loop.
    pub launches: Table<()>,
}

/// What came round by itself.
#[derive(Debug, Clone, Copy, PartialEq, Eq, Structural)]
pub struct Due {
    pub sync: bool,
    pub check_updates: bool,
}

/// A failure without a log.
pub open spec fn is_bare_failure(failure: LaunchFailure, words: Seq<char>) -> bool {
    failure.message@ == words && failure.log@.len() == 0
}

impl Backend {
    pub fn new(stale: bool, now: u64) -> (r: Self)
        ensures
            r.sync == (Sync {
                online: true,
                told: None,
                stale,
                collections_loaded: false,
                collections_stale: false,
                retry: false,
            }),
            r.next_probe == later(now, PROBE_EVERY),
            r.next_update_check == later(now, UPDATE_EVERY),
            r.launches@ == Map::<Seq<char>, ()>::empty(),
    {
        Backend {
            sync: Sync::new(stale),
            next_probe: add_time(now, PROBE_EVERY),
            next_update_check: add_time(now, UPDATE_EVERY),
            launches: Table::new(),
        }
    }

    /// The background work is to run again: butler was offline, or the last run failed, and it
    /// is time to look.
    pub open spec fn sync_due(&self, now: u64) -> bool {
        (!self.sync.online || self.sync.retry) && now >= self.next_probe
    }

    pub open spec fn check_due(&self, now: u64) -> bool {
        now >= self.next_update_check
    }

    /// What came round by itself, and when it does next.
    pub open spec fn came_round(pre: Backend, now: u64, post: Backend, due: Due) -> bool {
        &&& due.sync == pre.sync_due(now)
        &&& due.check_updates == (pre.check_due(now) && pre.sync.online)
        &&& post == (Backend {
            sync: Sync {
                retry: if pre.sync_due(now) {
                    false
                } else {
                    pre.sync.retry
                },
                ..pre.sync
            },
            next_probe: if pre.sync_due(now) {
                later(now, PROBE_EVERY)
            } else {
                pre.next_probe
            },
            next_update_check: if pre.check_due(now) {
                later(now, UPDATE_EVERY)
            } else {
                pre.next_update_check
            },
            ..pre
        })
    }

    /// What comes round by itself. The background work checks for updates on its own once the
    /// network is back.
    pub fn tick(&mut self, now: u64) -> (r: Due)
        ensures
            Backend::came_round(*old(self), now, *final(self), r),
    {
        let mut due = Due { sync: false, check_updates: false };
        if (!self.sync.online || self.sync.retry) && now >= self.next_probe {
            self.sync.retry = false;
            self.next_probe = add_time(now, PROBE_EVERY);
            due.sync = true;
        }
        if now >= self.next_update_check {
            self.next_update_check = add_time(now, UPDATE_EVERY);
            due.check_updates = self.sync.online;
        }
        due
    }

    /// What a command asks for.
    pub open spec fn asks_for(pre: Backend, command: Command, now: u64, post: Backend, work: Work) -> bool {
        match command {
            Command::Shutdown => post == pre && work is Stop,
            Command::Install { game } => post == pre && work == (Work::Install { game }),
            Command::CollectionPage { collection_id, cursor } => post == pre && work == (
            Work::CollectionPage { collection_id, cursor }),
            Command::CollectionsInstalled { collection_ids } => post == pre && work == (
            Work::CollectionsInstalled { collection_ids }),
            Command::Discard { download_id, confirm } => post == pre && match confirm {
                None => work == (Work::Discard { download_id }),
                Some(title) => {
                    &&& work matches Work::AskDiscard { download_id: id, question }
                    &&& id == download_id
                    &&& question@ == discard_asks(title@)
                },
            },
            Command::Retry { download_id } => post == pre && work == (Work::Retry { download_id }),
            Command::ClearFinished => post == pre && work is ClearFinished,
            Command::Uninstall { cave_id, title } => {
                &&& post == pre
                &&& work matches Work::AskUninstall { cave_id: id, question }
                &&& id == cave_id
                &&& question@ == uninstall_asks(title@)
            },
            Command::Launch { cave_id } => if pre.launches@ == Map::<Seq<char>, ()>::empty() {
                post == pre && work == (Work::Launch { cave_id })
            } else {
                &&& post == pre
                &&& work matches Work::Tell(Event::LaunchFinished { cave_id: id, result })
                &&& id == cave_id
                &&& result matches Err(failure)
                &&& is_bare_failure(failure, "another game is still running"@)
            },
            Command::QuitGame { cave_id } => post == pre && work == (Work::Quit {
                cave_id,
                launched: pre.launches@.contains_key(cave_id@),
            }),
            Command::Update { update } => post == pre && if update.direct {
                work == (Work::QueueUpdate { update })
            } else {
                work == (Work::AskUpdate { update })
            },
            Command::CheckUpdates => {
                &&& post == (Backend { next_update_check: later(now, UPDATE_EVERY), ..pre })
                &&& work == (Work::CheckUpdates { asked: true })
            },
            Command::RefreshLibrary => {
                &&& post == (Backend {
                    sync: Sync { stale: true, collections_stale: true, retry: false, ..pre.sync },
                    next_update_check: later(now, UPDATE_EVERY),
                    ..pre
                })
                &&& work is Refresh
            },
            Command::Answer { prompt, choice } => post == pre && work == (Work::Answer {
                prompt,
                choice,
            }),
        }
    }

    /// Takes a command.
    pub fn take(&mut self, command: Command, now: u64) -> (r: Work)
        ensures
            Backend::asks_for(*old(self), command, now, *final(self), r),
    {
        match command {
            Command::Shutdown => Work::Stop,
            Command::Install { game } => Work::Install { game },
            Command::CollectionPage { collection_id, cursor } => Work::CollectionPage {
                collection_id,
                cursor,
            },
            Command::CollectionsInstalled { collection_ids } => Work::CollectionsInstalled {
                collection_ids,
            },
            Command::Discard { download_id, confirm } => match confirm {
                None => Work::Discard { download_id },
                Some(title) => Work::AskDiscard {
                    download_id,
                    question: discard_question(title.as_str()),
                },
            },
            Command::Retry { download_id } => Work::Retry { download_id },
            Command::ClearFinished => Work::ClearFinished,
            Command::Uninstall { cave_id, title } => Work::AskUninstall {
                cave_id,
                question: uninstall_question(title.as_str()),
            },
            Command::Launch { cave_id } => if self.launches.is_empty() {
                Work::Launch { cave_id }
            } else {
                Work::Tell(
                    Event::LaunchFinished {
                        cave_id,
                        result: Err(
                            LaunchFailure {
                                message: "another game is still running".to_owned(),
                                log: Vec::new(),
                            },
                        ),
                    },
                )
            },
            Command::QuitGame { cave_id } => {
                let launched = self.launches.contains_key(cave_id.as_str());
                Work::Quit { cave_id, launched }
            },
            Command::Update { update } => if update.direct {
                Work::QueueUpdate { update }
            } else {
                Work::AskUpdate { update }
            },
            Command::CheckUpdates => {
                self.next_update_check = add_time(now, UPDATE_EVERY);
                Work::CheckUpdates { asked: true }
            },
            Command::RefreshLibrary => {
                self.sync.stale = true;
                self.sync.collections_stale = true;
                self.sync.retry = false;
                self.next_update_check = add_time(now, UPDATE_EVERY);
                Work::Refresh
            },
            Command::Answer { prompt, choice } => Work::Answer { prompt, choice },
        }
    }

    /// A launch call is in flight.
    pub fn track(&mut self, cave_id: String)
        ensures
            *final(self) == (Backend { launches: final(self).launches, ..*old(self) }),
            final(self).launches@ == old(self).launches@.insert(cave_id@, ()),
    {
        self.launches.insert(cave_id, ());
    }

    /// A launch call has returned.
    pub fn forget(&mut self, cave_id: &str)
        ensures
            *final(self) == (Backend { launches: final(self).launches, ..*old(self) }),
            final(self).launches@ == old(self).launches@.remove(cave_id@),
    {
        self.launches.remove(cave_id);
    }
}

/// While a launch call is in flight no other game is launched: the request is answered with a
/// failure that says so.
pub proof fn one_game_runs_at_a_time(
    pre: Backend,
    running: Seq<char>,
    cave_id: String,
    now: u64,
    post: Backend,
    work: Work,
)
    requires
        pre.launches@.contains_key(running),
        Backend::asks_for(pre, Command::Launch { cave_id }, now, post, work),
    ensures
        work matches Work::Tell(Event::LaunchFinished { cave_id: id, result }) && id == cave_id
            && result is Err,
{
}

/// After a refresh was asked for, the next good run fetches the owned list and the collections
/// anew, and nothing is stale behind it.
pub proof fn refreshes_fetch_everything(pre: Backend, now: u64, post: Backend, work: Work)
    requires
        Backend::asks_for(pre, Command::RefreshLibrary, now, post, work),
    ensures
        post.sync.next(SyncStep::CheckUpdates) == SyncStep::FreshOwned,
        post.sync.done(SyncStep::FreshOwned, false).next(SyncStep::FreshOwned)
            == SyncStep::FreshCollections,
{
}

// ---------------------------------------------------------------------------
// Keeping butler up
// ---------------------------------------------------------------------------

/// How long to wait before trying to start butler again after it died.
pub const RESPAWN_DELAY: u64 = 5_000_000_000;

/// What was heard during a wait.
#[derive(Debug, Clone, Copy, PartialEq, Eq, Structural)]
pub enum Told {
    Nothing,
    /// A command; without butler nothing comes of it.
    Command,
    /// The command to shut down.
    Shutdown,
    /// The interface is gone.
    Closed,
}

/// How butler is.
#[derive(Debug, Clone, Copy, PartialEq, Eq, Structural)]
pub enum Health {
    Alive,
    /// Anything can take butler down: the kernel's memory killer on a
    /// small device, a crash, a firmware reaping background processes.
    Dead,
    Respawned,
    RespawnFailed,
    /// The wait behind a failed start is over.
    Rested(Told),
}

/// What follows for the loop.
#[derive(Debug, Clone, Copy, PartialEq, Eq, Structural)]
pub enum Watch {
    /// Go on with the work.
    Work,
    /// Start butler again.
    Respawn,
    /// Sign in anew, list what is installed and queued, and start the background work: whatever
    /// the old butler was at died with it.
    Resume,
    /// Wait so many nanoseconds, unless something is heard before.
    Rest(u64),
    /// Look how butler is.
    Look,
    Stop,
}

/// What follows from how butler is.
pub open spec fn watched(health: Health) -> Watch {
    match health {
        Health::Alive => Watch::Work,
        Health::Dead => Watch::Respawn,
        Health::Respawned => Watch::Resume,
        Health::RespawnFailed => Watch::Rest(RESPAWN_DELAY),
        Health::Rested(told) => if told == Told::Shutdown || told == Told::Closed {
            Watch::Stop
        } else {
            Watch::Look
        },
    }
}

pub fn watch(health: Health) -> (r: Watch)
    ensures
        r == watched(health),
{
    match health {
        Health::Alive => Watch::Work,
        Health::Dead => Watch::Respawn,
        Health::Respawned => Watch::Resume,
        Health::RespawnFailed => Watch::Rest(RESPAWN_DELAY),
        Health::Rested(told) => match told {
            Told::Shutdown | Told::Closed => Watch::Stop,
            Told::Nothing | Told::Command => Watch::Look,
        },
    }
}

/// A dead butler is always started again, and only being told to, or nobody listening any more,
/// ends the wait for it for good.
pub proof fn butler_is_kept_up(told: Told)
    ensures
        watched(Health::Dead) == Watch::Respawn,
        watched(Health::Rested(told)) == Watch::Stop <==> told == Told::Shutdown || told
            == Told::Closed,
        watched(Health::Rested(told)) != Watch::Stop ==> watched(Health::Rested(told))
            == Watch::Look,
{
}

// ---------------------------------------------------------------------------
// Work that failed
// ---------------------------------------------------------------------------

/// Work that runs by itself and can fail.
#[derive(Debug)]
pub enum Operation {
    Sync,
    CheckUpdates {
        asked: bool,
    },
    Install {
        game_id: i64,
    },
    CollectionPage {
        collection_id: i64,
    },
    CollectionsInstalled,
    Discard {
        download_id: String,
    },
    Uninstall {
        cave_id: String,
    },
    Launch {
        cave_id: String,
    },
    Update,
}

/// What the interface is told of work that failed. `words` tells the whole story, `cause` only
/// its start: butler's own words.
pub open spec fn tells_failure(
    operation: Operation,
    words: String,
    cause: String,
    event: Event,
) -> bool {
    match operation {
        Operation::Sync => event == Event::SyncFailed(words),
        Operation::CheckUpdates { asked } => if asked {
            event matches Event::Error(text) && text@ == "Couldn't check for updates: "@ + words@
        } else {
            event == Event::SyncFailed(words)
        },
        Operation::Install { game_id } => event == (Event::InstallFailed { game_id, error: words }),
        Operation::CollectionPage { collection_id } => event == (Event::CollectionPageFailed {
            collection_id,
            error: words,
        }),
        Operation::CollectionsInstalled | Operation::Update => event == Event::Error(words),
        Operation::Discard { download_id } => event == (Event::DiscardFailed {
            download_id,
            error: words,
        }),
        Operation::Uninstall { cave_id } => event == (Event::UninstallFinished {
            cave_id,
            result: Err(words),
        }),
        Operation::Launch { cave_id } => {
            &&& event matches Event::LaunchFinished { cave_id: id, result }
            &&& id == cave_id
            &&& result matches Err(failure)
            &&& failure.message == cause && failure.log@.len() == 0
        },
    }
}

/// Whether the interface is told of work that failed, and what: nothing while butler is gone.
pub open spec fn failure_told(
    operation: Operation,
    words: String,
    cause: String,
    alive: bool,
    told: Option<Event>,
) -> bool {
    match told {
        Some(event) => alive && tells_failure(operation, words, cause, event),
        None => !alive,
    }
}

/// What the interface is told of work that failed. A daemon that died mid-call is restarted
/// by the main loop and reported there; the call's own failure is noise.
pub fn failure_event(operation: Operation, words: String, cause: String, alive: bool) -> (r: Option<
    Event,
>)
    ensures
        failure_told(operation, words, cause, alive, r),
{
    if !alive {
        return None;
    }
    Some(
        match operation {
            Operation::Sync => Event::SyncFailed(words),
            Operation::CheckUpdates { asked } => if asked {
                Event::Error(joined("Couldn't check for updates: ", words.as_str()))
            } else {
                Event::SyncFailed(words)
            },
            Operation::Install { game_id } => Event::InstallFailed { game_id, error: words },
            Operation::CollectionPage { collection_id } => Event::CollectionPageFailed {
                collection_id,
                error: words,
            },
            Operation::CollectionsInstalled | Operation::Update => Event::Error(words),
            Operation::Discard { download_id } => Event::DiscardFailed {
                download_id,
                error: words,
            },
            Operation::Uninstall { cave_id } => Event::UninstallFinished {
                cave_id,
                result: Err(words),
            },
            Operation::Launch { cave_id } => Event::LaunchFinished {
                cave_id,
                result: Err(LaunchFailure { message: cause, log: Vec::new() }),
            },
        },
    )
}

// ---------------------------------------------------------------------------
// What holds of the backend as a whole
// ---------------------------------------------------------------------------

/// A run shows the cached collections before it looks for the network, checks for updates
/// before the slow fetches, and fetches only what is stale: the owned games before the
/// collections.
pub proof fn runs_fetch_what_is_stale(sync: Sync)
    ensures
        !sync.collections_loaded ==> sync.first_step() == SyncStep::CachedCollections,
        sync.collections_loaded ==> sync.first_step() == SyncStep::Probe,
        sync.next(SyncStep::CachedCollections) == SyncStep::Probe,
        sync.next(SyncStep::Probe) == SyncStep::CheckUpdates,
        sync.stale ==> sync.next(SyncStep::CheckUpdates) == SyncStep::FreshOwned,
        !sync.stale && sync.collections_stale ==> sync.next(SyncStep::CheckUpdates)
            == SyncStep::FreshCollections,
        !sync.stale && !sync.collections_stale ==> sync.next(SyncStep::CheckUpdates)
            == SyncStep::Done,
        sync.collections_stale ==> sync.next(SyncStep::FreshOwned) == SyncStep::FreshCollections,
        !sync.collections_stale ==> sync.next(SyncStep::FreshOwned) == SyncStep::Done,
        sync.next(SyncStep::FreshCollections) == SyncStep::Done,
{
}

/// What went well is noted as such and nothing else is: a fetch makes its list fresh, a probe
/// shows that itch.io can be reached, and the cached collections are as stale as butler says.
pub proof fn steps_note_what_they_did(sync: Sync, stale: bool)
    ensures
        !sync.done(SyncStep::FreshOwned, stale).stale,
        sync.done(SyncStep::FreshOwned, stale).collections_stale == sync.collections_stale,
        !sync.done(SyncStep::FreshCollections, stale).collections_stale,
        sync.done(SyncStep::FreshCollections, stale).stale == sync.stale,
        sync.done(SyncStep::Probe, stale).online,
        sync.done(SyncStep::Probe, stale).stale == sync.stale,
        sync.done(SyncStep::CachedCollections, stale).collections_loaded,
        sync.done(SyncStep::CachedCollections, stale).collections_stale == stale,
        sync.done(SyncStep::CachedCollections, stale).online == sync.online,
        sync.done(SyncStep::CheckUpdates, stale) == sync,
{
}

/// A run that finds itch.io out of reach notes it and tells the interface, once; one that fails
/// otherwise says nothing of the network and is tried again. What was fetched before stays
/// fresh either way.
pub proof fn failed_runs_are_tried_again(
    sync: Sync,
    step: SyncStep,
    offline: bool,
    after: Sync,
    comes_to: SyncFailure,
    news: Option<Event>,
    backend: Backend,
    now: u64,
)
    requires
        sync.failed(step, offline, after, comes_to, news),
    ensures
        step == SyncStep::CachedCollections ==> after == sync && news is None && comes_to
            == SyncFailure::GoOn(SyncStep::Probe),
        step != SyncStep::CachedCollections && offline ==> {
            &&& comes_to == SyncFailure::Offline
            &&& !after.online
            &&& sync.told != Some(false) ==> news == Some(Event::Online(false))
            &&& sync.told == Some(false) ==> news is None
        },
        step != SyncStep::CachedCollections && !offline ==> {
            &&& comes_to == SyncFailure::Failed
            &&& after.retry
            &&& after.online == sync.online
            &&& news is None
        },
        after.stale == sync.stale && after.collections_stale == sync.collections_stale,
        step != SyncStep::CachedCollections && backend.sync == after && now >= backend.next_probe
            ==> backend.sync_due(now),
{
}

/// While itch.io can be reached and nothing failed, no run comes round; otherwise one does, a
/// minute apart at least. Updates are checked for every half hour, where itch.io can be
/// reached.
pub proof fn work_comes_round_in_its_time(pre: Backend, now: u64, post: Backend, due: Due, later_on: u64)
    requires
        Backend::came_round(pre, now, post, due),
    ensures
        pre.sync.online && !pre.sync.retry ==> !due.sync,
        !pre.sync.online && now >= pre.next_probe ==> due.sync,
        pre.sync.retry && now >= pre.next_probe ==> due.sync,
        now < pre.next_probe ==> !due.sync,
        due.sync && now as int + 60_000_000_000 <= u64::MAX ==> post.next_probe == now
            + 60_000_000_000,
        due.sync && now as int + 60_000_000_000 <= u64::MAX && later_on < now + 60_000_000_000
            ==> !post.sync_due(later_on),
        !due.sync ==> post.next_probe == pre.next_probe && post.sync == pre.sync,
        due.sync ==> !post.sync.retry,
        due.check_updates <==> pre.sync.online && now >= pre.next_update_check,
        now >= pre.next_update_check && now as int + 1_800_000_000_000 <= u64::MAX
            ==> post.next_update_check == now + 1_800_000_000_000,
        now < pre.next_update_check ==> post.next_update_check == pre.next_update_check,
        post.launches == pre.launches,
{
}

/// A command is carried out on what it names. What throws something away is asked about first,
/// unless the command says that nothing needs asking; a certain update is queued, and a guess is
/// asked about.
pub proof fn commands_are_carried_out(
    pre: Backend,
    command: Command,
    now: u64,
    post: Backend,
    work: Work,
)
    requires
        Backend::asks_for(pre, command, now, post, work),
    ensures
        command matches Command::Install { game } ==> work == (Work::Install { game }),
        command matches Command::Retry { download_id } ==> work == (Work::Retry { download_id }),
        command matches Command::Discard { download_id, confirm } ==> {
            &&& confirm is None ==> work == (Work::Discard { download_id })
            &&& confirm matches Some(title) ==> (work matches Work::AskDiscard {
                download_id: id,
                question,
            } && id == download_id && question@.title == "Cancel downloading "@ + title@ + "?"@)
        },
        command matches Command::Uninstall { cave_id, title } ==> (work matches Work::AskUninstall {
            cave_id: id,
            question,
        } && id == cave_id && question@.title == "Uninstall "@ + title@ + "?"@),
        command matches Command::Launch { cave_id } ==> (pre.launches@ == Map::<
            Seq<char>,
            (),
        >::empty() ==> work == (Work::Launch { cave_id })),
        command matches Command::QuitGame { cave_id } ==> work == (Work::Quit {
            cave_id,
            launched: pre.launches@.contains_key(cave_id@),
        }),
        command matches Command::Update { update } ==> (update.direct ==> work == (
        Work::QueueUpdate { update })) && (!update.direct ==> work == (Work::AskUpdate { update })),
        command matches Command::CheckUpdates ==> work == (Work::CheckUpdates { asked: true }),
        command matches Command::RefreshLibrary ==> work is Refresh && post.sync.stale
            && post.sync.collections_stale,
        command matches Command::ClearFinished ==> work is ClearFinished,
        command matches Command::CollectionPage { collection_id, cursor } ==> work == (
        Work::CollectionPage { collection_id, cursor }),
        command matches Command::CollectionsInstalled { collection_ids } ==> work == (
        Work::CollectionsInstalled { collection_ids }),
        command matches Command::Answer { prompt, choice } ==> work == (Work::Answer {
            prompt,
            choice,
        }),
        command is Shutdown <==> work is Stop,
        post.launches == pre.launches && post.next_probe == pre.next_probe,
        !(command is RefreshLibrary) ==> post.sync == pre.sync,
        !(command is RefreshLibrary) && !(command is CheckUpdates) ==> post == pre,
{
}

/// Work that failed is told of under what it was for, with the words of the failure; a check
/// that nobody asked for is not shouted about, and nothing is told while butler is gone.
pub proof fn failures_are_told_under_their_name(
    operation: Operation,
    words: String,
    cause: String,
    alive: bool,
    told: Option<Event>,
)
    requires
        failure_told(operation, words, cause, alive, told),
    ensures
        told is Some <==> alive,
        alive ==> {
            &&& operation matches Operation::Install { game_id } ==> told == Some(
                Event::InstallFailed { game_id, error: words },
            )
            &&& operation matches Operation::CollectionPage { collection_id } ==> told == Some(
                Event::CollectionPageFailed { collection_id, error: words },
            )
            &&& operation matches Operation::Discard { download_id } ==> told == Some(
                Event::DiscardFailed { download_id, error: words },
            )
            &&& operation matches Operation::Uninstall { cave_id } ==> told == Some(
                Event::UninstallFinished { cave_id, result: Err(words) },
            )
            &&& operation matches Operation::Launch { cave_id } ==> (
            told matches Some(Event::LaunchFinished { cave_id: id, result }) && id == cave_id && (
            result matches Err(failure) && failure.message == cause))
            &&& operation is Sync || operation == (Operation::CheckUpdates { asked: false }) ==> told
                == Some(Event::SyncFailed(words))
            &&& operation == (Operation::CheckUpdates { asked: true }) ==> (told matches Some(Event::Error(
                text,
            )) && text@ == "Couldn't check for updates: "@ + words@)
            &&& operation is Update || operation is CollectionsInstalled ==> told == Some(
                Event::Error(words),
            )
        },
{
}

/// Times are added up, and where that is too far off, the end of time stands in.
pub proof fn times_add_up(now: u64, by: u64)
    ensures
        now as int + by <= u64::MAX ==> later(now, by) == now + by,
        now as int + by > u64::MAX ==> later(now, by) == u64::MAX,
{
}

/// A daemon that is up works on; one that could not be started is left alone for five seconds.
pub proof fn daemons_rest_before_the_next_try()
    ensures
        watched(Health::Alive) == Watch::Work,
        watched(Health::Respawned) == Watch::Resume,
        watched(Health::RespawnFailed) == Watch::Rest(5_000_000_000u64),
{
}

/// A game that has to wait for another fails with that reason, and without a log.
pub proof fn waiting_games_say_so(
    pre: Backend,
    cave_id: String,
    now: u64,
    post: Backend,
    work: Work,
)
    requires
        pre.launches@ != Map::<Seq<char>, ()>::empty(),
        Backend::asks_for(pre, Command::Launch { cave_id }, now, post, work),
    ensures
        work matches Work::Tell(Event::LaunchFinished { cave_id: id, result }) && id == cave_id && (
        result matches Err(failure) && failure.message@ == "another game is still running"@
            && failure.log@.len() == 0),
        post == pre,
{
}

} // verus!
