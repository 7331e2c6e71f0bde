//! What the interface asks of the backend, and what the backend tells it.
pub mod launching;
pub mod pages;
pub mod questions;
pub mod sync;
pub mod uploads;

use vstd::prelude::*;
use crate::model::{
    Cave, CollectionGames, Download, DownloadProgress, Game, GameUpdate, LaunchFailure, Profile,
    Prompt,
};

verus! {

#[derive(Debug, PartialEq, Eq)]
pub enum Command {
    Install {
        game: Game,
    },
    /// The next page of a collection's games.
    CollectionPage {
        collection_id: i64,
        cursor: String,
    },
    /// Every installed game in each collection, from butler's own filter,
    /// so the answer covers pages not fetched yet.
    CollectionsInstalled {
        collection_ids: Vec<i64>,
    },
    /// Discard a queued, running, or failed download. With `confirm`, the
    /// game's title, the user is asked first and [`Event::Discarding`] says
    /// they agreed.
    Discard {
        download_id: String,
        confirm: Option<String>,
    },
    Retry {
        download_id: String,
    },
    /// Drop finished downloads, done or failed, from butler's queue.
    ClearFinished,
    /// Asks first; the title names the game in the question.
    Uninstall {
        cave_id: String,
        title: String,
    },
    Launch {
        cave_id: String,
    },
    /// Kill a running game by ending its launch call.
    QuitGame {
        cave_id: String,
    },
    /// Queue an update butler reported; the first choice is the one taken.
    Update {
        update: GameUpdate,
    },
    /// Check for updates now, on the user's request, and say what came of it.
    CheckUpdates,
    /// Refetch the owned list and collections whether or not butler thinks
    /// its cache is stale, and check for updates on the way.
    RefreshLibrary,
    /// The user's pick for a [`Event::Prompt`], or `None` when dismissed.
    Answer {
        prompt: u64,
        choice: Option<usize>,
    },
    Shutdown,
}

#[allow(inconsistent_fields)]
#[derive(Debug, PartialEq, Eq)]
pub enum Event {
    /// A one-line description of what the backend is doing.
    Status(String),
    SignedIn(Profile),
    OwnedGames(Vec<Game>),
    /// The profile's collections with their games, in butler's order.
    Collections(Vec<CollectionGames>),
    CollectionsFailed(String),
    /// A background refresh failed for a reason other than being offline.
    /// What is on screen came from the cache and stays; the loop retries.
    SyncFailed(String),
    CollectionPage {
        collection_id: i64,
        games: Vec<Game>,
        next_cursor: Option<String>,
    },
    CollectionPageFailed {
        collection_id: i64,
        error: String,
    },
    CollectionsInstalled(Vec<(i64, Vec<Game>)>),
    /// Every installed game known to this database.
    Caves(Vec<Cave>),
    /// The whole download queue, after anything changed it.
    Downloads(Vec<Download>),
    DownloadProgress {
        download_id: String,
        progress: DownloadProgress,
    },
    DownloadFinished(Download),
    DownloadErrored(Download),
    /// Queueing the install never produced a download.
    InstallFailed {
        game_id: i64,
        error: String,
    },
    /// The user backed out of the upload picker.
    InstallDeclined {
        game_id: i64,
    },
    /// The user confirmed a cancel and the discard is under way.
    Discarding {
        download_id: String,
    },
    /// The download stays in the queue as it was.
    DiscardFailed {
        download_id: String,
        error: String,
    },
    UninstallFinished {
        cave_id: String,
        result: Result<(), String>,
    },
    /// The game process is up.
    LaunchRunning {
        cave_id: String,
    },
    /// The `Launch` call returned; the game has exited or never started.
    LaunchFinished {
        cave_id: String,
        result: Result<(), LaunchFailure>,
    },
    /// Updates butler found for installed games, one per cave.
    Updates(Vec<GameUpdate>),
    /// A question to show until [`Event::PromptClosed`] or an answer.
    Prompt(Prompt),
    PromptClosed(u64),
    /// Whether butler can reach itch.io. Starts unknown and is reported once
    /// the first network call settles, then whenever it changes.
    Online(bool),
    Error(String),
}

} // verus!
