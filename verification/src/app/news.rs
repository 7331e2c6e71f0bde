//! News of downloads, launches and questions, and taking in all news.

use vstd::prelude::*;
use vstd::string::*;
use crate::app::apply::{raised, shown};
use crate::app::downloads::{cave_named, failure_of, find_cave, title_or};
use crate::app::events::{
    caves_arrived, collections_arrived, lists_arrived, noticed, owned_arrived, page_arrived,
    page_failed,
};
use crate::app::requests::{installs_fresh, lemma_installs_ignore_themselves};
use crate::app::state::{loaded, App, Library, News, Queue, Screen, Shelves, WindowRequest};
use crate::backend::Event;
use crate::model::{
    CaveExt, Download, DownloadProgress, Game, GameUpdate, LaunchFailure, Loadable, Page, Prompt,
};
use crate::table::Table;
use crate::text::{begins, joined, joined3, starts_with, texts};

verus! {

broadcast use vstd::std_specs::hash::group_hash_axioms;

// ---------------------------------------------------------------------------
// Downloads
// ---------------------------------------------------------------------------

/// The ids of downloads.
pub open spec fn download_ids(downloads: Seq<Download>) -> Seq<Seq<char>> {
    downloads.map_values(|d: Download| d.id@)
}

/// The games that downloads are for.
pub open spec fn downloaded_games(downloads: Seq<Download>) -> Set<i64>
    decreases downloads.len(),
{
    if downloads.len() == 0 {
        Set::empty()
    } else {
        let before = downloaded_games(downloads.drop_last());
        match downloads.last().game {
            Some(game) => before.insert(game.id),
            None => before,
        }
    }
}

/// The queue arrived: what it no longer lists is forgotten, and what it lists is no longer
/// only asked for.
pub open spec fn downloads_arrived(pre: App, downloads: Vec<Download>, post: App) -> bool {
    let listed = download_ids(downloads@).to_set();
    &&& post == (App {
        queue: Queue {
            downloads,
            progress: post.queue.progress,
            discarding: post.queue.discarding,
            pending_installs: post.queue.pending_installs,
            installs: post.queue.installs,
            ..pre.queue
        },
        ..pre
    })
    &&& post.queue.progress@ == pre.queue.progress@.restrict(listed)
    &&& post.queue.discarding@ == pre.queue.discarding@.restrict(listed)
    &&& post.queue.pending_installs@ == pre.queue.pending_installs@.difference(
        downloaded_games(downloads@),
    )
    &&& installs_fresh(post)
}

pub open spec fn progress_arrived(
    pre: App,
    download_id: Seq<char>,
    progress: DownloadProgress,
    post: App,
) -> bool {
    &&& post == (App {
        queue: Queue {
            progress: post.queue.progress,
            installs: post.queue.installs,
            ..pre.queue
        },
        ..pre
    })
    &&& post.queue.progress@ == pre.queue.progress@.insert(download_id, progress)
    &&& installs_fresh(post)
}

/// A game is no longer only asked for.
pub open spec fn no_longer_pending(pre: App, game_id: i64, post: App) -> bool {
    &&& post == (App {
        queue: Queue {
            pending_installs: post.queue.pending_installs,
            installs: post.queue.installs,
            ..pre.queue
        },
        ..pre
    })
    &&& post.queue.pending_installs@ == pre.queue.pending_installs@.remove(game_id)
    &&& installs_fresh(post)
}

/// A download is being discarded, or is not after all.
pub open spec fn discard_marked(pre: Queue, download_id: Seq<char>, on: bool, post: Queue) -> bool {
    &&& post == (Queue { discarding: post.discarding, installs: post.installs, ..pre })
    &&& post.discarding@ == if on {
        pre.discarding@.insert(download_id, ())
    } else {
        pre.discarding@.remove(download_id)
    }
}

/// Why a download failed, in words.
pub open spec fn failure_words(download: Download) -> Seq<char> {
    match failure_of(download) {
        Some(words) => words@,
        None => "unknown error"@,
    }
}

/// An install failed. The game's page shows why until the next attempt; the notice is for
/// when the user is elsewhere.
pub open spec fn install_failed(pre: App, game_id: i64, error: Seq<char>, now: u64, post: App) -> bool {
    let on_page = pre.screen.page matches Page::Game { id, .. } && id == game_id;
    let failures = post.queue.install_failures@;
    &&& post == (App {
        screen: post.screen,
        queue: Queue { install_failures: post.queue.install_failures, ..pre.queue },
        ..pre
    })
    &&& if on_page {
        post.screen == pre.screen
    } else {
        noticed(
            pre.screen,
            "Couldn't install "@ + title_or(pre.known_game(game_id), "game"@) + ": "@ + error,
            now,
            post.screen,
        )
    }
    &&& failures.contains_key(game_id)
    &&& failures[game_id]@ == error
    &&& failures.remove(game_id) == pre.queue.install_failures@.remove(game_id)
}

/// A download stopped with an error.
pub open spec fn download_errored(pre: App, download: Download, now: u64, post: App) -> bool {
    match download.game {
        Some(game) => install_failed(pre, game.id, failure_words(download), now, post),
        None => {
            &&& post == (App { screen: post.screen, ..pre })
            &&& noticed(
                pre.screen,
                "Install of game failed: "@ + failure_words(download),
                now,
                post.screen,
            )
        },
    }
}

/// The updates by cave; of two for one cave the later counts.
pub open spec fn updates_by_cave(updates: Seq<GameUpdate>) -> Map<Seq<char>, GameUpdate>
    decreases updates.len(),
{
    if updates.len() == 0 {
        Map::empty()
    } else {
        updates_by_cave(updates.drop_last()).insert(updates.last().cave_id@, updates.last())
    }
}

/// A check came back. If the user asked for it and there is nothing new, the button says so
/// for a moment.
pub open spec fn updates_arrived(pre: App, updates: Seq<GameUpdate>, now: u64, post: App) -> bool {
    &&& post == (App {
        news: News {
            updates: post.news.updates,
            checking_updates: false,
            up_to_date_at: if pre.news.checking_updates && updates.len() == 0 {
                Some(now)
            } else {
                pre.news.up_to_date_at
            },
            ..pre.news
        },
        ..pre
    })
    &&& post.news.updates@ == updates_by_cave(updates)
}

/// An update is done with.
pub open spec fn update_done(pre: App, cave_id: Seq<char>, post: App) -> bool {
    &&& post == (App { news: News { updates: post.news.updates, ..pre.news }, ..pre })
    &&& post.news.updates@ == pre.news.updates@.remove(cave_id)
}

impl App {
    fn take_downloads(&mut self, downloads: Vec<Download>)
        ensures
            downloads_arrived(*old(self), downloads, *final(self)),
    {
        let mut listed: Vec<String> = Vec::new();
        let ghost asked = self.queue.pending_installs@;
        let ghost pre = *self;
        let mut i: usize = 0;
        assert(texts(listed@) =~= download_ids(downloads@).take(0));
        assert(self.queue.pending_installs@ =~= asked.difference(
            downloaded_games(downloads@.take(0)),
        ));
        while i < downloads.len()
            invariant
                i <= downloads@.len(),
                texts(listed@) == download_ids(downloads@).take(i as int),
                *self == (App {
                    queue: Queue {
                        pending_installs: self.queue.pending_installs,
                        ..pre.queue
                    },
                    ..pre
                }),
                self.queue.pending_installs@ == asked.difference(
                    downloaded_games(downloads@.take(i as int)),
                ),
            decreases downloads@.len() - i,
        {
            let ghost before = texts(listed@);
            assert(downloads@.take(i + 1).drop_last() =~= downloads@.take(i as int));
            listed.push(downloads[i].id.clone());
            assert(texts(listed@) =~= before.push(downloads@[i as int].id@));
            if let Some(game) = &downloads[i].game {
                self.queue.pending_installs.remove(&game.id);
                assert(self.queue.pending_installs@ =~= asked.difference(
                    downloaded_games(downloads@.take(i + 1)),
                ));
            }
            i += 1;
            assert(texts(listed@) =~= download_ids(downloads@).take(i as int));
        }
        assert(downloads@.take(i as int) =~= downloads@);
        assert(texts(listed@) =~= download_ids(downloads@));
        self.queue.progress.retain(&listed);
        self.queue.discarding.retain(&listed);
        self.queue.downloads = downloads;
        self.refresh_installs();
    }

    /// Brings what the games show of their downloads up to date.
    fn refresh_installs(&mut self)
        ensures
            *final(self) == (App {
                queue: Queue { installs: final(self).queue.installs, ..old(self).queue },
                ..*old(self)
            }),
            installs_fresh(*final(self)),
    {
        let ghost mid = *self;
        self.rebuild_installs();
        proof {
            lemma_installs_ignore_themselves(mid, *self);
        }
    }

    fn take_progress(&mut self, download_id: String, progress: DownloadProgress)
        ensures
            progress_arrived(*old(self), download_id@, progress, *final(self)),
    {
        self.queue.progress.insert(download_id, progress);
        self.refresh_installs();
    }

    fn forget_pending(&mut self, game_id: i64)
        ensures
            no_longer_pending(*old(self), game_id, *final(self)),
    {
        self.queue.pending_installs.remove(&game_id);
        self.refresh_installs();
    }

    fn mark_discard(&mut self, download_id: String, on: bool)
        ensures
            *final(self) == (App { queue: final(self).queue, ..*old(self) }),
            discard_marked(old(self).queue, download_id@, on, final(self).queue),
            installs_fresh(*final(self)),
    {
        if on {
            self.queue.discarding.insert(download_id, ());
        } else {
            self.queue.discarding.remove(download_id.as_str());
        }
        self.refresh_installs();
    }

    /// The game's page shows the failure until the next attempt; the
    /// notice is for when the user is elsewhere.
    fn fail_install(&mut self, game_id: i64, error: String, now: u64)
        ensures
            install_failed(*old(self), game_id, error@, now, *final(self)),
    {
        let ghost pre = *self;
        let on_page = match self.screen.page {
            Page::Game { id, .. } => id == game_id,
            Page::Library => false,
        };
        if !on_page {
            let title = match self.game(game_id) {
                Some(game) => game.title.as_str(),
                None => "game",
            };
            let mut message = joined3("Couldn't install ", title, ": ");
            message.append(error.as_str());
            self.notify(message, now);
        }
        self.queue.install_failures.insert(game_id, error);
        assert(self.queue.install_failures@.remove(game_id)
            =~= pre.queue.install_failures@.remove(game_id));
    }

    fn take_download_error(&mut self, download: Download, now: u64)
        ensures
            download_errored(*old(self), download, now, *final(self)),
    {
        let error = match &download.error_message {
            Some(message) => message.clone(),
            None => match &download.error {
                Some(error) => error.clone(),
                None => "unknown error".to_owned(),
            },
        };
        match &download.game {
            Some(game) => self.fail_install(game.id, error, now),
            None => self.notify(joined("Install of game failed: ", error.as_str()), now),
        }
    }

    fn take_updates(&mut self, updates: Vec<GameUpdate>, now: u64)
        ensures
            updates_arrived(*old(self), updates@, now, *final(self)),
    {
        if self.news.checking_updates && updates.len() == 0 {
            self.news.up_to_date_at = Some(now);
        }
        self.news.checking_updates = false;
        let ghost all = updates@;
        let mut updates = updates;
        let mut table: Table<GameUpdate> = Table::new();
        let ghost mut done: int = 0;
        assert(all.take(0) =~= Seq::empty());
        assert(all.skip(0) =~= all);
        while updates.len() > 0
            invariant
                0 <= done <= all.len(),
                updates@ == all.skip(done),
                table@ == updates_by_cave(all.take(done)),
            decreases updates@.len(),
        {
            let update = updates.remove(0);
            proof {
                assert(all.take(done + 1).drop_last() =~= all.take(done));
                assert(update == all[done]);
                assert(updates@ =~= all.skip(done + 1));
                done = done + 1;
            }
            table.insert(update.cave_id.clone(), update);
        }
        assert(all.take(done) =~= all);
        self.news.updates = table;
    }
}

// ---------------------------------------------------------------------------
// Launches
// ---------------------------------------------------------------------------

/// The game that a cave is an install of.
pub open spec fn cave_game(app: App, cave_id: Seq<char>) -> Option<i64> {
    match cave_named(app.library.caves@, cave_id) {
        Some(cave) => cave.game_of(),
        None => None,
    }
}

/// A launch call returned: the game no longer runs and the window takes the screen back. The
/// game's page shows a failure in full; the notice is for when the user is elsewhere.
pub open spec fn launch_ended(
    pre: App,
    cave_id: String,
    result: Result<(), LaunchFailure>,
    now: u64,
    post: App,
) -> bool {
    let on_page = pre.screen.page matches Page::Game { id, .. } && Some(id) == cave_game(
        pre,
        cave_id@,
    );
    &&& post == (App {
        screen: post.screen,
        play: post.play,
        window: post.window,
        ..pre
    })
    &&& post.play.running@ == pre.play.running@.remove(cave_id@)
    &&& post.window@ == raised(pre.window@)
    &&& match result {
        Ok(_) => {
            &&& post.screen == pre.screen
            &&& post.play.launch_failures@ == pre.play.launch_failures@
        },
        Err(failure) => {
            &&& post.play.launch_failures@ == pre.play.launch_failures@.insert(cave_id@, failure)
            &&& if on_page {
                post.screen == pre.screen
            } else {
                noticed(pre.screen, "Couldn't launch: "@ + failure.message@, now, post.screen)
            }
        },
    }
}

impl App {
    fn end_launch(&mut self, cave_id: String, result: Result<(), LaunchFailure>, now: u64)
        ensures
            launch_ended(*old(self), cave_id, result, now, *final(self)),
    {
        self.play.running.remove(cave_id.as_str());
        if let Err(failure) = result {
            let game_id = match find_cave(&self.library.caves, cave_id.as_str()) {
                Some(cave) => cave.game_id(),
                None => None,
            };
            let on_page = match (self.screen.page, game_id) {
                (Page::Game { id, .. }, Some(game)) => id == game,
                _ => false,
            };
            if !on_page {
                self.notify(joined("Couldn't launch: ", failure.message.as_str()), now);
            }
            self.play.launch_failures.insert(cave_id, failure);
        }
        self.raise_window();
    }
}

// ---------------------------------------------------------------------------
// Questions
// ---------------------------------------------------------------------------

/// A question arrived: it shows, or waits behind the one that does.
pub open spec fn prompt_arrived(pre: Screen, prompt: Prompt, post: Screen) -> bool {
    if pre.prompt is Some {
        &&& post == (Screen { prompt_queue: post.prompt_queue, ..pre })
        &&& post.prompt_queue@ == pre.prompt_queue@.push(prompt)
    } else {
        post == (Screen { prompt: Some(prompt), ..pre })
    }
}

/// The questions without one.
pub open spec fn prompts_without(prompts: Seq<Prompt>, id: u64) -> Seq<Prompt>
    decreases prompts.len(),
{
    if prompts.len() == 0 {
        Seq::empty()
    } else {
        let before = prompts_without(prompts.drop_last(), id);
        if prompts.last().id == id {
            before
        } else {
            before.push(prompts.last())
        }
    }
}

/// A question needs no answer any more: it goes, whether it shows or waits.
pub open spec fn prompt_closed(pre: Screen, id: u64, post: Screen) -> bool {
    let waiting = prompts_without(pre.prompt_queue@, id);
    &&& post == (Screen { prompt: post.prompt, prompt_queue: post.prompt_queue, ..pre })
    &&& if pre.prompt matches Some(prompt) && prompt.id == id {
        if waiting.len() > 0 {
            post.prompt == Some(waiting[0]) && post.prompt_queue@ == waiting.skip(1)
        } else {
            post.prompt is None && post.prompt_queue@ == waiting
        }
    } else {
        post.prompt == pre.prompt && post.prompt_queue@ == waiting
    }
}

impl Screen {
    fn take_prompt(&mut self, prompt: Prompt)
        ensures
            prompt_arrived(*old(self), prompt, *final(self)),
    {
        if self.prompt.is_some() {
            self.prompt_queue.push(prompt);
        } else {
            self.prompt = Some(prompt);
        }
    }

    fn close_prompt(&mut self, id: u64)
        ensures
            prompt_closed(*old(self), id, *final(self)),
    {
        let ghost pre = *self;
        let ghost all = self.prompt_queue@;
        let mut i: usize = 0;
        let ghost mut done: int = 0;
        assert(self.prompt_queue@ =~= prompts_without(all.take(0), id) + all.skip(0));
        while i < self.prompt_queue.len()
            invariant
                0 <= done <= all.len(),
                i == prompts_without(all.take(done), id).len(),
                *self == (Screen { prompt_queue: self.prompt_queue, ..pre }),
                self.prompt_queue@ == prompts_without(all.take(done), id) + all.skip(done),
            decreases self.prompt_queue@.len() - i,
        {
            let ghost kept = prompts_without(all.take(done), id);
            proof {
                assert(all.take(done + 1).drop_last() =~= all.take(done));
                assert(self.prompt_queue@[i as int] == all[done]);
            }
            if self.prompt_queue[i].id == id {
                self.prompt_queue.remove(i);
                assert(self.prompt_queue@ =~= kept + all.skip(done + 1));
            } else {
                i += 1;
                assert(self.prompt_queue@ =~= kept.push(all[done]) + all.skip(done + 1));
            }
            proof {
                done = done + 1;
            }
        }
        proof {
            assert(all.skip(done).len() == 0);
            assert(all.take(done) =~= all);
            assert(self.prompt_queue@ =~= prompts_without(all, id));
        }
        let showing = match &self.prompt {
            Some(prompt) => prompt.id == id,
            None => false,
        };
        if showing {
            self.show_next_prompt();
        }
    }
}

// ---------------------------------------------------------------------------
// All news
// ---------------------------------------------------------------------------

/// Butler was reached, or was not; offline, no refresh runs.
pub open spec fn online_changed(pre: App, online: bool, post: App) -> bool {
    post == (App {
        news: News {
            online,
            refreshing: if online {
                pre.news.refreshing
            } else {
                false
            },
            ..pre.news
        },
        ..pre
    })
}

/// Something failed: where the library has not loaded, that is the page; else a notice.
pub open spec fn error_arrived(pre: App, message: String, now: u64, post: App) -> bool {
    let news = News {
        checking_updates: if starts_with(message@, "Couldn't check for updates"@) {
            false
        } else {
            pre.news.checking_updates
        },
        ..pre.news
    };
    if pre.library.owned is Loaded {
        &&& post == (App { screen: post.screen, news, ..pre })
        &&& noticed(pre.screen, message@, now, post.screen)
    } else {
        post == (App {
            library: Library { owned: Loadable::Failed(message), ..pre.library },
            news,
            ..pre
        })
    }
}

/// The discard of a download failed: it stays in the queue as it was.
pub open spec fn discard_failed(
    pre: App,
    download_id: Seq<char>,
    error: Seq<char>,
    now: u64,
    post: App,
) -> bool {
    &&& post == (App { screen: post.screen, queue: post.queue, ..pre })
    &&& discard_marked(pre.queue, download_id, false, post.queue)
    &&& installs_fresh(post)
    &&& noticed(pre.screen, "Couldn't cancel: "@ + error, now, post.screen)
}

/// What a piece of news changes.
pub open spec fn handled(pre: App, event: Event, now: u64, post: App) -> bool {
    match event {
        Event::Status(text) => shown(pre, Screen { status: text, ..pre.screen }, post),
        Event::SignedIn(profile) => post == (App {
            library: Library { profile: Some(profile), ..pre.library },
            ..pre
        }),
        Event::OwnedGames(games) => owned_arrived(pre, games, post),
        Event::Collections(collections) => collections_arrived(pre, collections, post),
        Event::CollectionsFailed(error) => if pre.shelves.collections is Loaded {
            post == pre
        } else {
            post == (App {
                shelves: Shelves { collections: Loadable::Failed(error), ..pre.shelves },
                ..pre
            })
        },
        Event::SyncFailed(_) => post == (App {
            news: News { refreshing: false, ..pre.news },
            ..pre
        }),
        Event::CollectionPage { collection_id, games, next_cursor } => page_arrived(
            pre,
            collection_id,
            games@,
            next_cursor,
            post,
        ),
        Event::CollectionPageFailed { collection_id, error } => page_failed(
            pre,
            collection_id,
            error@,
            now,
            post,
        ),
        Event::CollectionsInstalled(lists) => lists_arrived(pre, lists@, post),
        Event::Caves(caves) => caves_arrived(pre, caves, post),
        Event::Downloads(downloads) => downloads_arrived(pre, downloads, post),
        Event::DownloadProgress { download_id, progress } => progress_arrived(
            pre,
            download_id@,
            progress,
            post,
        ),
        Event::DownloadFinished(download) => update_done(pre, download.cave_id@, post),
        Event::DownloadErrored(download) => download_errored(pre, download, now, post),
        Event::InstallFailed { game_id, error } => exists|mid: App| #[trigger]
            no_longer_pending(pre, game_id, mid) && install_failed(mid, game_id, error@, now, post),
        Event::InstallDeclined { game_id } => no_longer_pending(pre, game_id, post),
        Event::Discarding { download_id } => {
            &&& post == (App { queue: post.queue, ..pre })
            &&& discard_marked(pre.queue, download_id@, true, post.queue)
            &&& installs_fresh(post)
        },
        Event::DiscardFailed { download_id, error } => discard_failed(
            pre,
            download_id@,
            error@,
            now,
            post,
        ),
        Event::UninstallFinished { cave_id, result } => match result {
            Ok(_) => post == pre,
            Err(error) => {
                &&& post == (App { screen: post.screen, ..pre })
                &&& noticed(pre.screen, "Uninstall failed: "@ + error@, now, post.screen)
            },
        },
        Event::LaunchRunning { .. } => if pre.device.minimize_while_playing {
            &&& post == (App { window: post.window, ..pre })
            &&& post.window@ == pre.window@.push(WindowRequest::Minimize)
        } else {
            post == pre
        },
        Event::LaunchFinished { cave_id, result } => launch_ended(pre, cave_id, result, now, post),
        Event::Updates(updates) => updates_arrived(pre, updates@, now, post),
        Event::Prompt(prompt) => {
            &&& post == (App { screen: post.screen, ..pre })
            &&& prompt_arrived(pre.screen, prompt, post.screen)
        },
        Event::PromptClosed(id) => {
            &&& post == (App { screen: post.screen, ..pre })
            &&& prompt_closed(pre.screen, id, post.screen)
        },
        Event::Online(online) => online_changed(pre, online, post),
        Event::Error(message) => error_arrived(pre, message, now, post),
    }
}

impl App {
    fn take_error(&mut self, message: String, now: u64)
        ensures
            error_arrived(*old(self), message, now, *final(self)),
    {
        if begins(message.as_str(), "Couldn't check for updates") {
            self.news.checking_updates = false;
        }
        if self.library.owned.get().is_none() {
            self.library.owned = Loadable::Failed(message);
        } else {
            self.notify(message, now);
        }
    }

    fn fail_pending(&mut self, game_id: i64, error: String, now: u64)
        ensures
            exists|mid: App| #[trigger]
                no_longer_pending(*old(self), game_id, mid) && install_failed(
                    mid,
                    game_id,
                    error@,
                    now,
                    *final(self),
                ),
    {
        self.forget_pending(game_id);
        let ghost mid = *self;
        self.fail_install(game_id, error, now);
        assert(no_longer_pending(*old(self), game_id, mid));
    }

    fn fail_discard(&mut self, download_id: String, error: &str, now: u64)
        ensures
            discard_failed(*old(self), download_id@, error@, now, *final(self)),
    {
        self.mark_discard(download_id, false);
        let ghost mid = *self;
        self.notify(joined("Couldn't cancel: ", error), now);
        proof {
            lemma_installs_ignore_themselves(mid, *self);
        }
    }

    /// Takes in one piece of news.
    pub fn handle_event(&mut self, event: Event, now: u64)
        requires
            old(self).wf(),
        ensures
            handled(*old(self), event, now, *final(self)),
            final(self).wf(),
    {
        match event {
            Event::Status(text) => {
                self.screen.status = text;
            },
            Event::SignedIn(profile) => {
                self.library.profile = Some(profile);
            },
            Event::OwnedGames(games) => self.take_owned(games),
            Event::Collections(collections) => self.take_collections(collections),
            Event::CollectionsFailed(error) => {
                if self.shelves.collections.get().is_none() {
                    self.shelves.collections = Loadable::Failed(error);
                }
            },
            Event::SyncFailed(_) => {
                self.news.refreshing = false;
            },
            Event::CollectionPage { collection_id, games, next_cursor } => {
                self.take_page(collection_id, games, next_cursor)
            },
            Event::CollectionPageFailed { collection_id, error } => {
                self.take_page_failure(collection_id, error.as_str(), now)
            },
            Event::CollectionsInstalled(lists) => self.take_lists(lists),
            Event::Caves(caves) => self.take_caves(caves),
            Event::Downloads(downloads) => self.take_downloads(downloads),
            Event::DownloadProgress { download_id, progress } => {
                self.take_progress(download_id, progress)
            },
            Event::DownloadFinished(download) => {
                self.news.updates.remove(download.cave_id.as_str());
            },
            Event::DownloadErrored(download) => self.take_download_error(download, now),
            Event::InstallFailed { game_id, error } => self.fail_pending(game_id, error, now),
            Event::InstallDeclined { game_id } => self.forget_pending(game_id),
            Event::Discarding { download_id } => self.mark_discard(download_id, true),
            Event::DiscardFailed { download_id, error } => {
                self.fail_discard(download_id, error.as_str(), now)
            },
            Event::UninstallFinished { cave_id: _, result } => {
                if let Err(error) = result {
                    self.notify(joined("Uninstall failed: ", error.as_str()), now);
                }
            },
            Event::LaunchRunning { .. } => {
                if self.device.minimize_while_playing {
                    self.hide_window();
                }
            },
            // Most window systems already hand focus to the last focused window when the
            // game's goes away; taking the screen back covers the ones that do not.
            Event::LaunchFinished { cave_id, result } => self.end_launch(cave_id, result, now),
            Event::Updates(updates) => self.take_updates(updates, now),
            Event::Prompt(prompt) => self.screen.take_prompt(prompt),
            Event::PromptClosed(id) => self.screen.close_prompt(id),
            Event::Online(online) => {
                self.news.online = online;
                if !online {
                    self.news.refreshing = false;
                }
            },
            Event::Error(message) => self.take_error(message, now),
        }
    }
}

/// News was taken in, piece by piece, in the order in which it came.
pub open spec fn all_handled(states: Seq<App>, events: Seq<Event>, now: u64) -> bool {
    &&& states.len() == events.len() + 1
    &&& forall|i: int|
        0 <= i < events.len() ==> handled(#[trigger] states[i], events[i], now, states[i + 1])
}

impl App {
    /// Takes in all news that arrived, oldest first.
    pub fn handle_events(&mut self, events: Vec<Event>, now: u64)
        requires
            old(self).wf(),
        ensures
            final(self).wf(),
            exists|states: Seq<App>| #[trigger]
                all_handled(states, events@, now) && states[0] == *old(self) && states.last()
                    == *final(self),
    {
        let ghost all = events@;
        let mut events = events;
        let ghost mut states: Seq<App> = seq![*self];
        let ghost mut done: int = 0;
        assert(all.skip(0) =~= all);
        while events.len() > 0
            invariant
                self.wf(),
                0 <= done <= all.len(),
                events@ == all.skip(done),
                states.len() == done + 1,
                states[0] == *old(self),
                states.last() == *self,
                forall|i: int|
                    0 <= i < done ==> handled(#[trigger] states[i], all[i], now, states[i + 1]),
            decreases events@.len(),
        {
            let event = events.remove(0);
            let ghost pre = *self;
            assert(event == all[done]);
            assert(events@ =~= all.skip(done + 1));
            self.handle_event(event, now);
            proof {
                let longer = states.push(*self);
                assert forall|i: int| 0 <= i < done + 1 implies handled(
                    #[trigger] longer[i],
                    all[i],
                    now,
                    longer[i + 1],
                ) by {
                    if i < done {
                        assert(longer[i] == states[i] && longer[i + 1] == states[i + 1]);
                    }
                }
                states = longer;
                done = done + 1;
            }
        }
        proof {
            assert(all_handled(states, all, now));
        }
    }
}

} // verus!
