//! What the buttons and filters of the pages ask for.
use vstd::prelude::*;
use vstd::string::*;
use crate::app::apply::{asked, sent, shown};
use crate::app::downloads::{cave_named, find_cave, install_views, title_or};
use crate::app::state::{loaded, App, Library, News, Queue, Screen, Search, Shelves};
use crate::backend::Command;
use crate::model::{same_update, CollectionGames, Download, Loadable, Page, Tab};
use crate::rows::RowsView;

verus! {

broadcast use vstd::std_specs::hash::group_hash_axioms;

/// Rows that scroll to their focus on the next frame.
pub open spec fn followed(rows: RowsView) -> RowsView {
    RowsView { follow: true, ..rows }
}

// ---------------------------------------------------------------------------
// Filters, tabs and the search box
// ---------------------------------------------------------------------------

/// The page-wide filter was set: both tabs were laid out anew and scroll to their focus.
pub open spec fn playable_set(pre: App, on: bool, post: App) -> bool {
    if pre.library.playable_only == on {
        post == pre
    } else {
        let filtered = App {
            library: Library { playable_only: on, ..pre.library },
            ..pre
        };
        &&& post == (App {
            library: Library { playable_only: on, rows: post.library.rows, ..pre.library },
            shelves: Shelves { collection_rows: post.shelves.collection_rows, ..pre.shelves },
            ..pre
        })
        &&& post.library.rows@ == followed(filtered.fresh_rows())
        &&& post.shelves.collection_rows@ == followed(filtered.fresh_collection_rows())
    }
}

/// The Collections tab's own filter was set: butler was asked where needed, and the tab was
/// laid out anew and scrolls to its focus.
pub open spec fn installed_set(pre: App, on: bool, post: App) -> bool {
    if pre.shelves.collections_installed_only == on {
        post == pre
    } else {
        let filtered = App {
            shelves: Shelves { collections_installed_only: on, ..pre.shelves },
            ..pre
        };
        &&& post == (App {
            shelves: Shelves {
                collections_installed_only: on,
                collection_rows: post.shelves.collection_rows,
                ..pre.shelves
            },
            commands: post.commands,
            ..pre
        })
        &&& filtered.asked_for_installed(pre.commands@, post.commands@)
        &&& post.shelves.collection_rows@ == followed(filtered.fresh_collection_rows())
    }
}

/// Another tab came up: the search box loses the keyboard and the rows scroll to their focus.
pub open spec fn tab_set(pre: App, tab: Tab, post: App) -> bool {
    if pre.screen.page != Page::Library {
        post == pre
    } else {
        &&& post == (App {
            screen: Screen { tab, ..pre.screen },
            search: Search { blur_search: true, ..pre.search },
            library: Library { rows: post.library.rows, ..pre.library },
            shelves: Shelves { collection_rows: post.shelves.collection_rows, ..pre.shelves },
            ..pre
        })
        &&& post.library.rows@ == followed(pre.library.rows@)
        &&& post.shelves.collection_rows@ == followed(pre.shelves.collection_rows@)
    }
}

/// The cursor went into the search box, where there is one.
pub open spec fn search_opened(pre: App, post: App) -> bool {
    if pre.screen.page == Page::Library && pre.screen.tab == Tab::Library && !pre.device.handheld {
        post == (App { search: Search { focus_search: true, ..pre.search }, ..pre })
    } else {
        post == pre
    }
}

/// Search handed control to its results, not back to the toolbar button that had focus before
/// typing.
pub open spec fn search_left(pre: App, post: App) -> bool {
    &&& post == (App {
        screen: Screen {
            toolbar_focus: pre.screen.toolbar_focus.with(Tab::Library, None),
            ..pre.screen
        },
        search: Search { blur_search: true, ..pre.search },
        library: Library { rows: post.library.rows, ..pre.library },
        ..pre
    })
    &&& post.library.rows@ == followed(pre.library.rows@)
}

/// The search is over: the box is empty and the tab shows everything again.
pub open spec fn search_cleared(pre: App, post: App) -> bool {
    if pre.search.query@.len() == 0 {
        post == (App { search: Search { blur_search: true, ..pre.search }, ..pre })
    } else {
        &&& post == (App {
            search: Search { query: post.search.query, blur_search: true, ..pre.search },
            library: Library { rows: post.library.rows, ..pre.library },
            ..pre
        })
        &&& post.search.query@.len() == 0
        &&& post.library.rows@ == (App {
            search: post.search,
            ..pre
        }).fresh_rows()
    }
}

impl App {
    fn follow_both(&mut self)
        requires
            old(self).wf(),
        ensures
            *final(self) == (App {
                library: Library { rows: final(self).library.rows, ..old(self).library },
                shelves: Shelves {
                    collection_rows: final(self).shelves.collection_rows,
                    ..old(self).shelves
                },
                ..*old(self)
            }),
            final(self).library.rows@ == followed(old(self).library.rows@),
            final(self).shelves.collection_rows@ == followed(old(self).shelves.collection_rows@),
            final(self).wf(),
    {
        self.library.rows.follow = true;
        self.shelves.collection_rows.follow = true;
    }

    pub(crate) fn set_playable_only(&mut self, on: bool)
        requires
            old(self).wf(),
        ensures
            playable_set(*old(self), on, *final(self)),
            final(self).wf(),
    {
        if self.library.playable_only == on {
            return;
        }
        self.library.playable_only = on;
        let ghost filtered = *self;
        self.rebuild_sections();
        let ghost laid = *self;
        proof {
            lemma_collection_rows_ignore_library_rows(filtered, laid);
        }
        self.rebuild_collection_sections();
        self.follow_both();
    }

    pub(crate) fn set_collections_installed_only(&mut self, on: bool)
        requires
            old(self).wf(),
        ensures
            installed_set(*old(self), on, *final(self)),
            final(self).wf(),
    {
        if self.shelves.collections_installed_only == on {
            return;
        }
        self.shelves.collections_installed_only = on;
        let ghost filtered = *self;
        self.request_collection_installed();
        let ghost asked = *self;
        proof {
            lemma_collection_rows_ignore_library_rows(filtered, asked);
        }
        self.rebuild_collection_sections();
        self.shelves.collection_rows.follow = true;
    }

    pub(crate) fn set_tab(&mut self, tab: Tab)
        requires
            old(self).wf(),
        ensures
            tab_set(*old(self), tab, *final(self)),
            final(self).wf(),
    {
        if self.screen.page.is_library() {
            self.screen.tab = tab;
            self.search.blur_search = true;
            self.follow_both();
        }
    }

    pub(crate) fn open_search(&mut self)
        ensures
            search_opened(*old(self), *final(self)),
    {
        if self.screen.page.is_library() && self.screen.tab == Tab::Library
            && !self.device.handheld {
            self.search.focus_search = true;
        }
    }

    pub(crate) fn leave_search(&mut self)
        requires
            old(self).wf(),
        ensures
            search_left(*old(self), *final(self)),
            final(self).wf(),
    {
        self.search.blur_search = true;
        self.screen.toolbar_focus.set(Tab::Library, None);
        self.library.rows.follow = true;
    }

    pub(crate) fn clear_search(&mut self)
        requires
            old(self).wf(),
        ensures
            search_cleared(*old(self), *final(self)),
            final(self).wf(),
    {
        self.search.blur_search = true;
        if !self.search.query.as_str().is_empty() {
            self.search.query = String::new();
            self.rebuild_sections();
        }
    }

    /// Takes what was typed into the search box.
    pub fn search_for(&mut self, query: String)
        requires
            old(self).wf(),
        ensures
            *final(self) == (App {
                search: Search { query, ..old(self).search },
                library: Library { rows: final(self).library.rows, ..old(self).library },
                ..*old(self)
            }),
            final(self).library.rows@ == (App {
                search: Search { query, ..old(self).search },
                ..*old(self)
            }).fresh_rows(),
            final(self).wf(),
    {
        self.search.query = query;
        self.rebuild_sections();
    }
}

proof fn lemma_shown_ids(a: App, b: App, games: Seq<crate::model::Game>)
    requires
        a.library.playable_only == b.library.playable_only,
        a.device == b.device,
        a.library.installed == b.library.installed,
        a.shelves.collections_installed_only == b.shelves.collections_installed_only,
    ensures
        a.shown_ids(games) == b.shown_ids(games),
    decreases games.len(),
{
    if games.len() > 0 {
        lemma_shown_ids(a, b, games.drop_last());
    }
}

proof fn lemma_collection_rows_where(a: App, b: App, collections: Seq<CollectionGames>, bare: bool)
    requires
        a.library.playable_only == b.library.playable_only,
        a.device == b.device,
        a.library.installed == b.library.installed,
        a.shelves == b.shelves,
    ensures
        a.collection_rows_where(collections, bare) == b.collection_rows_where(collections, bare),
    decreases collections.len(),
{
    if collections.len() > 0 {
        lemma_collection_rows_where(a, b, collections.drop_last(), bare);
        let c = collections.last();
        lemma_shown_ids(a, b, c.games@);
        if let Some(games) = a.exact_list(c.collection.id) {
            lemma_shown_ids(a, b, games);
        }
    }
}

/// The Collections tab's rows do not rest on the Library tab's, nor on what is sent.
pub(crate) proof fn lemma_collection_rows_ignore_library_rows(a: App, b: App)
    requires
        a.library.playable_only == b.library.playable_only,
        a.device == b.device,
        a.library.installed == b.library.installed,
        a.shelves == b.shelves,
    ensures
        a.fresh_collection_rows() == b.fresh_collection_rows(),
{
    lemma_collection_rows_where(a, b, loaded(a.shelves.collections), false);
    lemma_collection_rows_where(a, b, loaded(a.shelves.collections), true);
}

// ---------------------------------------------------------------------------
// Updates, and more of a collection
// ---------------------------------------------------------------------------

/// The update for a cave was sent off, where there is one.
pub open spec fn update_sent(pre: App, cave_id: Seq<char>, post: App) -> bool {
    if pre.news.updates@.contains_key(cave_id) {
        &&& post == (App { commands: post.commands, ..pre })
        &&& post.commands@.len() == pre.commands@.len() + 1
        &&& post.commands@.drop_last() == pre.commands@
        &&& post.commands@.last() matches Command::Update { update }
        &&& same_update(update, pre.news.updates@[cave_id])
    } else {
        post == pre
    }
}

/// One command per cave was added, each its update.
pub open spec fn updates_sent(pre: App, ids: Seq<String>, post: App) -> bool {
    &&& post == (App { commands: post.commands, ..pre })
    &&& post.commands@.len() == pre.commands@.len() + ids.len()
    &&& post.commands@.take(pre.commands@.len() as int) == pre.commands@
    &&& forall|k: int|
        0 <= k < ids.len() ==> {
            &&& #[trigger] post.commands@[pre.commands@.len() + k] matches Command::Update {
                update,
            }
            &&& same_update(update, pre.news.updates@[ids[k]@])
        }
}

/// A check for updates began, unless one runs or butler is offline.
pub open spec fn check_begun(pre: App, post: App) -> bool {
    if pre.news.online && !pre.news.checking_updates {
        &&& post == (App {
            news: News { checking_updates: true, up_to_date_at: None, ..pre.news },
            commands: post.commands,
            ..pre
        })
        &&& post.commands@ == pre.commands@.push(Command::CheckUpdates)
    } else {
        post == pre
    }
}

/// The first collection with an id.
pub open spec fn collection_with(collections: Seq<CollectionGames>, id: i64) -> Option<
    CollectionGames,
>
    decreases collections.len(),
{
    if collections.len() == 0 {
        None
    } else if collections[0].collection.id == id {
        Some(collections[0])
    } else {
        collection_with(collections.skip(1), id)
    }
}

/// Where the next page of a row's collection starts, if it has one and none is on the way.
pub open spec fn next_page(app: App, row: usize) -> Option<(i64, String)> {
    let sections = app.shelves.collection_rows@.sections;
    if row < sections.len() {
        match sections[row as int].collection {
            Some(id) if !app.shelves.collection_loading@.contains(id) => match collection_with(
                loaded(app.shelves.collections),
                id,
            ) {
                Some(c) => match c.next_cursor {
                    Some(cursor) => Some((id, cursor)),
                    None => None,
                },
                None => None,
            },
            _ => None,
        }
    } else {
        None
    }
}

/// The next page of a row's collection was sent for, if it has one and none is on the way.
pub open spec fn page_requested(pre: App, row: usize, post: App) -> bool {
    match next_page(pre, row) {
        Some((id, cursor)) => {
            &&& post == (App {
                shelves: Shelves {
                    collection_loading: post.shelves.collection_loading,
                    ..pre.shelves
                },
                commands: post.commands,
                ..pre
            })
            &&& post.shelves.collection_loading@ == pre.shelves.collection_loading@.insert(id)
            &&& post.commands@ == pre.commands@.push(
                Command::CollectionPage { collection_id: id, cursor },
            )
        },
        None => post == pre,
    }
}

/// Where the first collection with an id stands.
pub(crate) fn find_collection(collections: &Vec<CollectionGames>, id: i64) -> (r: Option<usize>)
    ensures
        r matches Some(i) ==> i < collections@.len() && collection_with(collections@, id) == Some(
            collections@[i as int],
        ) && collections@[i as int].collection.id == id && forall|k: int|
            0 <= k < i ==> (#[trigger] collections@[k]).collection.id != id,
        r is None ==> collection_with(collections@, id) is None && forall|k: int|
            0 <= k < collections@.len() ==> (#[trigger] collections@[k]).collection.id != id,
{
    let mut i: usize = 0;
    assert(collections@.skip(0) =~= collections@);
    while i < collections.len()
        invariant
            i <= collections@.len(),
            collection_with(collections@.skip(i as int), id) == collection_with(collections@, id),
            forall|k: int| 0 <= k < i ==> (#[trigger] collections@[k]).collection.id != id,
        decreases collections@.len() - i,
    {
        assert(collections@.skip(i as int).skip(1) =~= collections@.skip(i + 1));
        if collections[i].collection.id == id {
            return Some(i);
        }
        i += 1;
    }
    None
}

impl App {
    pub(crate) fn send_update(&mut self, cave_id: &str)
        ensures
            update_sent(*old(self), cave_id@, *final(self)),
    {
        if let Some(update) = self.news.updates.get(cave_id) {
            let update = update.clone();
            let ghost before = self.commands@;
            self.commands.push(Command::Update { update });
            assert(self.commands@.drop_last() =~= before);
        }
    }

    pub(crate) fn update_all(&mut self)
        ensures
            updates_sent(
                *old(self),
                old(self).awaiting(old(self).library.caves@, true),
                *final(self),
            ),
    {
        let ghost pre = *self;
        let ids = self.pending_updates(true);
        let ghost n = pre.commands@.len();
        proof {
            crate::app::downloads::lemma_awaiting(pre, pre.library.caves@, true);
        }
        let mut i: usize = 0;
        assert(self.commands@.take(n as int) =~= pre.commands@);
        while i < ids.len()
            invariant
                i <= ids@.len(),
                n == pre.commands@.len(),
                ids@ == pre.awaiting(pre.library.caves@, true),
                forall|k: int|
                    0 <= k < ids@.len() ==> pre.news.updates@.contains_key(
                        (#[trigger] ids@[k])@,
                    ),
                updates_sent(pre, ids@.take(i as int), *self),
            decreases ids@.len() - i,
        {
            let ghost mid = *self;
            assert(pre.news.updates@.contains_key(ids@[i as int]@));
            self.send_update(ids[i].as_str());
            proof {
                let now = self.commands@;
                assert(now.drop_last() == mid.commands@);
                assert(now.take(n as int) =~= mid.commands@.take(n as int));
                let so_far = ids@.take(i + 1);
                assert forall|k: int| 0 <= k < so_far.len() implies {
                    &&& #[trigger] now[n + k] matches Command::Update { update }
                    &&& same_update(update, pre.news.updates@[so_far[k]@])
                } by {
                    if k < i {
                        assert(now[n + k] == mid.commands@[n + k]);
                        assert(so_far[k] == ids@.take(i as int)[k]);
                    } else {
                        assert(now[n + k] == now.last());
                    }
                }
            }
            i += 1;
        }
        assert(ids@.take(i as int) =~= ids@);
    }

    pub(crate) fn check_updates(&mut self)
        ensures
            check_begun(*old(self), *final(self)),
    {
        if self.news.online && !self.news.checking_updates {
            self.news.checking_updates = true;
            self.news.up_to_date_at = None;
            self.commands.push(Command::CheckUpdates);
        }
    }

    pub(crate) fn more_games(&mut self, row: usize)
        ensures
            page_requested(*old(self), row, *final(self)),
    {
        let (id, cursor) = {
            let sections = &self.shelves.collection_rows.sections;
            if row >= sections.len() {
                return;
            }
            assert(self.shelves.collection_rows@.sections[row as int] == sections@[row as int]@);
            let id = match sections[row].collection {
                Some(id) => id,
                None => {
                    return;
                },
            };
            let cursor = match &self.shelves.collections {
                Loadable::Loaded(collections) => match find_collection(collections, id) {
                    Some(i) => match &collections[i].next_cursor {
                        Some(cursor) => cursor.clone(),
                        None => {
                            return;
                        },
                    },
                    None => {
                        return;
                    },
                },
                _ => {
                    return;
                },
            };
            (id, cursor)
        };
        if !self.shelves.collection_loading.contains(&id) {
            self.shelves.collection_loading.insert(id);
            self.commands.push(Command::CollectionPage { collection_id: id, cursor });
        }
    }
}

// ---------------------------------------------------------------------------
// Playing, installing and uninstalling
// ---------------------------------------------------------------------------

/// A launch began, unless the game runs already; the failure of the last one is forgotten.
pub open spec fn launched(pre: App, cave_id: String, now: u64, post: App) -> bool {
    if pre.play.running@.contains_key(cave_id@) {
        post == pre
    } else {
        &&& post == (App { play: post.play, commands: post.commands, ..pre })
        &&& post.play.running@ == pre.play.running@.insert(cave_id@, now)
        &&& post.play.launch_failures@ == pre.play.launch_failures@.remove(cave_id@)
        &&& post.commands@ == pre.commands@.push(Command::Launch { cave_id })
    }
}

/// A running game is to end.
pub open spec fn game_quit(pre: App, cave_id: String, post: App) -> bool {
    if pre.play.running@.contains_key(cave_id@) {
        sent(pre, Command::QuitGame { cave_id }, post)
    } else {
        post == pre
    }
}

/// What the games show of their downloads follows from the queue.
pub open spec fn installs_fresh(app: App) -> bool {
    install_views(app.queue.installs@) == app.all_installs()
}

/// An install was asked for, unless one is under way: shown as installing from this instant,
/// until the queue listing that follows replaces it.
pub open spec fn install_begun(pre: App, game_id: i64, post: App) -> bool {
    match pre.known_game(game_id) {
        Some(game) if !pre.queue.installs@.contains_key(game_id) => {
            &&& post == (App {
                queue: Queue {
                    pending_installs: post.queue.pending_installs,
                    install_failures: post.queue.install_failures,
                    installs: post.queue.installs,
                    ..pre.queue
                },
                commands: post.commands,
                ..pre
            })
            &&& post.queue.pending_installs@ == pre.queue.pending_installs@.insert(game_id)
            &&& post.queue.install_failures@ == pre.queue.install_failures@.remove(game_id)
            &&& post.commands@ == pre.commands@.push(Command::Install { game })
            &&& installs_fresh(post)
        },
        _ => post == pre,
    }
}

/// The first download for a game.
pub open spec fn download_of(downloads: Seq<Download>, game_id: i64) -> Option<Download>
    decreases downloads.len(),
{
    if downloads.len() == 0 {
        None
    } else if downloads[0].game matches Some(game) && game.id == game_id {
        Some(downloads[0])
    } else {
        download_of(downloads.skip(1), game_id)
    }
}

/// A download is to go. A live one is worth a question; dismissing a failed one is not.
pub open spec fn install_cancelled(pre: App, game_id: i64, post: App) -> bool {
    match download_of(pre.queue.downloads@, game_id) {
        Some(download) => if download.finished_at is None {
            sent(
                pre,
                Command::Discard {
                    download_id: download.id,
                    confirm: Some(download.game->0.title),
                },
                post,
            )
        } else {
            &&& post == (App {
                queue: Queue {
                    discarding: post.queue.discarding,
                    installs: post.queue.installs,
                    ..pre.queue
                },
                commands: post.commands,
                ..pre
            })
            &&& post.queue.discarding@ == pre.queue.discarding@.insert(download.id@, ())
            &&& installs_fresh(post)
            &&& post.commands@ == pre.commands@.push(
                Command::Discard { download_id: download.id, confirm: None },
            )
        },
        None => post == pre,
    }
}

pub open spec fn install_retried(pre: App, game_id: i64, post: App) -> bool {
    match download_of(pre.queue.downloads@, game_id) {
        Some(download) => sent(pre, Command::Retry { download_id: download.id }, post),
        None => post == pre,
    }
}

/// An uninstall was asked for, with the game's title for the question.
pub open spec fn uninstall_asked(pre: App, cave_id: String, post: App) -> bool {
    let game = match cave_named(pre.library.caves@, cave_id@) {
        Some(cave) => cave.game,
        None => None,
    };
    &&& post == (App { commands: post.commands, ..pre })
    &&& post.commands@.len() == pre.commands@.len() + 1
    &&& post.commands@.drop_last() == pre.commands@
    &&& post.commands@.last() matches Command::Uninstall { cave_id: id, title }
    &&& id == cave_id
    &&& title@ == title_or(game, "this game"@)
}

fn find_download(downloads: &Vec<Download>, game_id: i64) -> (r: Option<usize>)
    ensures
        r matches Some(i) ==> i < downloads@.len() && download_of(downloads@, game_id) == Some(
            downloads@[i as int],
        ) && downloads@[i as int].game is Some,
        r is None ==> download_of(downloads@, game_id) is None,
{
    let mut i: usize = 0;
    assert(downloads@.skip(0) =~= downloads@);
    while i < downloads.len()
        invariant
            i <= downloads@.len(),
            download_of(downloads@.skip(i as int), game_id) == download_of(downloads@, game_id),
        decreases downloads@.len() - i,
    {
        assert(downloads@.skip(i as int).skip(1) =~= downloads@.skip(i + 1));
        if let Some(game) = &downloads[i].game {
            if game.id == game_id {
                return Some(i);
            }
        }
        i += 1;
    }
    None
}

impl App {
    /// The download of a game.
    pub fn download_for(&self, game_id: i64) -> (r: Option<&Download>)
        ensures
            r matches Some(d) ==> download_of(self.queue.downloads@, game_id) == Some(*d),
            r is None ==> download_of(self.queue.downloads@, game_id) is None,
    {
        match find_download(&self.queue.downloads, game_id) {
            Some(i) => Some(&self.queue.downloads[i]),
            None => None,
        }
    }

    pub(crate) fn play(&mut self, cave_id: String, now: u64)
        ensures
            launched(*old(self), cave_id, now, *final(self)),
    {
        if !self.play.running.contains_key(cave_id.as_str()) {
            self.play.running.insert(cave_id.clone(), now);
            self.play.launch_failures.remove(cave_id.as_str());
            self.commands.push(Command::Launch { cave_id });
        }
    }

    pub(crate) fn quit_game(&mut self, cave_id: String)
        ensures
            game_quit(*old(self), cave_id, *final(self)),
    {
        if self.play.running.contains_key(cave_id.as_str()) {
            self.commands.push(Command::QuitGame { cave_id });
        }
    }

    pub(crate) fn install(&mut self, game_id: i64)
        ensures
            install_begun(*old(self), game_id, *final(self)),
    {
        let game = match self.game(game_id) {
            Some(game) => game.clone(),
            None => {
                return;
            },
        };
        if self.queue.installs.contains_key(&game_id) {
            return;
        }
        self.queue.pending_installs.insert(game_id);
        self.queue.install_failures.remove(&game_id);
        self.commands.push(Command::Install { game });
        let ghost mid = *self;
        self.rebuild_installs();
        proof {
            lemma_installs_ignore_themselves(mid, *self);
        }
    }

    pub(crate) fn cancel_install(&mut self, game_id: i64)
        ensures
            install_cancelled(*old(self), game_id, *final(self)),
    {
        let i = match find_download(&self.queue.downloads, game_id) {
            Some(i) => i,
            None => {
                return;
            },
        };
        let download_id = self.queue.downloads[i].id.clone();
        if self.queue.downloads[i].finished_at.is_none() {
            let title = match &self.queue.downloads[i].game {
                Some(game) => game.title.clone(),
                None => "this game".to_owned(),
            };
            self.commands.push(Command::Discard { download_id, confirm: Some(title) });
        } else {
            self.queue.discarding.insert(download_id.clone(), ());
            let ghost mid = *self;
            self.rebuild_installs();
            proof {
                lemma_installs_ignore_themselves(mid, *self);
            }
            let ghost after = *self;
            self.commands.push(Command::Discard { download_id, confirm: None });
            proof {
                lemma_installs_ignore_themselves(after, *self);
            }
        }
    }

    pub(crate) fn retry_install(&mut self, game_id: i64)
        ensures
            install_retried(*old(self), game_id, *final(self)),
    {
        let download_id = match self.download_for(game_id) {
            Some(download) => download.id.clone(),
            None => {
                return;
            },
        };
        self.commands.push(Command::Retry { download_id });
    }

    pub(crate) fn uninstall(&mut self, cave_id: String)
        ensures
            uninstall_asked(*old(self), cave_id, *final(self)),
    {
        let title = match find_cave(&self.library.caves, cave_id.as_str()) {
            Some(cave) => match &cave.game {
                Some(game) => game.title.clone(),
                None => "this game".to_owned(),
            },
            None => "this game".to_owned(),
        };
        let ghost before = self.commands@;
        self.commands.push(Command::Uninstall { cave_id, title });
        assert(self.commands@.drop_last() =~= before);
    }
}

proof fn lemma_queued_installs(a: App, b: App, downloads: Seq<Download>)
    requires
        a.queue.progress == b.queue.progress,
        a.queue.discarding == b.queue.discarding,
    ensures
        a.queued_installs(downloads) == b.queued_installs(downloads),
    decreases downloads.len(),
{
    if downloads.len() > 0 {
        lemma_queued_installs(a, b, downloads.drop_last());
    }
}

/// What the games show rests on the queue alone.
pub(crate) proof fn lemma_installs_ignore_themselves(a: App, b: App)
    requires
        a.queue.progress == b.queue.progress,
        a.queue.discarding == b.queue.discarding,
        a.queue.downloads == b.queue.downloads,
        a.queue.pending_installs == b.queue.pending_installs,
    ensures
        a.all_installs() == b.all_installs(),
{
    lemma_queued_installs(a, b, a.queue.downloads@);
}

} // verus!
