//! What each piece of news comes to, whatever the interface knows.
use vstd::prelude::*;
use vstd::string::*;
use crate::app::catalog::{installed_games_are_in_the_catalog, owned_records_win};
use crate::app::events::{last_lists, lists_without, unknown_games};
use crate::app::news::{
    download_ids, downloaded_games, handled, install_failed, no_longer_pending, updates_by_cave,
};
use crate::app::showing::{is_of, some_install};
use crate::app::state::{loaded, App, WindowRequest};
use crate::backend::{Command, Event};
use crate::model::{
    Cave, CollectionGames, Download, DownloadProgress, Game, GameUpdate, LaunchFailure, Loadable,
    Page, Profile,
};

verus! {

// ---------------------------------------------------------------------------
// The library
// ---------------------------------------------------------------------------

/// The owned games that arrive are the library from then on, in their order, and a refresh that
/// ran has ended; every one of them is in the catalog as the account has it.
pub proof fn owned_games_arrive(pre: App, games: Vec<Game>, i: int, now: u64, post: App)
    requires
        handled(pre, Event::OwnedGames(games), now, post),
    ensures
        loaded(post.library.owned) == games@ && post.library.owned is Loaded,
        !post.news.refreshing,
        post.library.caves == pre.library.caves && post.commands@ == pre.commands@,
        0 <= i < games@.len() && (forall|j: int|
            i < j < games@.len() ==> (#[trigger] games@[j]).id != games@[i].id)
            ==> post.library.catalog@.contains_key(games@[i].id)
            && post.library.catalog@[games@[i].id] == games@[i],
{
    if 0 <= i < games@.len() && (forall|j: int|
        i < j < games@.len() ==> (#[trigger] games@[j]).id != games@[i].id) {
        owned_records_win(post, i);
    }
}

/// The installs that arrive are the installs from then on: a game counts as installed exactly
/// where it has one, and its page can be opened. What butler had listed of the collections is
/// out of date.
pub proof fn installs_arrive(pre: App, caves: Vec<Cave>, id: i64, now: u64, post: App)
    requires
        handled(pre, Event::Caves(caves), now, post),
    ensures
        post.library.caves == caves,
        post.library.installed@.contains(id) <==> some_install(caves@, id),
        some_install(caves@, id) ==> post.library.catalog@.contains_key(id),
        post.shelves.collection_installed is None,
        post.library.owned == pre.library.owned,
{
    let ids = crate::app::sections::game_ids(caves@);
    crate::app::showing::every_install_shows_its_game(post, id);
    lemma_ids(caves@, id);
    if some_install(caves@, id) {
        let i = choose|i: int| 0 <= i < caves@.len() && is_of(#[trigger] caves@[i], id);
        installed_games_are_in_the_catalog(post, i);
    }
}

proof fn lemma_ids(caves: Seq<Cave>, id: i64)
    ensures
        crate::app::sections::game_ids(caves).contains(id) <==> some_install(caves, id),
    decreases caves.len(),
{
    if caves.len() > 0 {
        let rest = caves.drop_last();
        lemma_ids(rest, id);
        let before = crate::app::sections::game_ids(rest);
        let all = crate::app::sections::game_ids(caves);
        if all.contains(id) {
            let k = choose|k: int| 0 <= k < all.len() && all[k] == id;
            if k < before.len() {
                assert(before[k] == id);
                let i = choose|i: int| 0 <= i < rest.len() && is_of(#[trigger] rest[i], id);
                assert(is_of(caves[i], id));
            } else {
                assert(is_of(caves[caves.len() - 1], id));
            }
        }
        if some_install(caves, id) {
            let i = choose|i: int| 0 <= i < caves.len() && is_of(#[trigger] caves[i], id);
            if i < rest.len() {
                assert(is_of(rest[i], id));
                let k = choose|k: int| 0 <= k < before.len() && before[k] == id;
                assert(all[k] == id);
            } else {
                assert(all[all.len() - 1] == id);
            }
        }
    }
}

/// Who signed in is shown, and so is how the loading goes.
pub proof fn sign_in_and_status_are_shown(pre: App, profile: Profile, text: String, now: u64, post: App)
    ensures
        handled(pre, Event::SignedIn(profile), now, post) ==> post.library.profile == Some(profile)
            && post.screen == pre.screen,
        handled(pre, Event::Status(text), now, post) ==> post.screen.status == text && post.library
            == pre.library,
{
}

// ---------------------------------------------------------------------------
// Collections
// ---------------------------------------------------------------------------

/// The collections that arrive replace those there were, and no page is asked for any more.
pub proof fn collections_arrive(
    pre: App,
    collections: Vec<CollectionGames>,
    now: u64,
    post: App,
)
    requires
        handled(pre, Event::Collections(collections), now, post),
    ensures
        loaded(post.shelves.collections) == collections@ && post.shelves.collections is Loaded,
        post.shelves.collection_loading@ == Set::<i64>::empty(),
        pre.shelves.collections_installed_only ==> post.commands@.len() == pre.commands@.len() + 1
            && (post.commands@.last() matches Command::CollectionsInstalled { collection_ids }
            && collection_ids@.len() == collections@.len() && forall|i: int|
            0 <= i < collections@.len() ==> (#[trigger] collection_ids@[i])
                == collections@[i].collection.id),
        !pre.shelves.collections_installed_only ==> post.commands@ == pre.commands@,
        post.library.owned == pre.library.owned,
{
}

/// Collections that cannot be loaded say why, unless some are shown already.
pub proof fn failed_collections_say_why(pre: App, error: String, now: u64, post: App)
    requires
        handled(pre, Event::CollectionsFailed(error), now, post),
    ensures
        pre.shelves.collections is Loaded ==> post == pre,
        !(pre.shelves.collections is Loaded) ==> post.shelves.collections
            == Loadable::<Vec<CollectionGames>>::Failed(error),
{
}

proof fn lemma_unknown(known: Seq<Game>, games: Seq<Game>, game: Game)
    ensures
        unknown_games(known, games).contains(game) <==> games.contains(game) && forall|k: int|
            0 <= k < known.len() ==> (#[trigger] known[k]).id != game.id,
    decreases games.len(),
{
    if games.len() > 0 {
        let rest = games.drop_last();
        lemma_unknown(known, rest, game);
        let before = unknown_games(known, rest);
        let all = unknown_games(known, games);
        if all.contains(game) {
            let k = choose|k: int| 0 <= k < all.len() && all[k] == game;
            if k < before.len() {
                assert(before[k] == game);
                let i = choose|i: int| 0 <= i < rest.len() && rest[i] == game;
                assert(games[i] == game);
            } else {
                assert(games[games.len() - 1] == game);
            }
        }
        if games.contains(game) {
            let i = choose|i: int| 0 <= i < games.len() && games[i] == game;
            if i < rest.len() {
                assert(rest[i] == game);
                if before.contains(game) {
                    let k = choose|k: int| 0 <= k < before.len() && before[k] == game;
                    assert(all[k] == game);
                }
            } else if forall|k: int| 0 <= k < known.len() ==> (#[trigger] known[k]).id != game.id {
                assert(all[all.len() - 1] == game);
            }
        }
    }
}

/// A page of a collection goes behind the games that the collection had, without those it had
/// already; the cursor is the page's, so that the next page follows it, and the collection can
/// be asked for more again. The other collections stay as they are.
pub proof fn pages_go_behind_the_games_there_are(
    pre: App,
    i: int,
    games: Vec<Game>,
    next_cursor: Option<String>,
    game: Game,
    now: u64,
    post: App,
)
    requires
        0 <= i < loaded(pre.shelves.collections).len(),
        forall|k: int|
            0 <= k < i ==> (#[trigger] loaded(pre.shelves.collections)[k]).collection.id != loaded(
                pre.shelves.collections,
            )[i].collection.id,
        handled(
            pre,
            Event::CollectionPage {
                collection_id: loaded(pre.shelves.collections)[i].collection.id,
                games,
                next_cursor,
            },
            now,
            post,
        ),
    ensures
        ({
            let before = loaded(pre.shelves.collections)[i];
            let after = loaded(post.shelves.collections)[i];
            &&& loaded(post.shelves.collections).len() == loaded(pre.shelves.collections).len()
            &&& after.collection == before.collection
            &&& after.next_cursor == next_cursor
            &&& after.games@.len() >= before.games@.len()
            &&& after.games@.take(before.games@.len() as int) == before.games@
            &&& after.games@.skip(before.games@.len() as int).contains(game) <==> games@.contains(game)
                && forall|k: int|
                0 <= k < before.games@.len() ==> (#[trigger] before.games@[k]).id != game.id
            &&& !post.shelves.collection_loading@.contains(before.collection.id)
            &&& forall|k: int|
                0 <= k < loaded(pre.shelves.collections).len() && k != i ==> (#[trigger] loaded(
                    post.shelves.collections,
                )[k]) == loaded(pre.shelves.collections)[k]
        }),
        post.commands@ == pre.commands@,
{
    let all = loaded(pre.shelves.collections);
    let now_all = loaded(post.shelves.collections);
    let before = all[i];
    let after = now_all[i];
    assert(after.games@ == before.games@ + unknown_games(before.games@, games@));
    assert(after.games@.take(before.games@.len() as int) =~= before.games@);
    assert(after.games@.skip(before.games@.len() as int) =~= unknown_games(
        before.games@,
        games@,
    ));
    lemma_unknown(before.games@, games@, game);
    assert forall|k: int| 0 <= k < all.len() && k != i implies (#[trigger] now_all[k]) == all[k] by {
        if all[k].collection.id == before.collection.id {
            assert(k > i);
        }
    }
}

/// A page that cannot be loaded ends its collection where it is, and a notice says why.
pub proof fn failed_pages_end_their_collection(
    pre: App,
    i: int,
    error: String,
    now: u64,
    post: App,
)
    requires
        0 <= i < loaded(pre.shelves.collections).len(),
        forall|k: int|
            0 <= k < i ==> (#[trigger] loaded(pre.shelves.collections)[k]).collection.id != loaded(
                pre.shelves.collections,
            )[i].collection.id,
        handled(
            pre,
            Event::CollectionPageFailed {
                collection_id: loaded(pre.shelves.collections)[i].collection.id,
                error,
            },
            now,
            post,
        ),
    ensures
        loaded(post.shelves.collections)[i].next_cursor is None,
        loaded(post.shelves.collections)[i].games == loaded(pre.shelves.collections)[i].games,
        !post.shelves.collection_loading@.contains(loaded(pre.shelves.collections)[i].collection.id),
        post.screen.notice matches Some((words, at)) && words@ == "Couldn't load more: "@ + error@
            && at == now,
{
}

/// Of the lists of installed games that arrive, the last one of each collection is kept.
pub proof fn the_last_list_of_a_collection_is_kept(lists: Seq<(i64, Vec<Game>)>, i: int)
    requires
        0 <= i < lists.len(),
    ensures
        (forall|j: int| i < j < lists.len() ==> (#[trigger] lists[j]).0 != lists[i].0)
            ==> last_lists(lists).contains(lists[i]),
    decreases lists.len(),
{
    if i < lists.len() - 1 {
        let rest = lists.drop_last();
        the_last_list_of_a_collection_is_kept(rest, i);
        assert(rest[i] == lists[i]);
        if forall|j: int| i < j < lists.len() ==> (#[trigger] lists[j]).0 != lists[i].0 {
            assert forall|j: int| i < j < rest.len() implies (#[trigger] rest[j]).0 != rest[i].0 by {
                assert(rest[j] == lists[j]);
            }
            assert(lists[lists.len() - 1].0 != lists[i].0);
            lemma_lists_without(last_lists(rest), lists.last().0, lists[i]);
            let kept = lists_without(last_lists(rest), lists.last().0);
            let k = choose|k: int| 0 <= k < kept.len() && kept[k] == lists[i];
            assert(last_lists(lists)[k] == lists[i]);
        }
    } else {
        let all = last_lists(lists);
        assert(all[all.len() - 1] == lists[i]);
    }
}

proof fn lemma_lists_without(lists: Seq<(i64, Vec<Game>)>, id: i64, list: (i64, Vec<Game>))
    ensures
        lists_without(lists, id).contains(list) <==> lists.contains(list) && list.0 != id,
    decreases lists.len(),
{
    if lists.len() > 0 {
        let rest = lists.drop_last();
        lemma_lists_without(rest, id, list);
        let before = lists_without(rest, id);
        let all = lists_without(lists, id);
        if all.contains(list) {
            let k = choose|k: int| 0 <= k < all.len() && all[k] == list;
            if k < before.len() {
                assert(before[k] == list);
                let i = choose|i: int| 0 <= i < rest.len() && rest[i] == list;
                assert(lists[i] == list);
            } else {
                assert(lists[lists.len() - 1] == list);
            }
        }
        if lists.contains(list) && list.0 != id {
            let i = choose|i: int| 0 <= i < lists.len() && lists[i] == list;
            if i < rest.len() {
                assert(rest[i] == list);
                let k = choose|k: int| 0 <= k < before.len() && before[k] == list;
                assert(all[k] == list);
            } else {
                assert(all[all.len() - 1] == list);
            }
        }
    }
}

// ---------------------------------------------------------------------------
// Downloads
// ---------------------------------------------------------------------------

proof fn lemma_downloaded(downloads: Seq<Download>, id: i64)
    ensures
        downloaded_games(downloads).contains(id) <==> exists|i: int|
            0 <= i < downloads.len() && ((#[trigger] downloads[i]).game matches Some(game) && game.id
                == id),
    decreases downloads.len(),
{
    if downloads.len() > 0 {
        let rest = downloads.drop_last();
        lemma_downloaded(rest, id);
        let last = downloads.len() - 1;
        if exists|i: int|
            0 <= i < downloads.len() && ((#[trigger] downloads[i]).game matches Some(game) && game.id
                == id) {
            let i = choose|i: int|
                0 <= i < downloads.len() && ((#[trigger] downloads[i]).game matches Some(game)
                    && game.id == id);
            if i < last {
                assert(rest[i] == downloads[i]);
            }
        }
        if exists|i: int|
            0 <= i < rest.len() && ((#[trigger] rest[i]).game matches Some(game) && game.id == id) {
            let i = choose|i: int|
                0 <= i < rest.len() && ((#[trigger] rest[i]).game matches Some(game) && game.id
                    == id);
            assert(downloads[i] == rest[i]);
        }
        if downloads.last().game matches Some(game) && game.id == id {
            assert(downloads[last].game is Some);
        }
    }
}

/// A queue that arrives replaces the one there was. What is known of a download's progress and
/// of its cancelling stays exactly as long as the queue lists it, and a game counts as only
/// asked for until the queue lists a download of it.
pub proof fn queues_replace_each_other(
    pre: App,
    downloads: Vec<Download>,
    download_id: Seq<char>,
    game_id: i64,
    now: u64,
    post: App,
)
    requires
        handled(pre, Event::Downloads(downloads), now, post),
    ensures
        post.queue.downloads == downloads,
        ({
            let listed = exists|i: int|
                0 <= i < downloads@.len() && (#[trigger] downloads@[i]).id@ == download_id;
            &&& post.queue.progress@.contains_key(download_id) <==> listed
                && pre.queue.progress@.contains_key(download_id)
            &&& post.queue.progress@.contains_key(download_id)
                ==> post.queue.progress@[download_id] == pre.queue.progress@[download_id]
            &&& post.queue.discarding@.contains_key(download_id) <==> listed
                && pre.queue.discarding@.contains_key(download_id)
        }),
        post.queue.pending_installs@.contains(game_id) <==> pre.queue.pending_installs@.contains(
            game_id,
        ) && !exists|i: int|
            0 <= i < downloads@.len() && ((#[trigger] downloads@[i]).game matches Some(game)
                && game.id == game_id),
        post.queue.install_failures == pre.queue.install_failures && post.commands@
            == pre.commands@,
{
    let ids = download_ids(downloads@);
    lemma_downloaded(downloads@, game_id);
    if exists|i: int| 0 <= i < downloads@.len() && (#[trigger] downloads@[i]).id@ == download_id {
        let i = choose|i: int|
            0 <= i < downloads@.len() && (#[trigger] downloads@[i]).id@ == download_id;
        assert(ids[i] == download_id);
        assert(ids.contains(download_id));
        assert(ids.to_set().contains(download_id));
    }
    if ids.to_set().contains(download_id) {
        assert(ids.contains(download_id));
        let i = choose|i: int| 0 <= i < ids.len() && ids[i] == download_id;
        assert(downloads@[i].id@ == download_id);
    }
}

/// Progress is noted for the download it is of, and no other.
pub proof fn progress_is_noted(
    pre: App,
    download_id: String,
    progress: DownloadProgress,
    other: Seq<char>,
    now: u64,
    post: App,
)
    requires
        handled(pre, Event::DownloadProgress { download_id, progress }, now, post),
    ensures
        post.queue.progress@.contains_key(download_id@) && post.queue.progress@[download_id@]
            == progress,
        other != download_id@ ==> post.queue.progress@.contains_key(other)
            == pre.queue.progress@.contains_key(other) && (post.queue.progress@.contains_key(other)
            ==> post.queue.progress@[other] == pre.queue.progress@[other]),
        post.queue.downloads == pre.queue.downloads && post.commands@ == pre.commands@,
{
}

/// A download that has been fetched was the update of its install: that update waits no more,
/// and the others do.
pub proof fn fetched_updates_wait_no_more(
    pre: App,
    download: Download,
    other: Seq<char>,
    now: u64,
    post: App,
)
    requires
        handled(pre, Event::DownloadFinished(download), now, post),
    ensures
        !post.news.updates@.contains_key(download.cave_id@),
        other != download.cave_id@ && pre.news.updates@.contains_key(other)
            ==> post.news.updates@.contains_key(other) && post.news.updates@[other]
            == pre.news.updates@[other],
        post.news.updates@.contains_key(other) ==> pre.news.updates@.contains_key(other),
        post.queue == pre.queue,
{
}

/// An install that failed is kept with its reason until the next attempt, and is no longer only
/// asked for; a notice says so unless the game's page shows it.
pub proof fn failed_installs_say_why(
    pre: App,
    game_id: i64,
    error: String,
    other: i64,
    now: u64,
    post: App,
)
    requires
        handled(pre, Event::InstallFailed { game_id, error }, now, post),
    ensures
        post.queue.install_failures@.contains_key(game_id),
        post.queue.install_failures@[game_id]@ == error@,
        !post.queue.pending_installs@.contains(game_id),
        other != game_id ==> post.queue.pending_installs@.contains(other)
            == pre.queue.pending_installs@.contains(other),
        other != game_id && pre.queue.install_failures@.contains_key(other)
            ==> post.queue.install_failures@.contains_key(other),
        (pre.screen.page matches Page::Game { id, .. } && id == game_id) ==> post.screen
            == pre.screen,
        !(pre.screen.page matches Page::Game { id, .. } && id == game_id) ==> (
        post.screen.notice matches Some((words, at)) && at == now && (
        pre.library.catalog@.contains_key(game_id) ==> words@ == "Couldn't install "@
            + pre.library.catalog@[game_id].title@ + ": "@ + error@)),
        post.commands@ == pre.commands@,
{
    let mid = choose|mid: App| #[trigger]
        no_longer_pending(pre, game_id, mid) && install_failed(mid, game_id, error@, now, post);
    if other != game_id && pre.queue.install_failures@.contains_key(other) {
        assert(pre.queue.install_failures@.remove(game_id).contains_key(other));
        assert(post.queue.install_failures@.remove(game_id).contains_key(other));
    }
}

/// A download that failed is told of in the same way, with butler's words where it has some.
pub proof fn failed_downloads_say_why(pre: App, download: Download, now: u64, post: App)
    requires
        handled(pre, Event::DownloadErrored(download), now, post),
        download.game is Some,
    ensures
        post.queue.install_failures@.contains_key(download.game->0.id),
        ({
            let words = post.queue.install_failures@[download.game->0.id]@;
            match (download.error_message, download.error) {
                (Some(message), _) => words == message@,
                (None, Some(code)) => words == code@,
                (None, None) => words == "unknown error"@,
            }
        }),
        post.queue.downloads == pre.queue.downloads,
{
}

/// A user who declines to install is asked no more of it, and no failure is shown.
pub proof fn declined_installs_are_forgotten(pre: App, game_id: i64, now: u64, post: App)
    requires
        handled(pre, Event::InstallDeclined { game_id }, now, post),
    ensures
        !post.queue.pending_installs@.contains(game_id),
        post.queue.install_failures == pre.queue.install_failures,
        post.screen == pre.screen && post.commands@ == pre.commands@,
{
}

/// A download shows as being cancelled from when the user agreed until butler says that it
/// could not be.
pub proof fn cancelling_shows_until_it_fails(
    pre: App,
    download_id: String,
    error: String,
    now: u64,
    post: App,
)
    ensures
        handled(pre, Event::Discarding { download_id }, now, post)
            ==> post.queue.discarding@.contains_key(download_id@) && post.screen == pre.screen,
        handled(pre, Event::DiscardFailed { download_id, error }, now, post)
            ==> !post.queue.discarding@.contains_key(download_id@) && (
        post.screen.notice matches Some((words, at)) && words@ == "Couldn't cancel: "@ + error@ && at
            == now),
{
}

proof fn lemma_updates_by_cave(updates: Seq<GameUpdate>, i: int)
    requires
        0 <= i < updates.len(),
        forall|j: int| i < j < updates.len() ==> (#[trigger] updates[j]).cave_id@ != updates[i].cave_id@,
    ensures
        updates_by_cave(updates).contains_key(updates[i].cave_id@),
        updates_by_cave(updates)[updates[i].cave_id@] == updates[i],
    decreases updates.len(),
{
    if i < updates.len() - 1 {
        let rest = updates.drop_last();
        assert forall|j: int| i < j < rest.len() implies (#[trigger] rest[j]).cave_id@
            != rest[i].cave_id@ by {
            assert(rest[j] == updates[j]);
        }
        lemma_updates_by_cave(rest, i);
        assert(updates[updates.len() - 1].cave_id@ != updates[i].cave_id@);
    }
}

proof fn lemma_no_other_updates(updates: Seq<GameUpdate>, cave_id: Seq<char>)
    ensures
        updates_by_cave(updates).contains_key(cave_id) ==> exists|i: int|
            0 <= i < updates.len() && (#[trigger] updates[i]).cave_id@ == cave_id,
    decreases updates.len(),
{
    if updates.len() > 0 {
        let rest = updates.drop_last();
        lemma_no_other_updates(rest, cave_id);
        if updates_by_cave(updates).contains_key(cave_id) {
            if updates.last().cave_id@ == cave_id {
                assert(updates[updates.len() - 1].cave_id@ == cave_id);
            } else {
                let i = choose|i: int|
                    0 <= i < rest.len() && (#[trigger] rest[i]).cave_id@ == cave_id;
                assert(updates[i].cave_id@ == cave_id);
            }
        }
    }
}

/// The updates that butler found replace those known before: each waits for its install, and
/// none that butler no longer reports does. A check that the user asked for has ended, and one
/// that found nothing says so.
pub proof fn updates_replace_each_other(
    pre: App,
    updates: Vec<GameUpdate>,
    i: int,
    cave_id: Seq<char>,
    now: u64,
    post: App,
)
    requires
        handled(pre, Event::Updates(updates), now, post),
    ensures
        0 <= i < updates@.len() && (forall|j: int|
            i < j < updates@.len() ==> (#[trigger] updates@[j]).cave_id@ != updates@[i].cave_id@)
            ==> post.news.updates@.contains_key(updates@[i].cave_id@)
            && post.news.updates@[updates@[i].cave_id@] == updates@[i],
        post.news.updates@.contains_key(cave_id) ==> exists|k: int|
            0 <= k < updates@.len() && (#[trigger] updates@[k]).cave_id@ == cave_id,
        !post.news.checking_updates,
        pre.news.checking_updates && updates@.len() == 0 ==> post.news.up_to_date_at == Some(now),
        !pre.news.checking_updates || updates@.len() > 0 ==> post.news.up_to_date_at
            == pre.news.up_to_date_at,
        post.commands@ == pre.commands@ && post.screen == pre.screen,
{
    if 0 <= i < updates@.len() && (forall|j: int|
        i < j < updates@.len() ==> (#[trigger] updates@[j]).cave_id@ != updates@[i].cave_id@) {
        lemma_updates_by_cave(updates@, i);
    }
    lemma_no_other_updates(updates@, cave_id);
}

// ---------------------------------------------------------------------------
// Launches
// ---------------------------------------------------------------------------

/// A game that has ended runs no more, and the window comes back to the front. One that failed
/// says why, on its page or in a notice; one that went well leaves no failure behind.
pub proof fn ended_games_run_no_more(
    pre: App,
    cave_id: String,
    result: Result<(), LaunchFailure>,
    other: Seq<char>,
    now: u64,
    post: App,
)
    requires
        handled(pre, Event::LaunchFinished { cave_id, result }, now, post),
    ensures
        !post.play.running@.contains_key(cave_id@),
        other != cave_id@ ==> post.play.running@.contains_key(other)
            == pre.play.running@.contains_key(other),
        post.window@ == pre.window@.push(WindowRequest::Restore).push(WindowRequest::Focus),
        result is Ok ==> post.play.launch_failures@ == pre.play.launch_failures@ && post.screen
            == pre.screen,
        result matches Err(failure) ==> post.play.launch_failures@.contains_key(cave_id@)
            && post.play.launch_failures@[cave_id@] == failure,
        result matches Err(failure) ==> post.screen == pre.screen || (
        post.screen.notice matches Some((words, at)) && words@ == "Couldn't launch: "@
            + failure.message@ && at == now),
        result is Err && pre.screen.page == Page::Library ==> post.screen.notice is Some,
        post.commands@ == pre.commands@,
{
}

/// While a game runs the window steps aside, where the user wants it to.
pub proof fn windows_step_aside_for_games(pre: App, event: Event, now: u64, post: App)
    requires
        event is LaunchRunning,
        handled(pre, event, now, post),
    ensures
        pre.device.minimize_while_playing ==> post.window@ == pre.window@.push(
            WindowRequest::Minimize,
        ),
        !pre.device.minimize_while_playing ==> post == pre,
        post.play == pre.play,
{
}

/// An uninstall that failed says so; one that went well says nothing.
pub proof fn failed_uninstalls_say_so(
    pre: App,
    cave_id: String,
    result: Result<(), String>,
    now: u64,
    post: App,
)
    requires
        handled(pre, Event::UninstallFinished { cave_id, result }, now, post),
    ensures
        result is Ok ==> post == pre,
        result matches Err(error) ==> (post.screen.notice matches Some((words, at)) && words@
            == "Uninstall failed: "@ + error@ && at == now),
        post.library == pre.library,
{
}

// ---------------------------------------------------------------------------
// The connection, and what went wrong
// ---------------------------------------------------------------------------

/// The interface knows whether itch.io can be reached; going offline ends a refresh, which can
/// no longer come back.
pub proof fn the_connection_is_known(pre: App, online: bool, now: u64, post: App)
    requires
        handled(pre, Event::Online(online), now, post),
    ensures
        post.news.online == online,
        !online ==> !post.news.refreshing,
        online ==> post.news.refreshing == pre.news.refreshing,
        post.news.updates == pre.news.updates && post.screen == pre.screen && post.queue
            == pre.queue,
{
}

/// An error shows as a notice once the library has loaded, and in its place before.
pub proof fn errors_are_shown(pre: App, message: String, now: u64, post: App)
    requires
        handled(pre, Event::Error(message), now, post),
    ensures
        pre.library.owned is Loaded ==> (post.screen.notice matches Some((words, at)) && words@
            == message@ && at == now) && post.library == pre.library,
        !(pre.library.owned is Loaded) ==> post.library.owned == Loadable::<Vec<Game>>::Failed(
            message,
        ) && post.screen == pre.screen,
        (exists|rest: Seq<char>| message@ == "Couldn't check for updates"@ + rest)
            ==> !post.news.checking_updates,
        !(exists|rest: Seq<char>| message@ == "Couldn't check for updates"@ + rest)
            ==> post.news.checking_updates == pre.news.checking_updates,
{
    let head = "Couldn't check for updates"@;
    if exists|rest: Seq<char>| message@ == head + rest {
        let rest = choose|rest: Seq<char>| message@ == head + rest;
        assert(message@.take(head.len() as int) =~= head);
    }
    if crate::text::starts_with(message@, head) {
        assert(message@ =~= head + message@.skip(head.len() as int));
    }
}

/// A sync that failed ends the refresh that the user asked for.
pub proof fn failed_syncs_end_the_refresh(pre: App, event: Event, now: u64, post: App)
    requires
        event is SyncFailed,
        handled(pre, event, now, post),
    ensures
        !post.news.refreshing,
        post.library == pre.library && post.screen == pre.screen,
{
}

/// What butler lists of the installed games is kept until the installs change, and every game of
/// it can be shown.
pub proof fn lists_of_installed_games_are_kept(
    pre: App,
    lists: Vec<(i64, Vec<Game>)>,
    i: int,
    now: u64,
    post: App,
)
    requires
        handled(pre, Event::CollectionsInstalled(lists), now, post),
        0 <= i < lists@.len(),
        forall|j: int| i < j < lists@.len() ==> (#[trigger] lists@[j]).0 != lists@[i].0,
    ensures
        post.shelves.collection_installed matches Some(kept) && kept@.contains(lists@[i]),
        forall|k: int|
            0 <= k < lists@[i].1@.len() ==> post.library.catalog@.contains_key(
                (#[trigger] lists@[i].1@[k]).id,
            ),
        post.commands@ == pre.commands@ && post.shelves.collections == pre.shelves.collections,
{
    the_last_list_of_a_collection_is_kept(lists@, i);
    let kept = post.shelves.collection_installed->0@;
    assert(kept.contains(lists@[i]));
    assert forall|k: int| 0 <= k < lists@[i].1@.len() implies post.library.catalog@.contains_key(
        (#[trigger] lists@[i].1@[k]).id,
    ) by {
        let id = lists@[i].1@[k].id;
        let at = choose|at: int| 0 <= at < kept.len() && kept[at] == lists@[i];
        assert(crate::app::catalog::lists(kept[at].1@, id));
        crate::app::catalog::every_game_comes_from_somewhere(post, id);
        assert(crate::app::catalog::some_list_lists(kept, id));
    }
}

/// When the installs change, butler is asked again which games of the collections are installed,
/// while only those are shown.
pub proof fn changed_installs_are_asked_about(pre: App, caves: Vec<Cave>, now: u64, post: App)
    requires
        handled(pre, Event::Caves(caves), now, post),
    ensures
        pre.shelves.collections_installed_only && pre.shelves.collections is Loaded
            ==> post.commands@.len() == pre.commands@.len() + 1 && (
        post.commands@.last() matches Command::CollectionsInstalled { collection_ids }
            && collection_ids@.len() == loaded(pre.shelves.collections).len()),
        !pre.shelves.collections_installed_only || !(pre.shelves.collections is Loaded)
            ==> post.commands@ == pre.commands@,
{
}

proof fn lemma_prompts_without(prompts: Seq<crate::model::Prompt>, id: u64, keep: spec_fn(crate::model::Prompt) -> bool)
    requires
        forall|p: crate::model::Prompt| #[trigger] keep(p) == (p.id != id),
    ensures
        crate::app::news::prompts_without(prompts, id) == prompts.filter(keep),
    decreases prompts.len(),
{
    reveal(Seq::filter);
    if prompts.len() > 0 {
        lemma_prompts_without(prompts.drop_last(), id, keep);
        assert(keep(prompts.last()) == (prompts.last().id != id));
    } else {
        assert(prompts.filter(keep) =~= Seq::empty());
    }
}

/// Closing a question closes no other: every other one still shows or waits.
pub proof fn closing_a_question_leaves_the_others(
    pre: App,
    id: u64,
    prompt: crate::model::Prompt,
    now: u64,
    post: App,
)
    requires
        handled(pre, Event::PromptClosed(id), now, post),
        crate::app::laws::questions(pre).contains(prompt),
        prompt.id != id,
    ensures
        crate::app::laws::questions(post).contains(prompt),
        post.commands@ == pre.commands@,
{
    let waiting = crate::app::news::prompts_without(pre.screen.prompt_queue@, id);
    let keep = |p: crate::model::Prompt| p.id != id;
    lemma_prompts_without(pre.screen.prompt_queue@, id, keep);
    crate::lists::filtering_keeps_what_passes(pre.screen.prompt_queue@, keep);
    let before = crate::app::laws::questions(pre);
    let after = crate::app::laws::questions(post);
    let k = choose|k: int| 0 <= k < before.len() && before[k] == prompt;
    if pre.screen.prompt is Some && k == 0 {
        assert(after[0] == prompt);
    } else {
        let q = pre.screen.prompt_queue@;
        let j = if pre.screen.prompt is Some {
            k - 1
        } else {
            k
        };
        assert(q[j] == prompt);
        assert(q.contains(prompt) && keep(prompt));
        assert(waiting.contains(prompt));
        let w = choose|w: int| 0 <= w < waiting.len() && waiting[w] == prompt;
        if pre.screen.prompt matches Some(shown) && shown.id == id {
            if w > 0 {
                assert(after[w] == waiting.skip(1)[w - 1]);
                assert(after[w] == prompt);
            } else {
                assert(after[0] == prompt);
            }
        } else if pre.screen.prompt is Some {
            assert(after[w + 1] == prompt);
        } else {
            assert(after[w] == prompt);
        }
    }
}

} // verus!
