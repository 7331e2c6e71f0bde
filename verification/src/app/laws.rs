//! What holds of the interface whatever happens.
use vstd::prelude::*;
use crate::app::apply::answered;
use crate::app::catalog::{lists, with_collections, with_missing};
use crate::app::downloads::install_views;
use crate::app::events::catalog_fresh;
use crate::app::news::{handled, install_failed, no_longer_pending, prompts_without};
use crate::app::requests::{installs_fresh, lemma_installs_ignore_themselves};
use crate::app::run::applied;
use crate::app::sections::{distinct, game_ids};
use crate::app::state::{loaded, App};
use crate::backend::{Command, Event};
use crate::model::{Action, CollectionGames, Game, Kind, Loadable, Prompt};

verus! {

/// What is kept twice agrees: the catalog with what is owned, installed and collected, the
/// installed games with the installs, and what the games show with the download queue.
pub open spec fn consistent(app: App) -> bool {
    &&& catalog_fresh(app)
    &&& installs_fresh(app)
    &&& app.library.installed@ == game_ids(app.library.caves@).to_set()
}

/// An interface that knows nothing yet is consistent.
pub proof fn new_interfaces_are_consistent(app: App)
    requires
        app.library.owned is Loading,
        app.library.caves@.len() == 0,
        app.library.catalog@ == Map::<i64, Game>::empty(),
        app.library.installed@ == Set::<i64>::empty(),
        app.shelves.collections is NotLoaded,
        app.shelves.collection_installed is None,
        app.queue.downloads@.len() == 0,
        app.queue.pending_installs@ == Set::<i64>::empty(),
        app.queue.installs@ == Map::<i64, crate::model::InstallState>::empty(),
    ensures
        consistent(app),
{
    assert(game_ids(app.library.caves@) =~= Seq::empty());
    assert(app.library.installed@ =~= game_ids(app.library.caves@).to_set());
    assert(install_views(app.queue.installs@) =~= app.all_installs());
}

/// Every action keeps the interface consistent.
pub proof fn actions_keep_the_interface_consistent(pre: App, action: Action, now: u64, post: App)
    requires
        applied(pre, action, now, post),
        consistent(pre),
    ensures
        consistent(post),
{
    if post.queue == pre.queue {
        lemma_installs_ignore_themselves(pre, post);
    }
}

proof fn lemma_same_games(before: Seq<CollectionGames>, after: Seq<CollectionGames>, m: Map<i64, Game>)
    requires
        after.len() == before.len(),
        forall|i: int| 0 <= i < before.len() ==> (#[trigger] after[i]).games@ == before[i].games@,
    ensures
        with_collections(m, after) == with_collections(m, before),
    decreases before.len(),
{
    if before.len() > 0 {
        let a = after.drop_last();
        let b = before.drop_last();
        assert forall|i: int| 0 <= i < b.len() implies (#[trigger] a[i]).games@ == b[i].games@ by {
            assert(a[i] == after[i] && b[i] == before[i]);
        }
        lemma_same_games(b, a, m);
        assert(after[after.len() - 1].games@ == before[before.len() - 1].games@);
    }
}

/// Every piece of news keeps the interface consistent.
pub proof fn news_keeps_the_interface_consistent(pre: App, event: Event, now: u64, post: App)
    requires
        handled(pre, event, now, post),
        consistent(pre),
    ensures
        consistent(post),
{
    if post.queue == pre.queue {
        lemma_installs_ignore_themselves(pre, post);
    }
    match event {
        Event::CollectionPageFailed { collection_id, error } => {
            if let Loadable::Loaded(before) = pre.shelves.collections {
                let after = post.shelves.collections->Loaded_0;
                assert forall|i: int| 0 <= i < before@.len() implies (
                #[trigger] after@[i]).games@ == before@[i].games@ by {}
                let here = with_missing(
                    crate::app::catalog::with_latest(Map::empty(), loaded(pre.library.owned)),
                    crate::app::catalog::cave_games(pre.library.caves@),
                );
                lemma_same_games(before@, after@, here);
            }
        },
        Event::DownloadErrored(download) => {
            lemma_installs_ignore_themselves(pre, post);
        },
        Event::InstallFailed { game_id, error } => {
            let mid = choose|mid: App| #[trigger]
                no_longer_pending(pre, game_id, mid) && install_failed(
                    mid,
                    game_id,
                    error@,
                    now,
                    post,
                );
            lemma_installs_ignore_themselves(mid, post);
        },
        _ => {},
    }
}

/// The questions on the screen, the one that shows first.
pub open spec fn questions(app: App) -> Seq<Prompt> {
    match app.screen.prompt {
        Some(prompt) => seq![prompt] + app.screen.prompt_queue@,
        None => app.screen.prompt_queue@,
    }
}

/// Questions wait only behind one that shows.
pub open spec fn questions_in_order(app: App) -> bool {
    app.screen.prompt is None ==> app.screen.prompt_queue@.len() == 0
}

/// A question that arrives goes behind those that are there: they are answered in the order
/// in which they came.
pub proof fn questions_come_in_order(pre: App, prompt: Prompt, now: u64, post: App)
    requires
        questions_in_order(pre),
        handled(pre, Event::Prompt(prompt), now, post),
    ensures
        questions(post) == questions(pre).push(prompt),
        questions_in_order(post),
{
    assert(questions(post) =~= questions(pre).push(prompt));
}

/// Answering the question that shows sends the answer and brings up the next one; no other
/// question is lost.
pub proof fn answers_bring_up_the_next_question(
    pre: App,
    choice: Option<usize>,
    now: u64,
    post: App,
)
    requires
        questions_in_order(pre),
        pre.screen.quitting is None,
        pre.screen.prompt is Some,
        applied(pre, Action::Answer { prompt: pre.screen.prompt->0.id, choice }, now, post),
    ensures
        questions(post) == questions(pre).skip(1),
        questions_in_order(post),
        post.commands@ == pre.commands@.push(
            Command::Answer { prompt: pre.screen.prompt->0.id, choice },
        ),
{
    assert(questions(post) =~= questions(pre).skip(1));
}

proof fn lemma_without(prompts: Seq<Prompt>, id: u64)
    ensures
        forall|i: int|
            0 <= i < prompts_without(prompts, id).len() ==> (#[trigger] prompts_without(
                prompts,
                id,
            )[i]).id != id,
    decreases prompts.len(),
{
    if prompts.len() > 0 {
        lemma_without(prompts.drop_last(), id);
        let before = prompts_without(prompts.drop_last(), id);
        let all = prompts_without(prompts, id);
        assert forall|i: int| 0 <= i < all.len() implies (#[trigger] all[i]).id != id by {
            if i < before.len() {
                assert(all[i] == before[i]);
            }
        }
    }
}

/// A question that was closed neither shows nor waits.
pub proof fn closed_questions_are_gone(pre: App, id: u64, now: u64, post: App)
    requires
        handled(pre, Event::PromptClosed(id), now, post),
    ensures
        forall|i: int| 0 <= i < questions(post).len() ==> (#[trigger] questions(post)[i]).id != id,
{
    lemma_without(pre.screen.prompt_queue@, id);
    let waiting = prompts_without(pre.screen.prompt_queue@, id);
    let all = questions(post);
    assert forall|i: int| 0 <= i < all.len() implies (#[trigger] all[i]).id != id by {
        if pre.screen.prompt matches Some(prompt) && prompt.id == id {
            if waiting.len() > 0 {
                assert(all =~= waiting);
                assert(all[i] == waiting[i]);
            } else {
                assert(all =~= waiting);
            }
        } else if let Some(prompt) = pre.screen.prompt {
            if i > 0 {
                assert(all[i] == waiting[i - 1]);
            }
        } else {
            assert(all[i] == waiting[i]);
        }
    }
}

/// Each game is shown once in a row of installed or of recently played games.
pub proof fn distinct_lists_each_once(ids: Seq<i64>)
    ensures
        distinct(ids).no_duplicates(),
        forall|id: i64| #[trigger] distinct(ids).contains(id) <==> ids.contains(id),
    decreases ids.len(),
{
    if ids.len() > 0 {
        let rest = ids.drop_last();
        distinct_lists_each_once(rest);
        let before = distinct(rest);
        let all = distinct(ids);
        assert forall|id: i64| #[trigger] all.contains(id) <==> ids.contains(id) by {
            assert(before.contains(id) <==> rest.contains(id));
            assert(ids.contains(id) <==> rest.contains(id) || id == ids.last()) by {
                if ids.contains(id) {
                    let k = choose|k: int| 0 <= k < ids.len() && ids[k] == id;
                    if k < rest.len() {
                        assert(rest[k] == id);
                    }
                }
                if rest.contains(id) {
                    let k = choose|k: int| 0 <= k < rest.len() && rest[k] == id;
                    assert(ids[k] == id);
                }
                assert(ids[ids.len() - 1] == ids.last());
            }
            if !before.contains(ids.last()) {
                assert(all.contains(id) <==> before.contains(id) || id == ids.last()) by {
                    if all.contains(id) {
                        let k = choose|k: int| 0 <= k < all.len() && all[k] == id;
                        if k < before.len() {
                            assert(before[k] == id);
                        }
                    }
                    if before.contains(id) {
                        let k = choose|k: int| 0 <= k < before.len() && before[k] == id;
                        assert(all[k] == id);
                    }
                    assert(all[all.len() - 1] == ids.last());
                }
            }
        }
    }
}

/// With the page-wide filter on, every tile that a row shows runs on this device; with it
/// off, none is hidden.
pub proof fn filtered_rows_show_what_runs(app: App, ids: Seq<i64>)
    ensures
        forall|i: int|
            0 <= i < app.unhidden(ids).len() ==> {
                let id = #[trigger] app.unhidden(ids)[i];
                app.library.catalog@.contains_key(id) ==> app.lets_through(
                    app.library.catalog@[id],
                )
            },
        !app.library.playable_only ==> app.unhidden(ids) == ids,
    decreases ids.len(),
{
    if ids.len() > 0 {
        let rest = ids.drop_last();
        filtered_rows_show_what_runs(app, rest);
        let before = app.unhidden(rest);
        let all = app.unhidden(ids);
        assert forall|i: int| 0 <= i < all.len() implies {
            let id = #[trigger] all[i];
            app.library.catalog@.contains_key(id) ==> app.lets_through(app.library.catalog@[id])
        } by {
            if i < before.len() {
                assert(all[i] == before[i]);
            }
        }
        if !app.library.playable_only {
            assert(all =~= rest.push(ids.last()));
            assert(all =~= ids);
        }
    } else {
        assert(app.unhidden(ids) =~= ids);
    }
}

/// Every owned game that the catalog has stands in the row of exactly one kind.
pub proof fn every_owned_game_has_its_row(app: App, ids: Seq<i64>, id: i64)
    requires
        ids.contains(id),
        app.library.catalog@.contains_key(id),
    ensures
        app.of_kind(ids, Kind::Games).contains(id) <==> Kind::Games.covers(app.library.catalog@[id]),
        app.of_kind(ids, Kind::Tools).contains(id) <==> Kind::Tools.covers(app.library.catalog@[id]),
        app.of_kind(ids, Kind::Other).contains(id) <==> Kind::Other.covers(app.library.catalog@[id]),
        app.of_kind(ids, Kind::Games).contains(id) || app.of_kind(ids, Kind::Tools).contains(id)
            || app.of_kind(ids, Kind::Other).contains(id),
{
    lemma_of_kind(app, ids, Kind::Games, id);
    lemma_of_kind(app, ids, Kind::Tools, id);
    lemma_of_kind(app, ids, Kind::Other, id);
    crate::model::kinds_part_the_library(app.library.catalog@[id]);
}

proof fn lemma_of_kind(app: App, ids: Seq<i64>, kind: Kind, id: i64)
    requires
        app.library.catalog@.contains_key(id),
    ensures
        app.of_kind(ids, kind).contains(id) <==> ids.contains(id) && kind.covers(
            app.library.catalog@[id],
        ),
    decreases ids.len(),
{
    if ids.len() > 0 {
        let rest = ids.drop_last();
        lemma_of_kind(app, rest, kind, id);
        let before = app.of_kind(rest, kind);
        let all = app.of_kind(ids, kind);
        assert(ids.contains(id) <==> rest.contains(id) || id == ids.last()) by {
            if ids.contains(id) {
                let k = choose|k: int| 0 <= k < ids.len() && ids[k] == id;
                if k < rest.len() {
                    assert(rest[k] == id);
                }
            }
            if rest.contains(id) {
                let k = choose|k: int| 0 <= k < rest.len() && rest[k] == id;
                assert(ids[k] == id);
            }
            assert(ids[ids.len() - 1] == ids.last());
        }
        if all.len() > before.len() {
            assert(all.contains(id) <==> before.contains(id) || id == ids.last()) by {
                if all.contains(id) {
                    let k = choose|k: int| 0 <= k < all.len() && all[k] == id;
                    if k < before.len() {
                        assert(before[k] == id);
                    }
                }
                if before.contains(id) {
                    let k = choose|k: int| 0 <= k < before.len() && before[k] == id;
                    assert(all[k] == id);
                }
                assert(all[all.len() - 1] == ids.last());
            }
        }
    }
}

/// A page that arrives never shows a game of its collection twice more than before: the games
/// it adds are none that the collection had.
pub proof fn pages_add_no_known_game(known: Seq<Game>, games: Seq<Game>)
    ensures
        forall|i: int|
            0 <= i < crate::app::events::unknown_games(known, games).len() ==> !lists(
                known,
                (#[trigger] crate::app::events::unknown_games(known, games)[i]).id,
            ),
    decreases games.len(),
{
    if games.len() > 0 {
        pages_add_no_known_game(known, games.drop_last());
        let before = crate::app::events::unknown_games(known, games.drop_last());
        let all = crate::app::events::unknown_games(known, games);
        assert forall|i: int| 0 <= i < all.len() implies !lists(known, (#[trigger] all[i]).id) by {
            if i < before.len() {
                assert(all[i] == before[i]);
            }
        }
    }
}

} // verus!
