//! Which games the rows show, whatever the library holds.
use vstd::prelude::*;
use crate::app::laws::distinct_lists_each_once;
use crate::app::sections::{distinct, game_ids, newest_first, played_caves, recency, was_played};
use crate::app::news::handled;
use crate::app::state::{loaded, App, Library};
use crate::backend::Event;
use crate::lists::{
    filtering_keeps_what_passes, in_order_of, lists_without_repeats_are_short,
};
use crate::model::{Cave, Game, GameClassification, Host, Kind};
use crate::order::{arranged, sorting_is_stable, sorting_loses_nothing, stable_order};
use crate::rows::{rows_show_the_sections_they_are_given, SectionView};
use crate::text::{decimal, has_part, precedes, trim, unicode_lowercase};

verus! {

// ---------------------------------------------------------------------------
// Installed and recently played games
// ---------------------------------------------------------------------------

/// An install of a game.
pub open spec fn is_of(cave: Cave, id: i64) -> bool {
    cave.game matches Some(game) && game.id == id
}

/// An install that has been run for a while, and says when it was last touched.
pub open spec fn has_run(cave: Cave) -> bool {
    cave.stats matches Some(stats) && stats.seconds_run > 0 && stats.last_touched_at is Some
}

/// One of the installs is of a game.
pub open spec fn some_install(caves: Seq<Cave>, id: i64) -> bool {
    exists|i: int| 0 <= i < caves.len() && is_of(#[trigger] caves[i], id)
}

/// One of the installs is of a game and has been run.
pub open spec fn some_run(caves: Seq<Cave>, id: i64) -> bool {
    exists|i: int| 0 <= i < caves.len() && is_of(#[trigger] caves[i], id) && has_run(caves[i])
}

/// When an install was last touched, or failing that, made.
pub open spec fn last_used(cave: Cave) -> Option<Seq<char>> {
    match cave.stats {
        Some(stats) => match (stats.last_touched_at, stats.installed_at) {
            (Some(at), _) => Some(at@),
            (None, Some(at)) => Some(at@),
            (None, None) => None,
        },
        None => None,
    }
}

/// One install was used no later than another.
pub open spec fn no_later(one: Cave, other: Cave) -> bool {
    match (last_used(one), last_used(other)) {
        (Some(a), Some(b)) => !precedes(b, a),
        (Some(_), None) => false,
        (None, _) => true,
    }
}

/// One of the installs of a game was used no earlier than any install of another game.
pub open spec fn used_no_earlier(caves: Seq<Cave>, id: i64, other: i64) -> bool {
    exists|i: int|
        {
            &&& 0 <= i < caves.len()
            &&& is_of(#[trigger] caves[i], id)
            &&& forall|j: int|
                0 <= j < caves.len() && is_of(#[trigger] caves[j], other) ==> no_later(
                    caves[j],
                    caves[i],
                )
        }
}

proof fn lemma_game_ids(caves: Seq<Cave>, id: i64)
    ensures
        game_ids(caves).contains(id) <==> some_install(caves, id),
    decreases caves.len(),
{
    if caves.len() > 0 {
        let rest = caves.drop_last();
        lemma_game_ids(rest, id);
        let before = game_ids(rest);
        let all = game_ids(caves);
        if all.contains(id) {
            let k = choose|k: int| 0 <= k < all.len() && all[k] == id;
            if k < before.len() {
                assert(before[k] == id);
                let i = choose|i: int| 0 <= i < rest.len() && is_of(#[trigger] rest[i], id);
                assert(is_of(caves[i], id));
            } else {
                assert(is_of(caves[caves.len() - 1], id));
            }
        }
        if some_install(caves, id) {
            let i = choose|i: int| 0 <= i < caves.len() && is_of(#[trigger] caves[i], id);
            if i < rest.len() {
                assert(is_of(rest[i], id));
                let k = choose|k: int| 0 <= k < before.len() && before[k] == id;
                assert(all[k] == id);
            } else {
                assert(all[all.len() - 1] == id);
            }
        }
    }
}

proof fn lemma_same_installs(caves: Seq<Cave>, id: i64)
    ensures
        some_install(newest_first(caves), id) <==> some_install(caves, id),
{
    let keys = recency(caves);
    sorting_loses_nothing(caves, keys);
    let all = newest_first(caves);
    if some_install(all, id) {
        let k = choose|k: int| 0 <= k < all.len() && is_of(#[trigger] all[k], id);
        assert(all.contains(all[k]));
        assert(caves.contains(all[k]));
        let i = choose|i: int| 0 <= i < caves.len() && caves[i] == all[k];
        assert(is_of(caves[i], id));
    }
    if some_install(caves, id) {
        let i = choose|i: int| 0 <= i < caves.len() && is_of(#[trigger] caves[i], id);
        assert(caves.contains(caves[i]));
        assert(all.contains(caves[i]));
        let k = choose|k: int| 0 <= k < all.len() && all[k] == caves[i];
        assert(is_of(all[k], id));
    }
}

proof fn lemma_listed(caves: Seq<Cave>, id: i64)
    ensures
        distinct(game_ids(newest_first(caves))).contains(id) <==> some_install(caves, id),
{
    lemma_game_ids(newest_first(caves), id);
    lemma_same_installs(caves, id);
    distinct_lists_each_once(game_ids(newest_first(caves)));
}

proof fn lemma_played(caves: Seq<Cave>, keep: spec_fn(Cave) -> bool)
    requires
        forall|c: Cave| #[trigger] keep(c) == has_run(c),
    ensures
        played_caves(caves) == caves.filter(keep),
    decreases caves.len(),
{
    reveal(Seq::filter);
    if caves.len() > 0 {
        lemma_played(caves.drop_last(), keep);
        assert(keep(caves.last()) == was_played(caves.last()));
    } else {
        assert(caves.filter(keep) =~= Seq::empty());
    }
}

proof fn lemma_some_run(caves: Seq<Cave>, id: i64)
    ensures
        some_install(played_caves(caves), id) <==> some_run(caves, id),
        forall|c: Cave| #[trigger]
            played_caves(caves).contains(c) <==> caves.contains(c) && has_run(c),
{
    let keep = |c: Cave| has_run(c);
    lemma_played(caves, keep);
    filtering_keeps_what_passes(caves, keep);
    let part = played_caves(caves);
    if some_install(part, id) {
        let k = choose|k: int| 0 <= k < part.len() && is_of(#[trigger] part[k], id);
        assert(part.contains(part[k]));
        assert(keep(part[k]));
        let i = choose|i: int| 0 <= i < caves.len() && caves[i] == part[k];
        assert(is_of(caves[i], id) && has_run(caves[i]));
    }
    if some_run(caves, id) {
        let i = choose|i: int|
            0 <= i < caves.len() && is_of(#[trigger] caves[i], id) && has_run(caves[i]);
        assert(caves.contains(caves[i]) && keep(caves[i]));
        assert(part.contains(caves[i]));
        let k = choose|k: int| 0 <= k < part.len() && part[k] == caves[i];
        assert(is_of(part[k], id));
    }
}

/// The installed games are the games of the installs, each once.
pub proof fn every_install_shows_its_game(app: App, id: i64)
    ensures
        app.installed_list().contains(id) <==> some_install(app.library.caves@, id),
        app.installed_list().no_duplicates(),
{
    lemma_listed(app.library.caves@, id);
    distinct_lists_each_once(game_ids(newest_first(app.library.caves@)));
}

/// A game stands in the row of recently played games only if one of its installs has been run
/// and says when it was last touched. It stands there once, and with a dozen games at most.
pub proof fn recently_played_games_were_run(app: App, id: i64)
    ensures
        app.played_list().contains(id) ==> exists|i: int|
            {
                &&& 0 <= i < app.library.caves@.len()
                &&& #[trigger] app.library.caves@[i].game matches Some(game)
                &&& game.id == id
                &&& app.library.caves@[i].stats matches Some(stats)
                &&& stats.seconds_run > 0
                &&& stats.last_touched_at is Some
            },
        app.played_list().no_duplicates(),
        app.played_list().len() <= 12,
{
    let caves = app.library.caves@;
    let played = played_caves(caves);
    let all = distinct(game_ids(newest_first(played)));
    distinct_lists_each_once(game_ids(newest_first(played)));
    lemma_listed(played, id);
    lemma_some_run(caves, id);
    if app.played_list().contains(id) {
        let k = choose|k: int| 0 <= k < app.played_list().len() && app.played_list()[k] == id;
        assert(all[k] == id);
        assert(some_run(caves, id));
        let i = choose|i: int|
            0 <= i < caves.len() && is_of(#[trigger] caves[i], id) && has_run(caves[i]);
        assert(caves[i].game is Some);
    }
}

/// Every game with an install that has been run and says when it was last touched stands in
/// the row of recently played games, while there are no more than a dozen of them.
pub proof fn games_that_were_run_are_recently_played(app: App, few: Seq<i64>, i: int)
    requires
        few.len() <= 12,
        forall|k: int|
            0 <= k < app.library.caves@.len() && (#[trigger] app.library.caves@[k]).game is Some && (
            app.library.caves@[k].stats matches Some(stats) && stats.seconds_run > 0
                && stats.last_touched_at is Some) ==> few.contains(
                app.library.caves@[k].game->0.id,
            ),
        0 <= i < app.library.caves@.len(),
        app.library.caves@[i].game is Some,
        app.library.caves@[i].stats matches Some(stats) && stats.seconds_run > 0
            && stats.last_touched_at is Some,
    ensures
        app.played_list().contains(app.library.caves@[i].game->0.id),
{
    let caves = app.library.caves@;
    let played = played_caves(caves);
    let all = distinct(game_ids(newest_first(played)));
    distinct_lists_each_once(game_ids(newest_first(played)));
    assert forall|id: i64| all.contains(id) implies few.contains(id) by {
        lemma_listed(played, id);
        lemma_some_run(caves, id);
        let k = choose|k: int|
            0 <= k < caves.len() && is_of(#[trigger] caves[k], id) && has_run(caves[k]);
        assert(caves[k].game is Some);
    }
    lists_without_repeats_are_short(all, few);
    let id = caves[i].game->0.id;
    lemma_listed(played, id);
    lemma_some_run(caves, id);
    assert(is_of(caves[i], id) && has_run(caves[i]));
    assert(app.played_list() == all);
}

proof fn lemma_first_come_first(caves: Seq<Cave>, p: int, q: int)
    requires
        0 <= p < q < distinct(game_ids(caves)).len(),
    ensures
        exists|a: int|
            {
                &&& 0 <= a < caves.len()
                &&& is_of(#[trigger] caves[a], distinct(game_ids(caves))[p])
                &&& forall|b: int|
                    0 <= b < caves.len() && is_of(
                        #[trigger] caves[b],
                        distinct(game_ids(caves))[q],
                    ) ==> a < b
            },
    decreases caves.len(),
{
    let rest = caves.drop_last();
    let last = caves.len() - 1;
    let before = distinct(game_ids(rest));
    let all = distinct(game_ids(caves));
    if caves[last].game is Some {
        assert(game_ids(caves).drop_last() =~= game_ids(rest));
        assert(game_ids(caves).last() == caves[last].game->0.id);
    } else {
        assert(game_ids(caves) == game_ids(rest));
    }
    if q < before.len() {
        lemma_first_come_first(rest, p, q);
        assert(all[p] == before[p] && all[q] == before[q]);
        let a = choose|a: int|
            {
                &&& 0 <= a < rest.len()
                &&& is_of(#[trigger] rest[a], before[p])
                &&& forall|b: int|
                    0 <= b < rest.len() && is_of(#[trigger] rest[b], before[q]) ==> a < b
            };
        assert(caves[a] == rest[a]);
        assert forall|b: int| 0 <= b < caves.len() && is_of(#[trigger] caves[b], all[q]) implies a
            < b by {
            if b < last {
                assert(rest[b] == caves[b]);
            }
        }
    } else {
        assert(all.len() == before.len() + 1);
        assert(all[p] == before[p]);
        let id = all[q];
        distinct_lists_each_once(game_ids(rest));
        assert(before.contains(before[p]));
        lemma_game_ids(rest, before[p]);
        lemma_game_ids(rest, id);
        assert(!before.contains(id));
        let a = choose|a: int| 0 <= a < rest.len() && is_of(#[trigger] rest[a], before[p]);
        assert(caves[a] == rest[a]);
        assert forall|b: int| 0 <= b < caves.len() && is_of(#[trigger] caves[b], id) implies a
            < b by {
            if b < last {
                assert(is_of(rest[b], id));
            }
        }
    }
}

proof fn lemma_newest_come_first(caves: Seq<Cave>, p: int, q: int)
    requires
        0 <= p < q < distinct(game_ids(newest_first(caves))).len(),
    ensures
        used_no_earlier(
            caves,
            distinct(game_ids(newest_first(caves)))[p],
            distinct(game_ids(newest_first(caves)))[q],
        ),
{
    let all = newest_first(caves);
    let keys = recency(caves);
    let order = stable_order(keys);
    let one = distinct(game_ids(all))[p];
    let other = distinct(game_ids(all))[q];
    sorting_is_stable(keys);
    sorting_loses_nothing(caves, keys);
    lemma_first_come_first(all, p, q);
    let a = choose|a: int|
        {
            &&& 0 <= a < all.len()
            &&& is_of(#[trigger] all[a], one)
            &&& forall|b: int| 0 <= b < all.len() && is_of(#[trigger] all[b], other) ==> a < b
        };
    let i = order[a];
    assert(all[a] == caves[i]);
    assert(is_of(caves[i], one));
    assert forall|j: int| 0 <= j < caves.len() && is_of(#[trigger] caves[j], other) implies no_later(
        caves[j],
        caves[i],
    ) by {
        assert(arranged(caves, order)[j] == caves[order[j]]);
        assert(order.contains(j));
        let b = choose|b: int| 0 <= b < order.len() && order[b] == j;
        assert(all[b] == caves[j]);
        assert(a < b);
        assert(order[a] == i && order[b] == j);
        assert(keys[i].0 == crate::app::sections::touched(caves[i]));
        assert(keys[j].0 == crate::app::sections::touched(caves[j]));
    }
}

/// The installed games stand in the order in which they were last used, the latest first: of
/// two games, the first has an install that was used no earlier than any of the second's.
pub proof fn installed_games_come_latest_first(app: App, p: int, q: int)
    requires
        0 <= p < q < app.installed_list().len(),
    ensures
        used_no_earlier(app.library.caves@, app.installed_list()[p], app.installed_list()[q]),
{
    lemma_newest_come_first(app.library.caves@, p, q);
}

/// The row of recently played games shows the latest ones: each has an install that was run
/// and used no earlier than any install that was run of a game further behind, or of one that
/// the row leaves out.
pub proof fn recently_played_games_come_latest_first(app: App, p: int, other: i64)
    requires
        0 <= p < app.played_list().len(),
        some_run(app.library.caves@, other),
        forall|q: int| 0 <= q <= p ==> app.played_list()[q] != other,
    ensures
        exists|i: int|
            {
                &&& 0 <= i < app.library.caves@.len()
                &&& is_of(#[trigger] app.library.caves@[i], app.played_list()[p])
                &&& has_run(app.library.caves@[i])
                &&& forall|j: int|
                    0 <= j < app.library.caves@.len() && is_of(
                        #[trigger] app.library.caves@[j],
                        other,
                    ) && has_run(app.library.caves@[j]) ==> no_later(
                        app.library.caves@[j],
                        app.library.caves@[i],
                    )
            },
{
    let caves = app.library.caves@;
    let played = played_caves(caves);
    let all = distinct(game_ids(newest_first(played)));
    distinct_lists_each_once(game_ids(newest_first(played)));
    lemma_some_run(caves, other);
    lemma_listed(played, other);
    let q = choose|q: int| 0 <= q < all.len() && all[q] == other;
    assert(all[p] == app.played_list()[p]);
    assert(q > p) by {
        if q <= p {
            assert(app.played_list()[q] == all[q]);
        }
    }
    lemma_newest_come_first(played, p, q);
    let k = choose|k: int|
        {
            &&& 0 <= k < played.len()
            &&& is_of(#[trigger] played[k], all[p])
            &&& forall|j: int|
                0 <= j < played.len() && is_of(#[trigger] played[j], other) ==> no_later(
                    played[j],
                    played[k],
                )
        };
    assert(played.contains(played[k]));
    let i = choose|i: int| 0 <= i < caves.len() && caves[i] == played[k];
    assert(is_of(caves[i], app.played_list()[p]) && has_run(caves[i]));
    assert forall|j: int|
        0 <= j < caves.len() && is_of(#[trigger] caves[j], other) && has_run(
            caves[j],
        ) implies no_later(caves[j], caves[i]) by {
        assert(caves.contains(caves[j]));
        assert(played.contains(caves[j]));
        let m = choose|m: int| 0 <= m < played.len() && played[m] == caves[j];
        assert(is_of(played[m], other));
    }
}

// ---------------------------------------------------------------------------
// What the rows of the Library tab show
// ---------------------------------------------------------------------------

/// A game has a build for a kind of device.
pub open spec fn has_build(host: Host, game: Game) -> bool {
    ||| host == Host::Linux && game.platforms.linux
    ||| host == Host::Mac && game.platforms.osx
    ||| host == Host::Windows && game.platforms.windows
}

/// A game that the page-wide filter hides: the filter is on, and the game has no build for
/// this device.
pub open spec fn is_hidden(app: App, game: Game) -> bool {
    app.library.playable_only && !has_build(app.device.host, game)
}

/// A game goes into the row of its kind: games into one, tools and assets into another, and
/// everything else into the last.
pub open spec fn belongs(game: Game, kind: Kind) -> bool {
    match game.classification {
        GameClassification::Game => kind == Kind::Games,
        GameClassification::Tool | GameClassification::Assets => kind == Kind::Tools,
        _ => kind == Kind::Other,
    }
}

proof fn lemma_unhidden(app: App, ids: Seq<i64>, keep: spec_fn(i64) -> bool)
    requires
        forall|id: i64| #[trigger]
            keep(id) == !(app.library.catalog@.contains_key(id) && is_hidden(
                app,
                app.library.catalog@[id],
            )),
    ensures
        app.unhidden(ids) == ids.filter(keep),
    decreases ids.len(),
{
    reveal(Seq::filter);
    if ids.len() > 0 {
        lemma_unhidden(app, ids.drop_last(), keep);
        assert(keep(ids.last()) == !(app.library.catalog@.contains_key(ids.last()) && is_hidden(
            app,
            app.library.catalog@[ids.last()],
        )));
    } else {
        assert(ids.filter(keep) =~= Seq::empty());
    }
}

/// A row leaves out exactly the games that the filter hides, and keeps the order of the rest.
pub proof fn rows_leave_out_hidden_games(app: App, ids: Seq<i64>, id: i64)
    ensures
        app.unhidden(ids).contains(id) <==> ids.contains(id) && !(
        app.library.catalog@.contains_key(id) && is_hidden(app, app.library.catalog@[id])),
        in_order_of(app.unhidden(ids), ids),
        !app.library.playable_only ==> app.unhidden(ids) == ids,
{
    let keep = |id: i64|
        !(app.library.catalog@.contains_key(id) && is_hidden(app, app.library.catalog@[id]));
    lemma_unhidden(app, ids, keep);
    filtering_keeps_what_passes(ids, keep);
    crate::app::laws::filtered_rows_show_what_runs(app, ids);
}

proof fn lemma_of_kind(app: App, ids: Seq<i64>, kind: Kind, keep: spec_fn(i64) -> bool)
    requires
        forall|id: i64| #[trigger]
            keep(id) == (app.library.catalog@.contains_key(id) && belongs(
                app.library.catalog@[id],
                kind,
            )),
    ensures
        app.of_kind(ids, kind) == ids.filter(keep),
    decreases ids.len(),
{
    reveal(Seq::filter);
    if ids.len() > 0 {
        lemma_of_kind(app, ids.drop_last(), kind, keep);
        assert(keep(ids.last()) == (app.library.catalog@.contains_key(ids.last()) && belongs(
            app.library.catalog@[ids.last()],
            kind,
        )));
    } else {
        assert(ids.filter(keep) =~= Seq::empty());
    }
}

/// The row of a kind holds the owned games of that kind, in the order they are owned in, the
/// hidden ones left out, and its title counts them. There is no such row where no owned game
/// is of that kind.
pub proof fn rows_hold_their_kind(app: App, kind: Kind, id: i64)
    ensures
        app.of_kind(app.owned_list(), kind).contains(id) <==> app.owned_list().contains(id)
            && app.library.catalog@.contains_key(id) && belongs(app.library.catalog@[id], kind),
        in_order_of(app.of_kind(app.owned_list(), kind), app.owned_list()),
        app.kind_row(kind).len() <= 1,
        app.kind_row(kind).len() == 1 ==> {
            let row = app.kind_row(kind)[0];
            &&& row.games.contains(id) <==> app.owned_list().contains(id)
                && app.library.catalog@.contains_key(id) && belongs(app.library.catalog@[id], kind)
                && !is_hidden(app, app.library.catalog@[id])
            &&& in_order_of(row.games, app.of_kind(app.owned_list(), kind))
            &&& row.title == (match kind {
                Kind::Games => "Games"@,
                Kind::Tools => "Tools & assets"@,
                Kind::Other => "Other"@,
            }) + " · "@ + decimal(row.games.len())
            &&& row.collection is None && !row.more
            &&& row.note is Some <==> row.games.len() == 0
        },
        app.owned_list().contains(id) && app.library.catalog@.contains_key(id) && belongs(
            app.library.catalog@[id],
            kind,
        ) ==> app.kind_row(kind).len() == 1,
{
    let ids = app.owned_list();
    let keep = |id: i64|
        app.library.catalog@.contains_key(id) && belongs(app.library.catalog@[id], kind);
    lemma_of_kind(app, ids, kind, keep);
    filtering_keeps_what_passes(ids, keep);
    let part = app.of_kind(ids, kind);
    assert(part.contains(id) <==> ids.contains(id) && keep(id));
    rows_leave_out_hidden_games(app, part, id);
    let row = app.kind_row(kind);
    assert(row == app.titled_row(kind.as_filter().shown_label(), true, part));
    if part.len() > 0 {
        assert(row.len() == 1);
        assert(row[0].games == app.unhidden(part));
    } else {
        assert(row.len() == 0);
    }
    if part.contains(id) {
        let k = choose|k: int| 0 <= k < part.len() && part[k] == id;
        assert(part.len() > 0);
    }
}

/// The games that are owned, as the library lists them.
pub proof fn owned_games_are_listed(app: App, id: i64)
    ensures
        app.owned_list().len() == loaded(app.library.owned).len(),
        app.owned_list().contains(id) <==> exists|i: int|
            0 <= i < loaded(app.library.owned).len() && (#[trigger] loaded(app.library.owned)[i]).id
                == id,
{
    let owned = loaded(app.library.owned);
    let ids = app.owned_list();
    if ids.contains(id) {
        let i = choose|i: int| 0 <= i < ids.len() && ids[i] == id;
        assert(owned[i].id == id);
    }
    if exists|i: int| 0 <= i < owned.len() && (#[trigger] owned[i]).id == id {
        let i = choose|i: int| 0 <= i < owned.len() && (#[trigger] owned[i]).id == id;
        assert(ids[i] == id);
    }
}

/// The home screen begins with the installed games, where there are any, and goes on with
/// those played recently; behind them stand the games, the tools and the rest, each where the
/// account owns such a thing.
pub proof fn home_rows_come_in_order(app: App, id: i64)
    ensures
        app.library_rows(Seq::empty()) == app.home_rows(),
        some_install(app.library.caves@, id) ==> {
            &&& app.home_rows().len() > 0
            &&& app.home_rows()[0].title == "Installed"@
            &&& app.home_rows()[0].games == app.unhidden(app.installed_list())
        },
        app.played_list().contains(id) ==> {
            &&& app.home_rows().len() > 1
            &&& app.home_rows()[0].title == "Installed"@
            &&& app.home_rows()[1].title == "Recently played"@
            &&& app.home_rows()[1].games == app.unhidden(app.played_list())
        },
        app.home_rows().len() == (if app.installed_list().len() > 0 {
            1int
        } else {
            0
        }) + (if app.played_list().len() > 0 {
            1int
        } else {
            0
        }) + app.kind_row(Kind::Games).len() + app.kind_row(Kind::Tools).len() + app.kind_row(
            Kind::Other,
        ).len(),
        app.kind_row(Kind::Other).len() == 1 ==> app.home_rows().last() == app.kind_row(
            Kind::Other,
        )[0],
        app.kind_row(Kind::Tools).len() == 1 ==> app.home_rows()[app.home_rows().len() - 1
            - app.kind_row(Kind::Other).len()] == app.kind_row(Kind::Tools)[0],
        app.kind_row(Kind::Games).len() == 1 ==> app.home_rows()[app.home_rows().len() - 1
            - app.kind_row(Kind::Other).len() - app.kind_row(Kind::Tools).len()] == app.kind_row(
            Kind::Games,
        )[0],
{
    every_install_shows_its_game(app, id);
    recently_played_games_were_run(app, id);
    rows_hold_their_kind(app, Kind::Games, id);
    rows_hold_their_kind(app, Kind::Tools, id);
    rows_hold_their_kind(app, Kind::Other, id);
    if app.played_list().contains(id) {
        let caves = app.library.caves@;
        let i = choose|i: int|
            {
                &&& 0 <= i < caves.len()
                &&& #[trigger] caves[i].game matches Some(game)
                &&& game.id == id
                &&& caves[i].stats matches Some(stats)
                &&& stats.seconds_run > 0
                &&& stats.last_touched_at is Some
            };
        assert(is_of(caves[i], id));
        assert(app.installed_list().contains(id));
    }
}

proof fn lemma_hits(app: App, ids: Seq<i64>, query: Seq<char>, keep: spec_fn(i64) -> bool)
    requires
        forall|id: i64| #[trigger] keep(id) == matches_search(app, id, query),
    ensures
        app.hits(ids, query) == ids.filter(keep),
    decreases ids.len(),
{
    reveal(Seq::filter);
    if ids.len() > 0 {
        lemma_hits(app, ids.drop_last(), query, keep);
        assert(keep(ids.last()) == matches_search(app, ids.last(), query));
    } else {
        assert(ids.filter(keep) =~= Seq::empty());
    }
}

/// A game that a search finds: its title has the words in it, in any case of letters, and the
/// filter does not hide it.
pub open spec fn matches_search(app: App, id: i64, query: Seq<char>) -> bool {
    &&& app.library.catalog@.contains_key(id)
    &&& !is_hidden(app, app.library.catalog@[id])
    &&& has_part(unicode_lowercase(app.library.catalog@[id].title@), query)
}

/// A search shows one row, with every owned or installed game that it finds and no other, each
/// once, and says how many there are.
pub proof fn searches_find_every_match(app: App, query: Seq<char>, id: i64)
    requires
        query.len() > 0,
    ensures
        app.library_rows(query).len() == 1,
        app.library_rows(query)[0].games.contains(id) <==> (app.owned_list().contains(id)
            || some_install(app.library.caves@, id)) && matches_search(app, id, query),
        app.library_rows(query)[0].games.len() == 0 ==> app.library_rows(query)[0].title
            == "No matches"@,
        app.library_rows(query)[0].games.len() == 1 ==> app.library_rows(query)[0].title
            == "1 match"@,
        app.library_rows(query)[0].games.len() > 1 ==> app.library_rows(query)[0].title == decimal(
            app.library_rows(query)[0].games.len(),
        ) + " matches"@,
        app.library_rows(query)[0].note is None && !app.library_rows(query)[0].more,
        in_order_of(
            app.library_rows(query)[0].games,
            distinct(app.owned_list() + app.installed_list()),
        ),
{
    let ids = app.owned_list() + app.installed_list();
    let keep = |id: i64| matches_search(app, id, query);
    lemma_hits(app, distinct(ids), query, keep);
    filtering_keeps_what_passes(distinct(ids), keep);
    distinct_lists_each_once(ids);
    every_install_shows_its_game(app, id);
    let owned = app.owned_list();
    let installed = app.installed_list();
    assert(distinct(ids).contains(id) <==> ids.contains(id));
    assert(ids.contains(id) <==> owned.contains(id) || installed.contains(id)) by {
        if ids.contains(id) {
            let k = choose|k: int| 0 <= k < ids.len() && ids[k] == id;
            if k < owned.len() {
                assert(owned[k] == id);
            } else {
                assert(installed[k - owned.len()] == id);
            }
        }
        if owned.contains(id) {
            let k = choose|k: int| 0 <= k < owned.len() && owned[k] == id;
            assert(ids[k] == id);
        }
        if installed.contains(id) {
            let k = choose|k: int| 0 <= k < installed.len() && installed[k] == id;
            assert(ids[k + owned.len()] == id);
        }
    }
    assert(app.library_rows(query)[0].games == app.hits(distinct(ids), query));
}

// ---------------------------------------------------------------------------
// What the rows of the Collections tab show
// ---------------------------------------------------------------------------

/// The games of a collection that its row is to show.
pub open spec fn passes_shelf(app: App, game: Game) -> bool {
    &&& !is_hidden(app, game)
    &&& app.shelves.collections_installed_only ==> app.library.installed@.contains(game.id)
}

proof fn lemma_shown_ids(app: App, games: Seq<Game>, id: i64)
    ensures
        app.shown_ids(games).contains(id) <==> exists|i: int|
            0 <= i < games.len() && (#[trigger] games[i]).id == id && passes_shelf(app, games[i]),
    decreases games.len(),
{
    if games.len() > 0 {
        let rest = games.drop_last();
        let last = games.len() - 1;
        lemma_shown_ids(app, rest, id);
        let before = app.shown_ids(rest);
        let all = app.shown_ids(games);
        if all.contains(id) {
            let k = choose|k: int| 0 <= k < all.len() && all[k] == id;
            if k < before.len() {
                assert(before[k] == id);
                let i = choose|i: int|
                    0 <= i < rest.len() && (#[trigger] rest[i]).id == id && passes_shelf(
                        app,
                        rest[i],
                    );
                assert(games[i] == rest[i]);
            } else {
                assert(games[last].id == id && passes_shelf(app, games[last]));
            }
        }
        if exists|i: int|
            0 <= i < games.len() && (#[trigger] games[i]).id == id && passes_shelf(app, games[i]) {
            let i = choose|i: int|
                0 <= i < games.len() && (#[trigger] games[i]).id == id && passes_shelf(
                    app,
                    games[i],
                );
            if i < last {
                assert(rest[i].id == id && passes_shelf(app, rest[i]));
                let k = choose|k: int| 0 <= k < before.len() && before[k] == id;
                assert(all[k] == id);
            } else {
                assert(all[all.len() - 1] == id);
            }
        }
    }
}

/// A collection's row shows those of its games that the filters let through: with the filter
/// for installed games only those, as far as butler has listed them for the whole collection,
/// or else as far as it has been fetched.
pub proof fn collections_show_what_the_filters_let_through(
    app: App,
    c: crate::model::CollectionGames,
    id: i64,
)
    ensures
        app.exact_list(c.collection.id) is None ==> (app.collection_row(c).games.contains(id)
            <==> exists|i: int|
            0 <= i < c.games@.len() && (#[trigger] c.games@[i]).id == id && passes_shelf(
                app,
                c.games@[i],
            )),
        app.exact_list(c.collection.id) matches Some(games) ==> (app.collection_row(
            c,
        ).games.contains(id) <==> exists|i: int|
            0 <= i < games.len() && (#[trigger] games[i]).id == id && passes_shelf(app, games[i])),
        !app.shelves.collections_installed_only ==> app.exact_list(c.collection.id) is None,
        app.collection_row(c).collection == Some(c.collection.id),
        app.collection_row(c).more <==> c.next_cursor is Some && app.exact_list(c.collection.id) is None,
        app.collection_row(c).note is Some ==> app.collection_row(c).games.len() == 0
            || c.games@.len() == 0,
        app.collection_row(c).games.len() == 0 && !app.collection_row(c).more
            ==> app.collection_row(c).note is Some,
{
    match app.exact_list(c.collection.id) {
        Some(games) => lemma_shown_ids(app, games, id),
        None => lemma_shown_ids(app, c.games@, id),
    }
}

/// A list of butler's is that of the collection it was asked for, the last one where it sent
/// several.
pub proof fn lists_belong_to_their_collection(app: App, id: i64, i: int)
    requires
        app.shelves.collections_installed_only,
        app.shelves.collection_installed matches Some(lists) && 0 <= i < lists@.len()
            && lists@[i].0 == id && forall|j: int|
            i < j < lists@.len() ==> (#[trigger] lists@[j]).0 != id,
    ensures
        app.exact_list(id) == Some(app.shelves.collection_installed->0@[i].1@),
{
    lemma_list_for(app.shelves.collection_installed->0@, id, i);
}

proof fn lemma_list_for(lists: Seq<(i64, Vec<Game>)>, id: i64, i: int)
    requires
        0 <= i < lists.len(),
        lists[i].0 == id,
        forall|j: int| i < j < lists.len() ==> (#[trigger] lists[j]).0 != id,
    ensures
        crate::app::sections::list_for(lists, id) == Some(lists[i].1@),
    decreases lists.len(),
{
    if i < lists.len() - 1 {
        let rest = lists.drop_last();
        assert(lists[lists.len() - 1].0 != id);
        assert forall|j: int| i < j < rest.len() implies (#[trigger] rest[j]).0 != id by {
            assert(rest[j] == lists[j]);
        }
        lemma_list_for(rest, id, i);
    }
}

proof fn lemma_rows_where(app: App, collections: Seq<crate::model::CollectionGames>, bare: bool, keep: spec_fn(SectionView) -> bool)
    requires
        forall|row: SectionView| #[trigger]
            keep(row) == (bare == (row.games.len() == 0 && !row.more)),
    ensures
        app.collection_rows_where(collections, bare) == collections.map_values(
            |c: crate::model::CollectionGames| app.collection_row(c),
        ).filter(keep),
    decreases collections.len(),
{
    reveal(Seq::filter);
    let rows = collections.map_values(|c: crate::model::CollectionGames| app.collection_row(c));
    if collections.len() > 0 {
        let rest = collections.drop_last();
        lemma_rows_where(app, rest, bare, keep);
        assert(rows.drop_last() =~= rest.map_values(
            |c: crate::model::CollectionGames| app.collection_row(c),
        ));
        assert(rows.last() == app.collection_row(collections.last()));
        assert(keep(rows.last()) == (bare == (rows.last().games.len() == 0 && !rows.last().more)));
    } else {
        assert(rows.filter(keep) =~= Seq::empty());
    }
}

/// Every collection has its row. Those with something to show come first, and those without
/// behind them, each group in the order of the collections.
pub proof fn every_collection_has_its_row(app: App, i: int) -> (shown: int)
    requires
        0 <= i < loaded(app.shelves.collections).len(),
    ensures
        app.all_collection_rows().contains(app.collection_row(loaded(app.shelves.collections)[i])),
        app.all_collection_rows().len() == loaded(app.shelves.collections).len(),
        0 <= shown <= app.all_collection_rows().len(),
        forall|k: int|
            0 <= k < app.all_collection_rows().len() ==> (k < shown <==> (
            #[trigger] app.all_collection_rows()[k]).games.len() > 0
                || app.all_collection_rows()[k].more),
{
    let collections = loaded(app.shelves.collections);
    let rows = collections.map_values(|c: crate::model::CollectionGames| app.collection_row(c));
    let full = |row: SectionView| !(row.games.len() == 0 && !row.more);
    let bare = |row: SectionView| row.games.len() == 0 && !row.more;
    lemma_rows_where(app, collections, false, full);
    lemma_rows_where(app, collections, true, bare);
    filtering_keeps_what_passes(rows, full);
    filtering_keeps_what_passes(rows, bare);
    lemma_parts(rows, full, bare);
    let first = rows.filter(full);
    let second = rows.filter(bare);
    let all = app.all_collection_rows();
    assert(all == first + second);
    assert forall|k: int| 0 <= k < all.len() implies (k < first.len() <==> (
    #[trigger] all[k]).games.len() > 0 || all[k].more) by {
        if k < first.len() {
            assert(all[k] == first[k]);
            assert(first.contains(first[k]));
            assert(full(first[k]));
        } else {
            assert(all[k] == second[k - first.len()]);
            assert(second.contains(second[k - first.len()]));
            assert(bare(second[k - first.len()]));
        }
    }
    let row = app.collection_row(collections[i]);
    assert(rows[i] == row);
    assert(rows.contains(row));
    if full(row) {
        assert(first.contains(row));
        let k = choose|k: int| 0 <= k < first.len() && first[k] == row;
        assert(all[k] == row);
    } else {
        assert(bare(row));
        assert(second.contains(row));
        let k = choose|k: int| 0 <= k < second.len() && second[k] == row;
        assert(all[k + first.len()] == row);
    }
    first.len() as int
}

proof fn lemma_parts(rows: Seq<SectionView>, one: spec_fn(SectionView) -> bool, other: spec_fn(SectionView) -> bool)
    requires
        forall|r: SectionView| #[trigger] one(r) == !other(r),
    ensures
        rows.filter(one).len() + rows.filter(other).len() == rows.len(),
    decreases rows.len(),
{
    reveal(Seq::filter);
    if rows.len() > 0 {
        lemma_parts(rows.drop_last(), one, other);
        assert(one(rows.last()) == !other(rows.last()));
    }
}

// ---------------------------------------------------------------------------
// The rows keep in step
// ---------------------------------------------------------------------------

proof fn lemma_same_unhidden(a: App, b: App, ids: Seq<i64>)
    requires
        a.library.catalog == b.library.catalog,
        a.library.playable_only == b.library.playable_only,
        a.device == b.device,
    ensures
        a.unhidden(ids) == b.unhidden(ids),
    decreases ids.len(),
{
    if ids.len() > 0 {
        lemma_same_unhidden(a, b, ids.drop_last());
    }
}

proof fn lemma_same_kind(a: App, b: App, ids: Seq<i64>, kind: Kind)
    requires
        a.library.catalog == b.library.catalog,
    ensures
        a.of_kind(ids, kind) == b.of_kind(ids, kind),
    decreases ids.len(),
{
    if ids.len() > 0 {
        lemma_same_kind(a, b, ids.drop_last(), kind);
    }
}

proof fn lemma_same_hits(a: App, b: App, ids: Seq<i64>, query: Seq<char>)
    requires
        a.library.catalog == b.library.catalog,
        a.library.playable_only == b.library.playable_only,
        a.device == b.device,
    ensures
        a.hits(ids, query) == b.hits(ids, query),
    decreases ids.len(),
{
    if ids.len() > 0 {
        lemma_same_hits(a, b, ids.drop_last(), query);
    }
}

proof fn lemma_same_library(a: App, b: App, query: Seq<char>)
    requires
        a.library.catalog == b.library.catalog,
        a.library.owned == b.library.owned,
        a.library.caves == b.library.caves,
        a.library.playable_only == b.library.playable_only,
        a.device == b.device,
    ensures
        a.library_rows(query) == b.library_rows(query),
{
    lemma_same_unhidden(a, b, a.installed_list());
    lemma_same_unhidden(a, b, a.played_list());
    lemma_same_kind(a, b, a.owned_list(), Kind::Games);
    lemma_same_kind(a, b, a.owned_list(), Kind::Tools);
    lemma_same_kind(a, b, a.owned_list(), Kind::Other);
    lemma_same_unhidden(a, b, a.of_kind(a.owned_list(), Kind::Games));
    lemma_same_unhidden(a, b, a.of_kind(a.owned_list(), Kind::Tools));
    lemma_same_unhidden(a, b, a.of_kind(a.owned_list(), Kind::Other));
    lemma_same_hits(a, b, distinct(a.owned_list() + a.installed_list()), query);
}

/// The Library tab shows the rows of the library as it is, under the search as it is.
pub open spec fn shows_the_library(app: App) -> bool {
    app.library.owned is Loaded ==> app.library.rows@.sections == app.library_rows(
        unicode_lowercase(trim(app.search.query@)),
    )
}

/// Whenever the library, the installs, the filter or the search changes, the Library tab shows
/// what they have become.
pub proof fn the_library_tab_keeps_in_step(
    pre: App,
    games: Vec<Game>,
    caves: Vec<Cave>,
    on: bool,
    now: u64,
    post: App,
)
    ensures
        handled(pre, Event::OwnedGames(games), now, post) ==> shows_the_library(post),
        handled(pre, Event::Caves(caves), now, post) ==> shows_the_library(post),
        crate::app::requests::playable_set(pre, on, post) && on != pre.library.playable_only
            ==> shows_the_library(post) && post.library.rows@.follow,
        crate::app::requests::search_cleared(pre, post) && pre.search.query@.len() > 0
            ==> shows_the_library(post),
{
    let query = unicode_lowercase(trim(post.search.query@));
    if handled(pre, Event::OwnedGames(games), now, post) || handled(
        pre,
        Event::Caves(caves),
        now,
        post,
    ) {
        let laid = App { library: Library { rows: pre.library.rows, ..post.library }, ..post };
        lemma_same_library(laid, post, query);
        rows_show_the_sections_they_are_given(pre.library.rows@, laid.library_rows(query));
    }
    if crate::app::requests::playable_set(pre, on, post) && on != pre.library.playable_only {
        let filtered = App { library: Library { playable_only: on, ..pre.library }, ..pre };
        lemma_same_library(filtered, post, query);
        rows_show_the_sections_they_are_given(pre.library.rows@, filtered.library_rows(query));
    }
    if crate::app::requests::search_cleared(pre, post) && pre.search.query@.len() > 0 {
        let cleared = App { search: post.search, ..pre };
        lemma_same_library(cleared, post, query);
        rows_show_the_sections_they_are_given(pre.library.rows@, cleared.library_rows(query));
    }
}

proof fn lemma_same_shown(a: App, b: App, games: Seq<Game>)
    requires
        a.library.playable_only == b.library.playable_only,
        a.device == b.device,
        a.library.installed == b.library.installed,
        a.shelves.collections_installed_only == b.shelves.collections_installed_only,
    ensures
        a.shown_ids(games) == b.shown_ids(games),
    decreases games.len(),
{
    if games.len() > 0 {
        lemma_same_shown(a, b, games.drop_last());
    }
}

proof fn lemma_same_shelves(a: App, b: App, collections: Seq<crate::model::CollectionGames>, bare: bool)
    requires
        a.library.playable_only == b.library.playable_only,
        a.device == b.device,
        a.library.installed == b.library.installed,
        a.shelves.collections_installed_only == b.shelves.collections_installed_only,
        a.shelves.collection_installed == b.shelves.collection_installed,
    ensures
        a.collection_rows_where(collections, bare) == b.collection_rows_where(collections, bare),
    decreases collections.len(),
{
    if collections.len() > 0 {
        lemma_same_shelves(a, b, collections.drop_last(), bare);
        let c = collections.last();
        match a.exact_list(c.collection.id) {
            Some(games) => lemma_same_shown(a, b, games),
            None => lemma_same_shown(a, b, c.games@),
        }
    }
}

/// The Collections tab shows the rows of the collections as they are.
pub open spec fn shows_the_collections(app: App) -> bool {
    app.shelves.collections is Loaded ==> app.shelves.collection_rows@.sections
        == app.all_collection_rows()
}

/// Whenever the collections, the installs or a filter changes, the Collections tab shows what
/// they have become.
pub proof fn the_collections_tab_keeps_in_step(pre: App, event: Event, on: bool, now: u64, post: App)
    ensures
        (event is Collections || event is CollectionPage || event is CollectionsInstalled
            || event is Caves) && handled(pre, event, now, post) ==> shows_the_collections(post),
        crate::app::requests::playable_set(pre, on, post) && on != pre.library.playable_only
            ==> shows_the_collections(post),
        crate::app::requests::installed_set(pre, on, post) && on
            != pre.shelves.collections_installed_only ==> shows_the_collections(post),
{
    let all = loaded(post.shelves.collections);
    if (event is Collections || event is CollectionPage || event is CollectionsInstalled
        || event is Caves) && handled(pre, event, now, post) {
        let laid = App {
            shelves: crate::app::state::Shelves {
                collection_rows: pre.shelves.collection_rows,
                ..post.shelves
            },
            ..post
        };
        lemma_same_shelves(laid, post, all, false);
        lemma_same_shelves(laid, post, all, true);
        rows_show_the_sections_they_are_given(
            pre.shelves.collection_rows@,
            laid.all_collection_rows(),
        );
    }
    if crate::app::requests::playable_set(pre, on, post) && on != pre.library.playable_only {
        let filtered = App { library: Library { playable_only: on, ..pre.library }, ..pre };
        lemma_same_shelves(filtered, post, all, false);
        lemma_same_shelves(filtered, post, all, true);
        rows_show_the_sections_they_are_given(
            pre.shelves.collection_rows@,
            filtered.all_collection_rows(),
        );
    }
    if crate::app::requests::installed_set(pre, on, post) && on
        != pre.shelves.collections_installed_only {
        let filtered = App {
            shelves: crate::app::state::Shelves { collections_installed_only: on, ..pre.shelves },
            ..pre
        };
        lemma_same_shelves(filtered, post, all, false);
        lemma_same_shelves(filtered, post, all, true);
        rows_show_the_sections_they_are_given(
            pre.shelves.collection_rows@,
            filtered.all_collection_rows(),
        );
    }
}

/// Showing only what is installed asks butler which games of the collections are, once, and
/// where it has not said so already.
pub proof fn installed_games_of_collections_are_asked_for(pre: App, on: bool, post: App)
    requires
        crate::app::requests::installed_set(pre, on, post),
    ensures
        post.shelves.collections_installed_only == on,
        on && !pre.shelves.collections_installed_only && pre.shelves.collections is Loaded
            && pre.shelves.collection_installed is None ==> {
            &&& post.commands@.len() == pre.commands@.len() + 1
            &&& post.commands@.last() matches crate::backend::Command::CollectionsInstalled {
                collection_ids,
            }
            &&& collection_ids@.len() == loaded(pre.shelves.collections).len()
            &&& forall|i: int|
                0 <= i < collection_ids@.len() ==> (#[trigger] collection_ids@[i]) == loaded(
                    pre.shelves.collections,
                )[i].collection.id
        },
        !on || pre.shelves.collection_installed is Some || !(pre.shelves.collections is Loaded)
            ==> post.commands@ == pre.commands@,
{
}

/// A collection's row is titled with its name and how many games it has in all; where it shows
/// none it says why.
pub proof fn collections_say_what_they_are(app: App, c: crate::model::CollectionGames)
    ensures
        app.collection_row(c).title == c.collection.title@ + " · "@
            + crate::text::signed_decimal(c.collection.games_count as int),
        !app.collection_row(c).more && c.games@.len() == 0 ==> app.collection_row(c).note == Some(
            "Empty collection"@,
        ),
        !app.collection_row(c).more && c.games@.len() > 0 && app.collection_row(c).games.len() == 0
            && app.shelves.collections_installed_only ==> app.collection_row(c).note == Some(
            "Nothing installed from this collection"@,
        ),
        !app.collection_row(c).more && c.games@.len() > 0 && app.collection_row(c).games.len() == 0
            && !app.shelves.collections_installed_only ==> app.collection_row(c).note == Some(
            "Nothing here runs on this device"@,
        ),
        app.collection_row(c).more ==> app.collection_row(c).note is None,
        c.games@.len() > 0 && app.collection_row(c).games.len() > 0
            ==> app.collection_row(c).note is None,
{
}

} // verus!
