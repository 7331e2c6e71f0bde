//! Which games there are to show.
use std::collections::HashMap;
use vstd::prelude::*;
use crate::app::state::{loaded, App, Library};
use crate::model::{Cave, CollectionGames, Game, Loadable};

verus! {

broadcast use vstd::std_specs::hash::group_hash_axioms;

// ---------------------------------------------------------------------------
// The catalog
// ---------------------------------------------------------------------------

/// The games by id, a later record of a game replacing an earlier one.
pub open spec fn with_latest(catalog: Map<i64, Game>, games: Seq<Game>) -> Map<i64, Game>
    decreases games.len(),
{
    if games.len() == 0 {
        catalog
    } else {
        with_latest(catalog, games.drop_last()).insert(games.last().id, games.last())
    }
}

/// A catalog and a game, unless it has that game already.
pub open spec fn with_game(catalog: Map<i64, Game>, game: Game) -> Map<i64, Game> {
    if catalog.contains_key(game.id) {
        catalog
    } else {
        catalog.insert(game.id, game)
    }
}

/// A catalog and those games that it does not have yet.
pub open spec fn with_missing(catalog: Map<i64, Game>, games: Seq<Game>) -> Map<i64, Game>
    decreases games.len(),
{
    if games.len() == 0 {
        catalog
    } else {
        with_game(with_missing(catalog, games.drop_last()), games.last())
    }
}

/// The games that the installs carry.
pub open spec fn cave_games(caves: Seq<Cave>) -> Seq<Game>
    decreases caves.len(),
{
    if caves.len() == 0 {
        Seq::empty()
    } else {
        let before = cave_games(caves.drop_last());
        match caves.last().game {
            Some(game) => before.push(game),
            None => before,
        }
    }
}

/// The catalog and the games of collections.
pub open spec fn with_collections(
    catalog: Map<i64, Game>,
    collections: Seq<CollectionGames>,
) -> Map<i64, Game>
    decreases collections.len(),
{
    if collections.len() == 0 {
        catalog
    } else {
        with_missing(
            with_collections(catalog, collections.drop_last()),
            collections.last().games@,
        )
    }
}

/// The catalog and the games of several lists.
pub open spec fn with_lists(catalog: Map<i64, Game>, lists: Seq<(i64, Vec<Game>)>) -> Map<
    i64,
    Game,
>
    decreases lists.len(),
{
    if lists.len() == 0 {
        catalog
    } else {
        with_missing(with_lists(catalog, lists.drop_last()), lists.last().1@)
    }
}

/// The lists behind an optional answer.
pub open spec fn known_lists(lists: Option<Vec<(i64, Vec<Game>)>>) -> Seq<(i64, Vec<Game>)> {
    match lists {
        Some(lists) => lists@,
        None => Seq::empty(),
    }
}

impl App {
    /// Owned games first, so their fresher records win over the copy each
    /// cave carries; then installed games with no key, then what collections list.
    pub open spec fn all_games(&self) -> Map<i64, Game> {
        with_lists(
            with_collections(
                with_missing(
                    with_latest(Map::empty(), loaded(self.library.owned)),
                    cave_games(self.library.caves@),
                ),
                loaded(self.shelves.collections),
            ),
            known_lists(self.shelves.collection_installed),
        )
    }
}

fn insert_missing(catalog: &mut HashMap<i64, Game>, games: &Vec<Game>)
    ensures
        final(catalog)@ == with_missing(old(catalog)@, games@),
{
    let ghost before = catalog@;
    let mut i: usize = 0;
    assert(games@.take(0) =~= Seq::empty());
    while i < games.len()
        invariant
            i <= games@.len(),
            catalog@ == with_missing(before, games@.take(i as int)),
        decreases games@.len() - i,
    {
        assert(games@.take(i + 1).drop_last() =~= games@.take(i as int));
        let game = &games[i];
        if !catalog.contains_key(&game.id) {
            catalog.insert(game.id, game.clone());
        }
        i += 1;
    }
    assert(games@.take(i as int) =~= games@);
}

impl App {
    /// Brings the catalog up to date with what is owned, installed and collected.
    pub fn rebuild_catalog(&mut self)
        ensures
            *final(self) == (App {
                library: Library { catalog: final(self).library.catalog, ..old(self).library },
                ..*old(self)
            }),
            final(self).library.catalog@ == old(self).all_games(),
    {
        let mut catalog: HashMap<i64, Game> = HashMap::new();
        if let Loadable::Loaded(games) = &self.library.owned {
            let mut i: usize = 0;
            assert(games@.take(0) =~= Seq::empty());
            while i < games.len()
                invariant
                    i <= games@.len(),
                    catalog@ == with_latest(Map::empty(), games@.take(i as int)),
                decreases games@.len() - i,
            {
                assert(games@.take(i + 1).drop_last() =~= games@.take(i as int));
                catalog.insert(games[i].id, games[i].clone());
                i += 1;
            }
            assert(games@.take(i as int) =~= games@);
        }
        let ghost owned = catalog@;
        assert(owned == with_latest(Map::empty(), loaded(self.library.owned)));
        let mut i: usize = 0;
        assert(self.library.caves@.take(0) =~= Seq::empty());
        while i < self.library.caves.len()
            invariant
                i <= self.library.caves@.len(),
                catalog@ == with_missing(owned, cave_games(self.library.caves@.take(i as int))),
            decreases self.library.caves@.len() - i,
        {
            assert(self.library.caves@.take(i + 1).drop_last() =~= self.library.caves@.take(i as int));
            let ghost before = cave_games(self.library.caves@.take(i as int));
            if let Some(game) = &self.library.caves[i].game {
                assert(before.push(*game).drop_last() =~= before);
                if !catalog.contains_key(&game.id) {
                    catalog.insert(game.id, game.clone());
                }
            }
            i += 1;
        }
        assert(self.library.caves@.take(i as int) =~= self.library.caves@);
        let ghost here = catalog@;
        if let Loadable::Loaded(collections) = &self.shelves.collections {
            let mut i: usize = 0;
            assert(collections@.take(0) =~= Seq::empty());
            while i < collections.len()
                invariant
                    i <= collections@.len(),
                    catalog@ == with_collections(here, collections@.take(i as int)),
                decreases collections@.len() - i,
            {
                assert(collections@.take(i + 1).drop_last() =~= collections@.take(i as int));
                insert_missing(&mut catalog, &collections[i].games);
                i += 1;
            }
            assert(collections@.take(i as int) =~= collections@);
        }
        let ghost collected = catalog@;
        assert(collected == with_collections(here, loaded(self.shelves.collections)));
        if let Some(lists) = &self.shelves.collection_installed {
            let mut i: usize = 0;
            assert(lists@.take(0) =~= Seq::empty());
            while i < lists.len()
                invariant
                    i <= lists@.len(),
                    catalog@ == with_lists(collected, lists@.take(i as int)),
                decreases lists@.len() - i,
            {
                assert(lists@.take(i + 1).drop_last() =~= lists@.take(i as int));
                insert_missing(&mut catalog, &lists[i].1);
                i += 1;
            }
            assert(lists@.take(i as int) =~= lists@);
        }
        self.library.catalog = catalog;
    }
}

/// A catalog that has all of another, unchanged.
pub open spec fn extends(old_catalog: Map<i64, Game>, catalog: Map<i64, Game>) -> bool {
    forall|id: i64| #[trigger]
        old_catalog.contains_key(id) ==> catalog.contains_key(id) && catalog[id] == old_catalog[id]
}

/// Whether a game is among others.
pub open spec fn lists(games: Seq<Game>, id: i64) -> bool {
    exists|i: int| 0 <= i < games.len() && (#[trigger] games[i]).id == id
}

proof fn lemma_with_missing(catalog: Map<i64, Game>, games: Seq<Game>)
    ensures
        extends(catalog, with_missing(catalog, games)),
        forall|id: i64| #[trigger]
            with_missing(catalog, games).contains_key(id) <==> (catalog.contains_key(id) || lists(
                games,
                id,
            )),
    decreases games.len(),
{
    if games.len() > 0 {
        let rest = games.drop_last();
        let last = games[games.len() - 1];
        lemma_with_missing(catalog, rest);
        assert forall|id: i64| lists(games, id) == (lists(rest, id) || id == last.id) by {
            if lists(games, id) {
                let i = choose|i: int| 0 <= i < games.len() && (#[trigger] games[i]).id == id;
                if i < rest.len() {
                    assert(rest[i].id == id);
                }
            }
            if lists(rest, id) {
                let i = choose|i: int| 0 <= i < rest.len() && (#[trigger] rest[i]).id == id;
                assert(games[i].id == id);
            }
        }
        assert forall|id: i64| #[trigger]
            with_missing(catalog, games).contains_key(id) <==> (catalog.contains_key(id) || lists(
                games,
                id,
            )) by {
            assert(with_missing(catalog, rest).contains_key(id) <==> (catalog.contains_key(id)
                || lists(rest, id)));
        }
    }
}

proof fn lemma_with_collections(catalog: Map<i64, Game>, collections: Seq<CollectionGames>)
    ensures
        extends(catalog, with_collections(catalog, collections)),
    decreases collections.len(),
{
    if collections.len() > 0 {
        lemma_with_collections(catalog, collections.drop_last());
        lemma_with_missing(
            with_collections(catalog, collections.drop_last()),
            collections.last().games@,
        );
    }
}

proof fn lemma_with_lists(catalog: Map<i64, Game>, lists: Seq<(i64, Vec<Game>)>)
    ensures
        extends(catalog, with_lists(catalog, lists)),
    decreases lists.len(),
{
    if lists.len() > 0 {
        lemma_with_lists(catalog, lists.drop_last());
        lemma_with_missing(with_lists(catalog, lists.drop_last()), lists.last().1@);
    }
}

proof fn lemma_with_latest(games: Seq<Game>, i: int)
    requires
        0 <= i < games.len(),
        forall|j: int| i < j < games.len() ==> (#[trigger] games[j]).id != games[i].id,
    ensures
        with_latest(Map::empty(), games).contains_key(games[i].id),
        with_latest(Map::empty(), games)[games[i].id] == games[i],
    decreases games.len(),
{
    if i < games.len() - 1 {
        let rest = games.drop_last();
        assert forall|j: int| i < j < rest.len() implies (#[trigger] rest[j]).id
            != rest[i].id by {
            assert(rest[j] == games[j]);
        }
        lemma_with_latest(rest, i);
        assert(games[games.len() - 1].id != games[i].id);
    }
}

/// The catalog has every owned game, as the owned list has it: no copy that an install or a
/// collection carries replaces it.
pub proof fn owned_records_win(app: App, i: int)
    requires
        0 <= i < loaded(app.library.owned).len(),
        forall|j: int|
            i < j < loaded(app.library.owned).len() ==> (#[trigger] loaded(app.library.owned)[j]).id != loaded(
                app.library.owned,
            )[i].id,
    ensures
        app.all_games().contains_key(loaded(app.library.owned)[i].id),
        app.all_games()[loaded(app.library.owned)[i].id] == loaded(app.library.owned)[i],
{
    let owned = with_latest(Map::empty(), loaded(app.library.owned));
    let here = with_missing(owned, cave_games(app.library.caves@));
    let collected = with_collections(here, loaded(app.shelves.collections));
    lemma_with_latest(loaded(app.library.owned), i);
    lemma_with_missing(owned, cave_games(app.library.caves@));
    lemma_with_collections(here, loaded(app.shelves.collections));
    lemma_with_lists(collected, known_lists(app.shelves.collection_installed));
    let id = loaded(app.library.owned)[i].id;
    assert(here.contains_key(id) && here[id] == owned[id]);
    assert(collected.contains_key(id) && collected[id] == here[id]);
}

proof fn lemma_cave_games(caves: Seq<Cave>, i: int)
    requires
        0 <= i < caves.len(),
        caves[i].game is Some,
    ensures
        exists|k: int|
            0 <= k < cave_games(caves).len() && (#[trigger] cave_games(caves)[k])
                == caves[i].game->0,
    decreases caves.len(),
{
    let rest = caves.drop_last();
    if i < caves.len() - 1 {
        lemma_cave_games(rest, i);
        let k = choose|k: int|
            0 <= k < cave_games(rest).len() && (#[trigger] cave_games(rest)[k]) == caves[i].game->0;
        assert(cave_games(caves)[k] == cave_games(rest)[k]);
    } else {
        assert(cave_games(caves).last() == caves[i].game->0);
        assert(cave_games(caves)[cave_games(caves).len() - 1] == caves[i].game->0);
    }
}

/// Every installed game is in the catalog.
pub proof fn installed_games_are_in_the_catalog(app: App, i: int)
    requires
        0 <= i < app.library.caves@.len(),
        app.library.caves@[i].game is Some,
    ensures
        app.all_games().contains_key(app.library.caves@[i].game->0.id),
{
    let owned = with_latest(Map::empty(), loaded(app.library.owned));
    let here = with_missing(owned, cave_games(app.library.caves@));
    let collected = with_collections(here, loaded(app.shelves.collections));
    lemma_cave_games(app.library.caves@, i);
    lemma_with_missing(owned, cave_games(app.library.caves@));
    lemma_with_collections(here, loaded(app.shelves.collections));
    lemma_with_lists(collected, known_lists(app.shelves.collection_installed));
    let id = app.library.caves@[i].game->0.id;
    let k = choose|k: int|
        0 <= k < cave_games(app.library.caves@).len() && (#[trigger] cave_games(app.library.caves@)[k])
            == app.library.caves@[i].game->0;
    assert(cave_games(app.library.caves@)[k].id == id);
    assert(here.contains_key(id));
    assert(collected.contains_key(id));
}

/// Every game that the screen can show comes from somewhere: it is owned, installed, or in a
/// collection as far as that has been listed.
pub proof fn every_game_comes_from_somewhere(app: App, id: i64)
    ensures
        app.all_games().contains_key(id) <==> lists(loaded(app.library.owned), id) || lists(
            cave_games(app.library.caves@),
            id,
        ) || some_collection_lists(loaded(app.shelves.collections), id) || some_list_lists(
            known_lists(app.shelves.collection_installed),
            id,
        ),
{
    let owned = with_latest(Map::empty(), loaded(app.library.owned));
    let here = with_missing(owned, cave_games(app.library.caves@));
    let shelved = with_collections(here, loaded(app.shelves.collections));
    lemma_latest_keys(loaded(app.library.owned), id);
    lemma_with_missing(owned, cave_games(app.library.caves@));
    lemma_collection_keys(here, loaded(app.shelves.collections), id);
    lemma_list_keys(shelved, known_lists(app.shelves.collection_installed), id);
}

/// One of the collections lists a game.
pub open spec fn some_collection_lists(collections: Seq<CollectionGames>, id: i64) -> bool {
    exists|i: int| 0 <= i < collections.len() && lists((#[trigger] collections[i]).games@, id)
}

/// One of the lists of installed games lists a game.
pub open spec fn some_list_lists(all: Seq<(i64, Vec<Game>)>, id: i64) -> bool {
    exists|i: int| 0 <= i < all.len() && lists((#[trigger] all[i]).1@, id)
}

proof fn lemma_latest_keys(games: Seq<Game>, id: i64)
    ensures
        with_latest(Map::empty(), games).contains_key(id) <==> lists(games, id),
    decreases games.len(),
{
    if games.len() > 0 {
        let rest = games.drop_last();
        lemma_latest_keys(rest, id);
        if lists(games, id) {
            let i = choose|i: int| 0 <= i < games.len() && (#[trigger] games[i]).id == id;
            if i < rest.len() {
                assert(rest[i].id == id);
            }
        }
        if lists(rest, id) {
            let i = choose|i: int| 0 <= i < rest.len() && (#[trigger] rest[i]).id == id;
            assert(games[i].id == id);
        }
        assert(games[games.len() - 1] == games.last());
    }
}

proof fn lemma_collection_keys(catalog: Map<i64, Game>, collections: Seq<CollectionGames>, id: i64)
    ensures
        with_collections(catalog, collections).contains_key(id) <==> catalog.contains_key(id)
            || some_collection_lists(collections, id),
    decreases collections.len(),
{
    if collections.len() > 0 {
        let rest = collections.drop_last();
        lemma_collection_keys(catalog, rest, id);
        lemma_with_missing(with_collections(catalog, rest), collections.last().games@);
        if some_collection_lists(collections, id) {
            let i = choose|i: int|
                0 <= i < collections.len() && lists((#[trigger] collections[i]).games@, id);
            if i < rest.len() {
                assert(lists(rest[i].games@, id));
            }
        }
        if some_collection_lists(rest, id) {
            let i = choose|i: int| 0 <= i < rest.len() && lists((#[trigger] rest[i]).games@, id);
            assert(lists(collections[i].games@, id));
        }
        if lists(collections.last().games@, id) {
            assert(lists(collections[collections.len() - 1].games@, id));
        }
    }
}

proof fn lemma_list_keys(catalog: Map<i64, Game>, all: Seq<(i64, Vec<Game>)>, id: i64)
    ensures
        with_lists(catalog, all).contains_key(id) <==> catalog.contains_key(id) || some_list_lists(
            all,
            id,
        ),
    decreases all.len(),
{
    if all.len() > 0 {
        let rest = all.drop_last();
        lemma_list_keys(catalog, rest, id);
        lemma_with_missing(with_lists(catalog, rest), all.last().1@);
        if some_list_lists(all, id) {
            let i = choose|i: int| 0 <= i < all.len() && lists((#[trigger] all[i]).1@, id);
            if i < rest.len() {
                assert(lists(rest[i].1@, id));
            }
        }
        if some_list_lists(rest, id) {
            let i = choose|i: int| 0 <= i < rest.len() && lists((#[trigger] rest[i]).1@, id);
            assert(lists(all[i].1@, id));
        }
        if lists(all.last().1@, id) {
            assert(lists(all[all.len() - 1].1@, id));
        }
    }
}

/// A game that is not owned is shown as its first install has it, whatever the collections say
/// of it.
pub proof fn installed_records_come_next(app: App, i: int)
    requires
        0 <= i < app.library.caves@.len(),
        app.library.caves@[i].game is Some,
        !lists(loaded(app.library.owned), app.library.caves@[i].game->0.id),
        forall|k: int|
            0 <= k < i ==> !((#[trigger] app.library.caves@[k]).game matches Some(game) && game.id
                == app.library.caves@[i].game->0.id),
    ensures
        app.all_games().contains_key(app.library.caves@[i].game->0.id),
        app.all_games()[app.library.caves@[i].game->0.id] == app.library.caves@[i].game->0,
{
    let id = app.library.caves@[i].game->0.id;
    let owned = with_latest(Map::empty(), loaded(app.library.owned));
    lemma_latest_keys(loaded(app.library.owned), id);
    lemma_first_record(owned, app.library.caves@, i);
    let here = with_missing(owned, cave_games(app.library.caves@));
    let shelved = with_collections(here, loaded(app.shelves.collections));
    lemma_with_collections(here, loaded(app.shelves.collections));
    lemma_with_lists(shelved, known_lists(app.shelves.collection_installed));
    assert(here.contains_key(id) && here[id] == app.library.caves@[i].game->0);
    assert(shelved.contains_key(id) && shelved[id] == here[id]);
}

proof fn lemma_first_record(catalog: Map<i64, Game>, caves: Seq<Cave>, i: int)
    requires
        0 <= i < caves.len(),
        caves[i].game is Some,
        !catalog.contains_key(caves[i].game->0.id),
        forall|k: int|
            0 <= k < i ==> !((#[trigger] caves[k]).game matches Some(game) && game.id
                == caves[i].game->0.id),
    ensures
        with_missing(catalog, cave_games(caves)).contains_key(caves[i].game->0.id),
        with_missing(catalog, cave_games(caves))[caves[i].game->0.id] == caves[i].game->0,
    decreases caves.len(),
{
    let rest = caves.drop_last();
    let id = caves[i].game->0.id;
    let all = cave_games(caves);
    if caves.last().game is Some {
        assert(all.drop_last() =~= cave_games(rest));
        assert(all.last() == caves.last().game->0);
    }
    if i < rest.len() {
        assert forall|k: int| 0 <= k < i implies !((#[trigger] rest[k]).game matches Some(game)
            && game.id == rest[i].game->0.id) by {
            assert(rest[k] == caves[k]);
        }
        assert(rest[i] == caves[i]);
        lemma_first_record(catalog, rest, i);
    } else {
        lemma_with_missing(catalog, cave_games(rest));
        assert(!lists(cave_games(rest), id)) by {
            assert forall|k: int| 0 <= k < rest.len() implies !((
            #[trigger] rest[k]).game matches Some(game) && game.id == id) by {
                assert(rest[k] == caves[k]);
            }
            lemma_no_record(rest, id);
        }
    }
}

proof fn lemma_no_record(caves: Seq<Cave>, id: i64)
    requires
        forall|k: int|
            0 <= k < caves.len() ==> !((#[trigger] caves[k]).game matches Some(game) && game.id
                == id),
    ensures
        !lists(cave_games(caves), id),
    decreases caves.len(),
{
    if caves.len() > 0 {
        let rest = caves.drop_last();
        assert forall|k: int| 0 <= k < rest.len() implies !((#[trigger] rest[k]).game matches Some(
            game,
        ) && game.id == id) by {
            assert(rest[k] == caves[k]);
        }
        lemma_no_record(rest, id);
        assert(!(caves[caves.len() - 1].game matches Some(game) && game.id == id));
        let all = cave_games(caves);
        if lists(all, id) {
            let i = choose|i: int| 0 <= i < all.len() && (#[trigger] all[i]).id == id;
            if i < cave_games(rest).len() {
                assert(cave_games(rest)[i].id == id);
            }
        }
    }
}

} // verus!
