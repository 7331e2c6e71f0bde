//! What each piece of news from the backend changes.
use std::collections::HashSet;
use vstd::prelude::*;
use vstd::string::*;
use crate::app::requests::{find_collection, lemma_collection_rows_ignore_library_rows};
use crate::app::sections::game_ids;
use crate::app::state::{App, Library, News, Screen, Shelves};
use crate::model::{Cave, CaveExt, CollectionGames, Game, Loadable};
use crate::text::joined;

verus! {

broadcast use vstd::std_specs::hash::group_hash_axioms;

// ---------------------------------------------------------------------------
// What follows from the rest
// ---------------------------------------------------------------------------

/// The catalog follows from what is owned, installed and collected.
pub open spec fn catalog_fresh(app: App) -> bool {
    app.library.catalog@ == app.all_games()
}

/// The Library tab was laid out anew.
pub open spec fn library_relaid(pre: App, post: App) -> bool {
    post.library.rows@ == (App {
        library: Library { rows: pre.library.rows, ..post.library },
        ..post
    }).fresh_rows()
}

/// The Collections tab was laid out anew.
pub open spec fn shelves_relaid(pre: App, post: App) -> bool {
    post.shelves.collection_rows@ == (App {
        shelves: Shelves { collection_rows: pre.shelves.collection_rows, ..post.shelves },
        ..post
    }).fresh_collection_rows()
}

/// A notice went up.
pub open spec fn noticed(pre: Screen, words: Seq<char>, now: u64, post: Screen) -> bool {
    &&& post == (Screen { notice: post.notice, ..pre })
    &&& post.notice matches Some((message, at))
    &&& message@ == words
    &&& at == now
}

proof fn lemma_unhidden(a: App, b: App, ids: Seq<i64>)
    requires
        a.library.catalog == b.library.catalog,
        a.library.playable_only == b.library.playable_only,
        a.device == b.device,
    ensures
        a.unhidden(ids) == b.unhidden(ids),
    decreases ids.len(),
{
    if ids.len() > 0 {
        lemma_unhidden(a, b, ids.drop_last());
    }
}

proof fn lemma_of_kind(a: App, b: App, ids: Seq<i64>, kind: crate::model::Kind)
    requires
        a.library.catalog == b.library.catalog,
    ensures
        a.of_kind(ids, kind) == b.of_kind(ids, kind),
    decreases ids.len(),
{
    if ids.len() > 0 {
        lemma_of_kind(a, b, ids.drop_last(), kind);
    }
}

proof fn lemma_hits(a: App, b: App, ids: Seq<i64>, query: Seq<char>)
    requires
        a.library.catalog == b.library.catalog,
        a.library.playable_only == b.library.playable_only,
        a.device == b.device,
    ensures
        a.hits(ids, query) == b.hits(ids, query),
    decreases ids.len(),
{
    if ids.len() > 0 {
        lemma_hits(a, b, ids.drop_last(), query);
    }
}

/// The Library tab's rows rest on the library, the search and the device alone.
pub(crate) proof fn lemma_rows_ignore_the_rest(a: App, b: App)
    requires
        a.library == b.library,
        a.device == b.device,
        a.search == b.search,
    ensures
        a.fresh_rows() == b.fresh_rows(),
{
    use_kinds(a, b);
    lemma_unhidden(a, b, a.installed_list());
    lemma_unhidden(a, b, a.played_list());
    lemma_hits(
        a,
        b,
        crate::app::sections::distinct(a.owned_list() + a.installed_list()),
        a.search_words(),
    );
}

proof fn use_kinds(a: App, b: App)
    requires
        a.library == b.library,
        a.device == b.device,
    ensures
        a.kind_row(crate::model::Kind::Games) == b.kind_row(crate::model::Kind::Games),
        a.kind_row(crate::model::Kind::Tools) == b.kind_row(crate::model::Kind::Tools),
        a.kind_row(crate::model::Kind::Other) == b.kind_row(crate::model::Kind::Other),
{
    let ids = a.owned_list();
    lemma_of_kind(a, b, ids, crate::model::Kind::Games);
    lemma_of_kind(a, b, ids, crate::model::Kind::Tools);
    lemma_of_kind(a, b, ids, crate::model::Kind::Other);
    lemma_unhidden(a, b, a.of_kind(ids, crate::model::Kind::Games));
    lemma_unhidden(a, b, a.of_kind(ids, crate::model::Kind::Tools));
    lemma_unhidden(a, b, a.of_kind(ids, crate::model::Kind::Other));
}

impl App {
    /// Something failed that has no page to show it on.
    pub fn notify(&mut self, message: String, now: u64)
        ensures
            *final(self) == (App { screen: final(self).screen, ..*old(self) }),
            noticed(old(self).screen, message@, now, final(self).screen),
    {
        self.screen.notice = Some((message, now));
    }
}

// ---------------------------------------------------------------------------
// The library
// ---------------------------------------------------------------------------

/// The owned list arrived: the catalog and the Library tab follow it.
pub open spec fn owned_arrived(pre: App, games: Vec<Game>, post: App) -> bool {
    &&& post == (App {
        library: Library {
            owned: Loadable::Loaded(games),
            catalog: post.library.catalog,
            rows: post.library.rows,
            ..pre.library
        },
        news: News { refreshing: false, ..pre.news },
        ..pre
    })
    &&& catalog_fresh(post)
    &&& library_relaid(pre, post)
}

/// The installs arrived: everything that shows installs follows them, and butler is asked
/// again which games of the collections are installed.
pub open spec fn caves_arrived(pre: App, caves: Vec<Cave>, post: App) -> bool {
    &&& post == (App {
        library: Library {
            caves,
            installed: post.library.installed,
            catalog: post.library.catalog,
            rows: post.library.rows,
            ..pre.library
        },
        shelves: Shelves {
            collection_installed: None,
            collection_rows: post.shelves.collection_rows,
            ..pre.shelves
        },
        commands: post.commands,
        ..pre
    })
    &&& post.library.installed@ == game_ids(caves@).to_set()
    &&& post.asked_for_installed(pre.commands@, post.commands@)
    &&& catalog_fresh(post)
    &&& library_relaid(pre, post)
    &&& shelves_relaid(pre, post)
}

proof fn lemma_pushed_set(before: Seq<i64>, id: i64)
    ensures
        before.push(id).to_set() == before.to_set().insert(id),
{
    let after = before.push(id);
    assert forall|x: i64| after.contains(x) <==> before.contains(x) || x == id by {
        assert(after[before.len() as int] == id);
        if before.contains(x) {
            let k = choose|k: int| 0 <= k < before.len() && before[k] == x;
            assert(after[k] == x);
        }
        if after.contains(x) && x != id {
            let k = choose|k: int| 0 <= k < after.len() && after[k] == x;
            assert(before[k] == x);
        }
    }
    assert(after.to_set() =~= before.to_set().insert(id));
}

fn installed_games(caves: &Vec<Cave>) -> (r: HashSet<i64>)
    ensures
        r@ == game_ids(caves@).to_set(),
{
    let mut r: HashSet<i64> = HashSet::new();
    let mut i: usize = 0;
    assert(caves@.take(0) =~= Seq::empty());
    assert(r@ =~= game_ids(caves@.take(0)).to_set());
    while i < caves.len()
        invariant
            i <= caves@.len(),
            r@ == game_ids(caves@.take(i as int)).to_set(),
        decreases caves@.len() - i,
    {
        assert(caves@.take(i + 1).drop_last() =~= caves@.take(i as int));
        if let Some(id) = caves[i].game_id() {
            proof {
                lemma_pushed_set(game_ids(caves@.take(i as int)), id);
            }
            r.insert(id);
        }
        i += 1;
    }
    assert(caves@.take(i as int) =~= caves@);
    r
}

impl App {
    pub(crate) fn take_owned(&mut self, games: Vec<Game>)
        requires
            old(self).wf(),
        ensures
            owned_arrived(*old(self), games, *final(self)),
            final(self).wf(),
    {
        self.news.refreshing = false;
        self.library.owned = Loadable::Loaded(games);
        self.rebuild_catalog();
        let ghost mid = *self;
        self.rebuild_sections();
        proof {
            let again = App { library: Library { rows: mid.library.rows, ..self.library }, ..*self };
            lemma_rows_ignore_the_rest(mid, again);
        }
    }

    pub(crate) fn take_caves(&mut self, caves: Vec<Cave>)
        requires
            old(self).wf(),
        ensures
            caves_arrived(*old(self), caves, *final(self)),
            final(self).wf(),
    {
        let ghost pre = *self;
        self.library.installed = installed_games(&caves);
        self.library.caves = caves;
        self.shelves.collection_installed = None;
        self.request_collection_installed();
        self.rebuild_catalog();
        let ghost mid = *self;
        self.rebuild_sections();
        let ghost laid = *self;
        self.rebuild_collection_sections();
        proof {
            let again = App { library: Library { rows: pre.library.rows, ..self.library }, ..*self };
            lemma_rows_ignore_the_rest(mid, again);
            let shelved = App {
                shelves: Shelves {
                    collection_rows: pre.shelves.collection_rows,
                    ..self.shelves
                },
                ..*self
            };
            lemma_collection_rows_ignore_library_rows(laid, shelved);
        }
    }
}

// ---------------------------------------------------------------------------
// The collections
// ---------------------------------------------------------------------------

/// The collections arrived, with their first pages.
pub open spec fn collections_arrived(pre: App, collections: Vec<CollectionGames>, post: App) -> bool {
    &&& post == (App {
        library: Library { catalog: post.library.catalog, ..pre.library },
        shelves: Shelves {
            collections: Loadable::Loaded(collections),
            collection_loading: post.shelves.collection_loading,
            collection_installed: None,
            collection_rows: post.shelves.collection_rows,
            ..pre.shelves
        },
        commands: post.commands,
        ..pre
    })
    &&& post.shelves.collection_loading@ == Set::<i64>::empty()
    &&& post.asked_for_installed(pre.commands@, post.commands@)
    &&& catalog_fresh(post)
    &&& shelves_relaid(pre, post)
}

/// Those games that are not among the known ones.
pub open spec fn unknown_games(known: Seq<Game>, games: Seq<Game>) -> Seq<Game>
    decreases games.len(),
{
    if games.len() == 0 {
        Seq::empty()
    } else {
        let before = unknown_games(known, games.drop_last());
        if crate::app::catalog::lists(known, games.last().id) {
            before
        } else {
            before.push(games.last())
        }
    }
}

/// One collection of several became another; the rest stayed.
pub open spec fn one_changed(
    before: Seq<CollectionGames>,
    id: i64,
    changed: spec_fn(CollectionGames, CollectionGames) -> bool,
    after: Seq<CollectionGames>,
) -> bool {
    &&& after.len() == before.len()
    &&& forall|i: int|
        0 <= i < before.len() ==> {
            let first = before[i].collection.id == id && forall|k: int|
                0 <= k < i ==> (#[trigger] before[k]).collection.id != id;
            if first {
                changed(before[i], #[trigger] after[i])
            } else {
                after[i] == before[i]
            }
        }
}

/// What a new page does to its collection: the games that it did not have, behind the others.
pub open spec fn page_added(
    before: CollectionGames,
    games: Seq<Game>,
    next_cursor: Option<String>,
    after: CollectionGames,
) -> bool {
    &&& after.collection == before.collection
    &&& after.next_cursor == next_cursor
    &&& after.games@ == before.games@ + unknown_games(before.games@, games)
}

/// The collections after a change to the first with an id.
pub open spec fn collection_changed(
    before: Loadable<Vec<CollectionGames>>,
    id: i64,
    changed: spec_fn(CollectionGames, CollectionGames) -> bool,
    after: Loadable<Vec<CollectionGames>>,
) -> bool {
    match before {
        Loadable::Loaded(collections) => {
            &&& after matches Loadable::Loaded(now)
            &&& one_changed(collections@, id, changed, now@)
        },
        _ => after == before,
    }
}

/// A page of a collection arrived.
pub open spec fn page_arrived(
    pre: App,
    id: i64,
    games: Seq<Game>,
    next_cursor: Option<String>,
    post: App,
) -> bool {
    &&& post == (App {
        library: Library { catalog: post.library.catalog, ..pre.library },
        shelves: Shelves {
            collections: post.shelves.collections,
            collection_loading: post.shelves.collection_loading,
            collection_rows: post.shelves.collection_rows,
            ..pre.shelves
        },
        ..pre
    })
    &&& post.shelves.collection_loading@ == pre.shelves.collection_loading@.remove(id)
    &&& collection_changed(
        pre.shelves.collections,
        id,
        |a: CollectionGames, b: CollectionGames| page_added(a, games, next_cursor, b),
        post.shelves.collections,
    )
    &&& catalog_fresh(post)
    &&& shelves_relaid(pre, post)
}

/// A page of a collection could not be had. It is not asked for again; the spinner would
/// otherwise never leave.
pub open spec fn page_failed(pre: App, id: i64, error: Seq<char>, now: u64, post: App) -> bool {
    &&& post == (App {
        screen: post.screen,
        shelves: Shelves {
            collections: post.shelves.collections,
            collection_loading: post.shelves.collection_loading,
            collection_rows: post.shelves.collection_rows,
            ..pre.shelves
        },
        ..pre
    })
    &&& post.shelves.collection_loading@ == pre.shelves.collection_loading@.remove(id)
    &&& collection_changed(
        pre.shelves.collections,
        id,
        |a: CollectionGames, b: CollectionGames| b == (CollectionGames { next_cursor: None, ..a }),
        post.shelves.collections,
    )
    &&& noticed(pre.screen, "Couldn't load more: "@ + error, now, post.screen)
    &&& shelves_relaid(pre, post)
}

/// The lists without those of a collection.
pub open spec fn lists_without(lists: Seq<(i64, Vec<Game>)>, id: i64) -> Seq<(i64, Vec<Game>)>
    decreases lists.len(),
{
    if lists.len() == 0 {
        Seq::empty()
    } else {
        let before = lists_without(lists.drop_last(), id);
        if lists.last().0 == id {
            before
        } else {
            before.push(lists.last())
        }
    }
}

/// One list per collection, the last one given.
pub open spec fn last_lists(lists: Seq<(i64, Vec<Game>)>) -> Seq<(i64, Vec<Game>)>
    decreases lists.len(),
{
    if lists.len() == 0 {
        Seq::empty()
    } else {
        lists_without(last_lists(lists.drop_last()), lists.last().0).push(lists.last())
    }
}

/// Butler's answer arrived: which games of each collection are installed.
pub open spec fn lists_arrived(pre: App, lists: Seq<(i64, Vec<Game>)>, post: App) -> bool {
    &&& post == (App {
        library: Library { catalog: post.library.catalog, ..pre.library },
        shelves: Shelves {
            collection_installed: post.shelves.collection_installed,
            collection_rows: post.shelves.collection_rows,
            ..pre.shelves
        },
        ..pre
    })
    &&& post.shelves.collection_installed matches Some(kept)
    &&& kept@ == last_lists(lists)
    &&& catalog_fresh(post)
    &&& shelves_relaid(pre, post)
}

fn drop_list(lists: &mut Vec<(i64, Vec<Game>)>, id: i64)
    ensures
        final(lists)@ == lists_without(old(lists)@, id),
{
    let ghost all = lists@;
    let mut i: usize = 0;
    assert(lists@ =~= lists_without(all.take(0), id) + all.skip(0));
    let ghost mut done: int = 0;
    while i < lists.len()
        invariant
            0 <= done <= all.len(),
            i == lists_without(all.take(done), id).len(),
            lists@ == lists_without(all.take(done), id) + all.skip(done),
        decreases lists@.len() - i,
    {
        let ghost kept = lists_without(all.take(done), id);
        proof {
            assert(all.take(done + 1).drop_last() =~= all.take(done));
            assert(lists@[i as int] == all[done]);
        }
        if lists[i].0 == id {
            lists.remove(i);
            assert(lists@ =~= kept + all.skip(done + 1));
        } else {
            i += 1;
            assert(lists@ =~= kept.push(all[done]) + all.skip(done + 1));
        }
        proof {
            done = done + 1;
        }
    }
    proof {
        assert(all.skip(done).len() == 0);
        assert(all.take(done) =~= all);
        assert(lists@ =~= lists_without(all, id));
    }
}

fn keep_last_lists(lists: Vec<(i64, Vec<Game>)>) -> (r: Vec<(i64, Vec<Game>)>)
    ensures
        r@ == last_lists(lists@),
{
    let ghost all = lists@;
    let mut lists = lists;
    let mut r: Vec<(i64, Vec<Game>)> = Vec::new();
    let ghost mut done: int = 0;
    assert(all.take(0) =~= Seq::empty());
    assert(all.skip(0) =~= all);
    while lists.len() > 0
        invariant
            0 <= done <= all.len(),
            lists@ == all.skip(done),
            r@ == last_lists(all.take(done)),
        decreases lists@.len(),
    {
        let list = lists.remove(0);
        proof {
            assert(all.take(done + 1).drop_last() =~= all.take(done));
            assert(list == all[done]);
            assert(lists@ =~= all.skip(done + 1));
            done = done + 1;
        }
        drop_list(&mut r, list.0);
        r.push(list);
    }
    assert(all.take(done) =~= all);
    r
}

/// The games of a page that a collection does not have.
fn pick_unknown(known: &Vec<Game>, games: Vec<Game>) -> (r: Vec<Game>)
    ensures
        r@ == unknown_games(known@, games@),
{
    let mut seen: HashSet<i64> = HashSet::new();
    let mut i: usize = 0;
    while i < known.len()
        invariant
            i <= known@.len(),
            forall|id: i64| #[trigger] seen@.contains(id) <==> exists|k: int|
                0 <= k < i && (#[trigger] known@[k]).id == id,
        decreases known@.len() - i,
    {
        let id = known[i].id;
        let ghost before = seen@;
        seen.insert(id);
        assert forall|x: i64| #[trigger] seen@.contains(x) <==> exists|k: int|
            0 <= k < i + 1 && (#[trigger] known@[k]).id == x by {
            if x == id {
                assert(known@[i as int].id == x);
            } else if before.contains(x) {
                let k = choose|k: int| 0 <= k < i && (#[trigger] known@[k]).id == x;
                assert(known@[k].id == x);
            }
        }
        i += 1;
    }
    let ghost all = games@;
    let mut games = games;
    let mut r: Vec<Game> = Vec::new();
    let ghost mut done: int = 0;
    assert(all.take(0) =~= Seq::empty());
    assert(all.skip(0) =~= all);
    while games.len() > 0
        invariant
            0 <= done <= all.len(),
            games@ == all.skip(done),
            r@ == unknown_games(known@, all.take(done)),
            forall|id: i64| #[trigger] seen@.contains(id) <==> crate::app::catalog::lists(
                known@,
                id,
            ),
        decreases games@.len(),
    {
        let game = games.remove(0);
        proof {
            assert(all.take(done + 1).drop_last() =~= all.take(done));
            assert(game == all[done]);
            assert(games@ =~= all.skip(done + 1));
            done = done + 1;
        }
        if !seen.contains(&game.id) {
            r.push(game);
        }
    }
    assert(all.take(done) =~= all);
    r
}

impl CollectionGames {
    /// Adds a page: the games that the collection did not have, behind the others.
    pub fn add_page(&mut self, games: Vec<Game>, next_cursor: Option<String>)
        ensures
            page_added(*old(self), games@, next_cursor, *final(self)),
    {
        let mut more = pick_unknown(&self.games, games);
        self.games.append(&mut more);
        self.next_cursor = next_cursor;
    }

    fn stop_paging(&mut self)
        ensures
            *final(self) == (CollectionGames { next_cursor: None, ..*old(self) }),
    {
        self.next_cursor = None;
    }
}

impl Shelves {
    fn add_page(&mut self, id: i64, games: Vec<Game>, next_cursor: Option<String>)
        ensures
            *final(self) == (Shelves { collections: final(self).collections, ..*old(self) }),
            collection_changed(
                old(self).collections,
                id,
                |a: CollectionGames, b: CollectionGames| page_added(a, games@, next_cursor, b),
                final(self).collections,
            ),
    {
        let at = match &self.collections {
            Loadable::Loaded(collections) => match find_collection(collections, id) {
                Some(i) => i,
                None => {
                    return;
                },
            },
            _ => {
                return;
            },
        };
        if let Loadable::Loaded(collections) = &mut self.collections {
            let mut changed = collections.remove(at);
            changed.add_page(games, next_cursor);
            collections.insert(at, changed);
        }
    }

    fn stop_paging(&mut self, id: i64)
        ensures
            *final(self) == (Shelves { collections: final(self).collections, ..*old(self) }),
            collection_changed(
                old(self).collections,
                id,
                |a: CollectionGames, b: CollectionGames|
                    b == (CollectionGames { next_cursor: None, ..a }),
                final(self).collections,
            ),
    {
        let at = match &self.collections {
            Loadable::Loaded(collections) => match find_collection(collections, id) {
                Some(i) => i,
                None => {
                    return;
                },
            },
            _ => {
                return;
            },
        };
        if let Loadable::Loaded(collections) = &mut self.collections {
            let mut changed = collections.remove(at);
            changed.stop_paging();
            collections.insert(at, changed);
        }
    }
}

impl App {
    fn relay_shelves(&mut self)
        requires
            old(self).wf(),
        ensures
            *final(self) == (App {
                shelves: Shelves {
                    collection_rows: final(self).shelves.collection_rows,
                    ..old(self).shelves
                },
                ..*old(self)
            }),
            shelves_relaid(*old(self), *final(self)),
            final(self).wf(),
    {
        let ghost mid = *self;
        self.rebuild_collection_sections();
        proof {
            let shelved = App {
                shelves: Shelves {
                    collection_rows: mid.shelves.collection_rows,
                    ..self.shelves
                },
                ..*self
            };
            lemma_collection_rows_ignore_library_rows(mid, shelved);
        }
    }

    pub(crate) fn take_collections(&mut self, collections: Vec<CollectionGames>)
        requires
            old(self).wf(),
        ensures
            collections_arrived(*old(self), collections, *final(self)),
            final(self).wf(),
    {
        self.shelves.collections = Loadable::Loaded(collections);
        self.shelves.collection_loading = HashSet::new();
        self.shelves.collection_installed = None;
        self.request_collection_installed();
        self.rebuild_catalog();
        self.relay_shelves();
    }

    pub(crate) fn take_page(&mut self, id: i64, games: Vec<Game>, next_cursor: Option<String>)
        requires
            old(self).wf(),
        ensures
            page_arrived(*old(self), id, games@, next_cursor, *final(self)),
            final(self).wf(),
    {
        self.shelves.collection_loading.remove(&id);
        self.shelves.add_page(id, games, next_cursor);
        self.rebuild_catalog();
        self.relay_shelves();
    }

    pub(crate) fn take_page_failure(&mut self, id: i64, error: &str, now: u64)
        requires
            old(self).wf(),
        ensures
            page_failed(*old(self), id, error@, now, *final(self)),
            final(self).wf(),
    {
        self.shelves.collection_loading.remove(&id);
        self.shelves.stop_paging(id);
        self.notify(joined("Couldn't load more: ", error), now);
        self.relay_shelves();
    }

    pub(crate) fn take_lists(&mut self, lists: Vec<(i64, Vec<Game>)>)
        requires
            old(self).wf(),
        ensures
            lists_arrived(*old(self), lists@, *final(self)),
            final(self).wf(),
    {
        self.shelves.collection_installed = Some(keep_last_lists(lists));
        self.rebuild_catalog();
        self.relay_shelves();
    }
}

} // verus!
