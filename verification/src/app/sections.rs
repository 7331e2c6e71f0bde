//! Which rows of games the Library and the Collections tab show.
use std::collections::HashSet;
use vstd::prelude::*;
use vstd::string::*;
use crate::app::state::{loaded, App, Library, Shelves};
use crate::backend::Command;
use crate::model::{
    copy_text, is_playable, playable_here, Cave, CaveExt, CollectionGames, Game, Kind, Loadable,
};
use crate::order::{arranged, sorted, stable_order, Newest};
use crate::rows::{section_views, RowsView, Section, SectionView};
use crate::text::{
    contains, decimal, fold_case, has_part, joined, joined3, number_text, signed_decimal,
    signed_text, trim, trimmed, unicode_lowercase,
};

verus! {

broadcast use vstd::std_specs::hash::group_hash_axioms;

// ---------------------------------------------------------------------------
// Installed games, most recently touched first
// ---------------------------------------------------------------------------

/// When the cave was last played or, failing that, installed.
pub open spec fn touched(cave: Cave) -> Option<String> {
    match cave.stats {
        Some(stats) => match stats.last_touched_at {
            Some(at) => Some(at),
            None => stats.installed_at,
        },
        None => None,
    }
}

/// Whether a cave has been played.
pub open spec fn was_played(cave: Cave) -> bool {
    match cave.stats {
        Some(stats) => stats.last_touched_at is Some && stats.seconds_run > 0,
        None => false,
    }
}

pub open spec fn recency(caves: Seq<Cave>) -> Seq<Newest> {
    caves.map_values(|c: Cave| Newest(touched(c)))
}

/// Caves by when they were last touched, most recent first.
pub open spec fn newest_first(caves: Seq<Cave>) -> Seq<Cave> {
    arranged(caves, stable_order(recency(caves)))
}

/// The ids of the games of installs that have one.
pub open spec fn game_ids(caves: Seq<Cave>) -> Seq<i64>
    decreases caves.len(),
{
    if caves.len() == 0 {
        Seq::empty()
    } else {
        let before = game_ids(caves.drop_last());
        match caves.last().game_of() {
            Some(id) => before.push(id),
            None => before,
        }
    }
}

/// Each id once, where it first stands.
pub open spec fn distinct(ids: Seq<i64>) -> Seq<i64>
    decreases ids.len(),
{
    if ids.len() == 0 {
        Seq::empty()
    } else {
        let before = distinct(ids.drop_last());
        if before.contains(ids.last()) {
            before
        } else {
            before.push(ids.last())
        }
    }
}

pub open spec fn played_caves(caves: Seq<Cave>) -> Seq<Cave>
    decreases caves.len(),
{
    if caves.len() == 0 {
        Seq::empty()
    } else {
        let before = played_caves(caves.drop_last());
        if was_played(caves.last()) {
            before.push(caves.last())
        } else {
            before
        }
    }
}

/// At most the first `n` of a list.
pub open spec fn first_few(ids: Seq<i64>, n: int) -> Seq<i64> {
    if ids.len() <= n {
        ids
    } else {
        ids.take(n)
    }
}

/// How many games the row of recently played ones shows at most.
pub const RECENT: usize = 12;

fn last_touched(cave: &Cave) -> (r: Option<String>)
    ensures
        r == touched(*cave),
{
    match &cave.stats {
        Some(stats) => match &stats.last_touched_at {
            Some(at) => Some(at.clone()),
            None => copy_text(&stats.installed_at),
        },
        None => None,
    }
}

/// Each id once, where it first stands.
pub fn distinct_ids(ids: &Vec<i64>) -> (r: Vec<i64>)
    ensures
        r@ == distinct(ids@),
{
    let mut seen: HashSet<i64> = HashSet::new();
    let mut r: Vec<i64> = Vec::new();
    let mut i: usize = 0;
    assert(ids@.take(0) =~= Seq::empty());
    while i < ids.len()
        invariant
            i <= ids@.len(),
            r@ == distinct(ids@.take(i as int)),
            forall|id: i64| #[trigger] seen@.contains(id) <==> r@.contains(id),
        decreases ids@.len() - i,
    {
        assert(ids@.take(i + 1).drop_last() =~= ids@.take(i as int));
        let id = ids[i];
        let ghost before = r@;
        if seen.insert(id) {
            r.push(id);
            assert forall|x: i64| #[trigger] seen@.contains(x) <==> r@.contains(x) by {
                assert(r@.last() == id);
                assert(r@[r@.len() - 1] == id);
                if before.contains(x) {
                    let k = choose|k: int| 0 <= k < before.len() && before[k] == x;
                    assert(r@[k] == x);
                }
                if r@.contains(x) && x != id {
                    let k = choose|k: int| 0 <= k < r@.len() && r@[k] == x;
                    assert(before[k] == x);
                }
            }
        }
        i += 1;
    }
    assert(ids@.take(i as int) =~= ids@);
    r
}

/// The games of some installs, most recently touched first, each once.
pub fn recent_ids(caves: &Vec<&Cave>) -> (r: Vec<i64>)
    ensures
        r@ == distinct(game_ids(newest_first(caves@.map_values(|c: &Cave| *c)))),
{
    let ghost all = caves@.map_values(|c: &Cave| *c);
    let mut keys: Vec<Newest> = Vec::new();
    let mut i: usize = 0;
    while i < caves.len()
        invariant
            i <= caves@.len(),
            all == caves@.map_values(|c: &Cave| *c),
            keys@ == recency(all).take(i as int),
        decreases caves@.len() - i,
    {
        keys.push(Newest(last_touched(caves[i])));
        i += 1;
    }
    assert(keys@ =~= recency(all));
    let order = sorted(&keys);
    let ghost sorted_caves = newest_first(all);
    let mut ids: Vec<i64> = Vec::new();
    let mut k: usize = 0;
    assert(sorted_caves.take(0) =~= Seq::empty());
    while k < order.len()
        invariant
            k <= order@.len(),
            all == caves@.map_values(|c: &Cave| *c),
            sorted_caves == newest_first(all),
            order@.map_values(|i: usize| i as int) == stable_order(recency(all)),
            forall|i: int| 0 <= i < order@.len() ==> (#[trigger] order@[i]) < caves@.len(),
            ids@ == game_ids(sorted_caves.take(k as int)),
        decreases order@.len() - k,
    {
        let cave = caves[order[k]];
        assert(sorted_caves.take(k + 1).drop_last() =~= sorted_caves.take(k as int));
        assert(stable_order(recency(all))[k as int] == order@[k as int]);
        assert(sorted_caves[k as int] == *cave);
        if let Some(id) = cave.game_id() {
            ids.push(id);
        }
        k += 1;
    }
    assert(sorted_caves.take(k as int) =~= sorted_caves) by {
        assert(stable_order(recency(all)).len() == order@.len());
    }
    distinct_ids(&ids)
}

impl App {
    pub open spec fn owned_list(&self) -> Seq<i64> {
        loaded(self.library.owned).map_values(|g: Game| g.id)
    }

    /// Installed games, most recently touched first.
    pub open spec fn installed_list(&self) -> Seq<i64> {
        distinct(game_ids(newest_first(self.library.caves@)))
    }

    /// The games played last, most recent first.
    pub open spec fn played_list(&self) -> Seq<i64> {
        first_few(distinct(game_ids(newest_first(played_caves(self.library.caves@)))), RECENT as int)
    }

    /// Whether the game clears the page-wide filter.
    pub open spec fn lets_through(&self, game: Game) -> bool {
        !self.library.playable_only || is_playable(self.device.host, game)
    }

    pub fn owned_ids(&self) -> (r: Vec<i64>)
        ensures
            r@ == self.owned_list(),
    {
        let mut r: Vec<i64> = Vec::new();
        if let Loadable::Loaded(games) = &self.library.owned {
            let mut i: usize = 0;
            while i < games.len()
                invariant
                    i <= games@.len(),
                    r@ == games@.map_values(|g: Game| g.id).take(i as int),
                decreases games@.len() - i,
            {
                r.push(games[i].id);
                i += 1;
            }
        }
        assert(r@ =~= self.owned_list());
        r
    }

    /// Installed games, most recently touched first, as the itch app sorts
    /// its Installed stripe.
    pub fn installed_ids(&self) -> (r: Vec<i64>)
        ensures
            r@ == self.installed_list(),
    {
        let mut caves: Vec<&Cave> = Vec::new();
        let mut i: usize = 0;
        while i < self.library.caves.len()
            invariant
                i <= self.library.caves@.len(),
                caves@.map_values(|c: &Cave| *c) == self.library.caves@.take(i as int),
            decreases self.library.caves@.len() - i,
        {
            let ghost before = caves@.map_values(|c: &Cave| *c);
            caves.push(&self.library.caves[i]);
            assert(caves@.map_values(|c: &Cave| *c) =~= before.push(self.library.caves@[i as int]));
            i += 1;
            assert(caves@.map_values(|c: &Cave| *c) =~= self.library.caves@.take(i as int));
        }
        assert(self.library.caves@.take(i as int) =~= self.library.caves@);
        recent_ids(&caves)
    }

    /// The games played last, most recent first.
    pub fn played_ids(&self) -> (r: Vec<i64>)
        ensures
            r@ == self.played_list(),
    {
        let mut caves: Vec<&Cave> = Vec::new();
        let mut i: usize = 0;
        assert(caves@.map_values(|c: &Cave| *c) =~= played_caves(self.library.caves@.take(0)));
        while i < self.library.caves.len()
            invariant
                i <= self.library.caves@.len(),
                caves@.map_values(|c: &Cave| *c) == played_caves(self.library.caves@.take(i as int)),
            decreases self.library.caves@.len() - i,
        {
            let ghost before = caves@.map_values(|c: &Cave| *c);
            assert(self.library.caves@.take(i + 1).drop_last() =~= self.library.caves@.take(i as int));
            let cave = &self.library.caves[i];
            let played = match &cave.stats {
                Some(stats) => stats.last_touched_at.is_some() && stats.seconds_run > 0,
                None => false,
            };
            if played {
                caves.push(cave);
                assert(caves@.map_values(|c: &Cave| *c) =~= before.push(*cave));
            }
            i += 1;
        }
        assert(self.library.caves@.take(i as int) =~= self.library.caves@);
        let mut ids = recent_ids(&caves);
        if ids.len() > RECENT {
            ids.truncate(RECENT);
        }
        assert(ids@ =~= self.played_list());
        ids
    }

    pub fn passes(&self, game: &Game) -> (r: bool)
        ensures
            r == self.lets_through(*game),
    {
        !self.library.playable_only || playable_here(self.device.host, game)
    }
}

// ---------------------------------------------------------------------------
// The Library tab
// ---------------------------------------------------------------------------

impl App {
    /// Those of the ids that the page-wide filter does not hide.
    pub open spec fn unhidden(&self, ids: Seq<i64>) -> Seq<i64>
        decreases ids.len(),
    {
        if ids.len() == 0 {
            Seq::empty()
        } else {
            let before = self.unhidden(ids.drop_last());
            if self.library.catalog@.contains_key(ids.last()) && !self.lets_through(
                self.library.catalog@[ids.last()],
            ) {
                before
            } else {
                before.push(ids.last())
            }
        }
    }

    /// Those of the ids whose games are of a kind.
    pub open spec fn of_kind(&self, ids: Seq<i64>, kind: Kind) -> Seq<i64>
        decreases ids.len(),
    {
        if ids.len() == 0 {
            Seq::empty()
        } else {
            let before = self.of_kind(ids.drop_last(), kind);
            if self.library.catalog@.contains_key(ids.last()) && kind.covers(self.library.catalog@[ids.last()]) {
                before.push(ids.last())
            } else {
                before
            }
        }
    }

    /// Whether a search finds a game: it passes the filter and its title holds the words,
    /// whatever the case.
    pub open spec fn is_hit(&self, id: i64, query: Seq<char>) -> bool {
        &&& self.library.catalog@.contains_key(id)
        &&& self.lets_through(self.library.catalog@[id])
        &&& has_part(unicode_lowercase(self.library.catalog@[id].title@), query)
    }

    pub open spec fn hits(&self, ids: Seq<i64>, query: Seq<char>) -> Seq<i64>
        decreases ids.len(),
    {
        if ids.len() == 0 {
            Seq::empty()
        } else {
            let before = self.hits(ids.drop_last(), query);
            if self.is_hit(ids.last(), query) {
                before.push(ids.last())
            } else {
                before
            }
        }
    }

    /// A row after the page-wide filter: none when it was empty anyway, a
    /// note in place of tiles when the filter took everything.
    pub open spec fn titled_row(
        &self,
        heading: Seq<char>,
        counted: bool,
        ids: Seq<i64>,
    ) -> Seq<SectionView> {
        if ids.len() == 0 {
            Seq::empty()
        } else {
            let games = self.unhidden(ids);
            seq![
                SectionView {
                    title: if counted {
                        heading + " · "@ + decimal(games.len())
                    } else {
                        heading
                    },
                    games,
                    note: if games.len() == 0 {
                        Some("Nothing here runs on this device"@)
                    } else {
                        None
                    },
                    more: false,
                    collection: None,
                },
            ]
        }
    }

    pub open spec fn kind_row(&self, kind: Kind) -> Seq<SectionView> {
        self.titled_row(
            kind.as_filter().shown_label(),
            true,
            self.of_kind(self.owned_list(), kind),
        )
    }

    /// What was typed into the search box, ready to be looked for.
    pub open spec fn search_words(&self) -> Seq<char> {
        unicode_lowercase(trim(self.search.query@))
    }

    /// The one row of a search: owned first then installed-only, each in its usual order.
    pub open spec fn search_row(&self, query: Seq<char>) -> SectionView {
        let games = self.hits(distinct(self.owned_list() + self.installed_list()), query);
        SectionView {
            title: if games.len() == 0 {
                "No matches"@
            } else if games.len() == 1 {
                "1 match"@
            } else {
                decimal(games.len()) + " matches"@
            },
            games,
            note: None,
            more: false,
            collection: None,
        }
    }

    /// The home screen with nothing searched for: what is installed, what was played last,
    /// and everything owned, one row per kind of thing.
    pub open spec fn home_rows(&self) -> Seq<SectionView> {
        self.titled_row("Installed"@, false, self.installed_list()) + self.titled_row(
            "Recently played"@,
            false,
            self.played_list(),
        ) + self.kind_row(Kind::Games) + self.kind_row(Kind::Tools) + self.kind_row(Kind::Other)
    }

    /// The rows of the Library tab, for given words to search for.
    pub open spec fn library_rows(&self, query: Seq<char>) -> Seq<SectionView> {
        if query.len() > 0 {
            seq![self.search_row(query)]
        } else {
            self.home_rows()
        }
    }

    /// The Library tab's rows after they have been laid out anew.
    pub open spec fn fresh_rows(&self) -> RowsView {
        if self.library.owned is Loaded {
            self.library.rows@.with_sections(self.library_rows(self.search_words()))
        } else {
            self.library.rows@
        }
    }

    /// Appends the row, where there is one.
    fn section(&self, heading: &str, counted: bool, ids: &Vec<i64>, sections: &mut Vec<Section>)
        ensures
            section_views(final(sections)@) == section_views(old(sections)@) + self.titled_row(
                heading@,
                counted,
                ids@,
            ),
    {
        let ghost before = section_views(sections@);
        if ids.len() == 0 {
            assert(section_views(sections@) =~= before + self.titled_row(heading@, counted, ids@));
            return;
        }
        let mut games: Vec<i64> = Vec::new();
        let mut i: usize = 0;
        assert(ids@.take(0) =~= Seq::empty());
        while i < ids.len()
            invariant
                i <= ids@.len(),
                games@ == self.unhidden(ids@.take(i as int)),
            decreases ids@.len() - i,
        {
            assert(ids@.take(i + 1).drop_last() =~= ids@.take(i as int));
            let id = ids[i];
            let hidden = match self.library.catalog.get(&id) {
                Some(game) => !self.passes(game),
                None => false,
            };
            if !hidden {
                games.push(id);
            }
            i += 1;
        }
        assert(ids@.take(i as int) =~= ids@);
        let title = if counted {
            joined3(heading, " · ", number_text(games.len() as u64).as_str())
        } else {
            heading.to_owned()
        };
        let note = if games.len() == 0 {
            Some("Nothing here runs on this device".to_owned())
        } else {
            None
        };
        let section = Section { title, games, note, more: false, collection: None };
        let ghost view = section@;
        sections.push(section);
        assert(section_views(sections@) =~= before.push(view));
        assert(view =~= self.titled_row(heading@, counted, ids@)[0]);
        assert(section_views(sections@) =~= before + self.titled_row(heading@, counted, ids@));
    }

    fn kind_section(&self, kind: Kind, sections: &mut Vec<Section>)
        ensures
            section_views(final(sections)@) == section_views(old(sections)@) + self.kind_row(kind),
    {
        let owned = self.owned_ids();
        let mut ids: Vec<i64> = Vec::new();
        let mut i: usize = 0;
        assert(owned@.take(0) =~= Seq::empty());
        while i < owned.len()
            invariant
                i <= owned@.len(),
                ids@ == self.of_kind(owned@.take(i as int), kind),
            decreases owned@.len() - i,
        {
            assert(owned@.take(i + 1).drop_last() =~= owned@.take(i as int));
            if let Some(game) = self.library.catalog.get(&owned[i]) {
                if kind.matches(game) {
                    ids.push(owned[i]);
                }
            }
            i += 1;
        }
        assert(owned@.take(i as int) =~= owned@);
        self.section(kind.label(), true, &ids, sections);
    }

    /// Whether a title, in small letters, answers a search.
    fn hit(&self, id: i64, query: &str) -> (r: bool)
        ensures
            r == self.is_hit(id, query@),
    {
        match self.library.catalog.get(&id) {
            Some(game) => self.passes(game) && contains(
                fold_case(game.title.as_str()).as_str(),
                query,
            ),
            None => false,
        }
    }

    /// The rows of the Library tab: with words to search for, one row of matches; without,
    /// the way the itch app's Library tab has them. The words are trimmed and in small
    /// letters.
    pub fn library_sections(&self, query: &str) -> (r: Vec<Section>)
        ensures
            section_views(r@) == self.library_rows(query@),
    {
        let mut sections: Vec<Section> = Vec::new();
        if !query.is_empty() {
            let owned = self.owned_ids();
            let mut all = owned;
            let mut installed = self.installed_ids();
            all.append(&mut installed);
            let ids = distinct_ids(&all);
            let ghost wanted = distinct(self.owned_list() + self.installed_list());
            let mut games: Vec<i64> = Vec::new();
            let mut i: usize = 0;
            assert(ids@.take(0) =~= Seq::empty());
            while i < ids.len()
                invariant
                    i <= ids@.len(),
                    games@ == self.hits(ids@.take(i as int), query@),
                decreases ids@.len() - i,
            {
                assert(ids@.take(i + 1).drop_last() =~= ids@.take(i as int));
                if self.hit(ids[i], query) {
                    games.push(ids[i]);
                }
                i += 1;
            }
            assert(ids@.take(i as int) =~= ids@);
            let title = if games.len() == 0 {
                "No matches".to_owned()
            } else if games.len() == 1 {
                "1 match".to_owned()
            } else {
                joined(number_text(games.len() as u64).as_str(), " matches")
            };
            let section = Section { title, games, note: None, more: false, collection: None };
            assert(section@ =~= self.search_row(query@));
            sections.push(section);
            assert(section_views(sections@) =~= self.library_rows(query@));
            return sections;
        }
        assert(section_views(sections@) =~= Seq::empty());
        let installed = self.installed_ids();
        self.section("Installed", false, &installed, &mut sections);
        assert(section_views(sections@) =~= self.titled_row(
            "Installed"@,
            false,
            self.installed_list(),
        ));
        let played = self.played_ids();
        self.section("Recently played", false, &played, &mut sections);
        self.kind_section(Kind::Games, &mut sections);
        self.kind_section(Kind::Tools, &mut sections);
        self.kind_section(Kind::Other, &mut sections);
        sections
    }

    /// Lays the Library tab out anew, once the library is loaded.
    pub fn rebuild_sections(&mut self)
        requires
            old(self).wf(),
        ensures
            *final(self) == (App {
                library: Library { rows: final(self).library.rows, ..old(self).library },
                ..*old(self)
            }),
            final(self).library.rows@ == old(self).fresh_rows(),
            final(self).wf(),
    {
        if self.library.owned.get().is_none() {
            return;
        }
        let query = fold_case(trimmed(self.search.query.as_str()).as_str());
        let sections = self.library_sections(query.as_str());
        self.library.rows.set_sections(sections);
    }
}

// ---------------------------------------------------------------------------
// The Collections tab
// ---------------------------------------------------------------------------

/// The list for a collection.
pub open spec fn list_for(lists: Seq<(i64, Vec<Game>)>, id: i64) -> Option<Seq<Game>>
    decreases lists.len(),
{
    if lists.len() == 0 {
        None
    } else if lists.last().0 == id {
        Some(lists.last().1@)
    } else {
        list_for(lists.drop_last(), id)
    }
}

fn find_list(lists: &Vec<(i64, Vec<Game>)>, id: i64) -> (r: Option<&Vec<Game>>)
    ensures
        r matches Some(games) ==> list_for(lists@, id) == Some(games@),
        r is None ==> list_for(lists@, id) is None,
{
    let mut i: usize = lists.len();
    assert(lists@.take(i as int) =~= lists@);
    while i > 0
        invariant
            i <= lists@.len(),
            list_for(lists@.take(i as int), id) == list_for(lists@, id),
        decreases i,
    {
        assert(lists@.take(i as int).drop_last() =~= lists@.take(i - 1));
        i -= 1;
        if lists[i].0 == id {
            return Some(&lists[i].1);
        }
    }
    None
}

impl App {
    /// Butler's answer for a collection, when the tab shows only installed games.
    pub open spec fn exact_list(&self, id: i64) -> Option<Seq<Game>> {
        match self.shelves.collection_installed {
            Some(lists) if self.shelves.collections_installed_only => list_for(lists@, id),
            _ => None,
        }
    }

    /// The ids of those games that the tab shows.
    pub open spec fn shown_ids(&self, games: Seq<Game>) -> Seq<i64>
        decreases games.len(),
    {
        if games.len() == 0 {
            Seq::empty()
        } else {
            let before = self.shown_ids(games.drop_last());
            let game = games.last();
            if self.lets_through(game) && (!self.shelves.collections_installed_only
                || self.library.installed@.contains(game.id)) {
                before.push(game.id)
            } else {
                before
            }
        }
    }

    /// A collection's row. Butler's answer covers the whole collection; until it
    /// arrives, the pages fetched so far stand in.
    pub open spec fn collection_row(&self, c: CollectionGames) -> SectionView {
        let exact = self.exact_list(c.collection.id);
        let listed = match exact {
            Some(games) => games,
            None => c.games@,
        };
        let games = self.shown_ids(listed);
        let more = exact is None && c.next_cursor is Some;
        SectionView {
            title: c.collection.title@ + " · "@ + signed_decimal(c.collection.games_count as int),
            games,
            note: if more {
                None
            } else if c.games@.len() == 0 {
                Some("Empty collection"@)
            } else if games.len() > 0 {
                None
            } else if self.shelves.collections_installed_only {
                Some("Nothing installed from this collection"@)
            } else {
                Some("Nothing here runs on this device"@)
            },
            more,
            collection: Some(c.collection.id),
        }
    }

    /// The rows of those collections that have something to show, or of those that do not.
    pub open spec fn collection_rows_where(
        &self,
        collections: Seq<CollectionGames>,
        bare: bool,
    ) -> Seq<SectionView>
        decreases collections.len(),
    {
        if collections.len() == 0 {
            Seq::empty()
        } else {
            let before = self.collection_rows_where(collections.drop_last(), bare);
            let row = self.collection_row(collections.last());
            if bare == (row.games.len() == 0 && !row.more) {
                before.push(row)
            } else {
                before
            }
        }
    }

    /// One row per collection; collections with nothing to show sink to the bottom.
    pub open spec fn all_collection_rows(&self) -> Seq<SectionView> {
        self.collection_rows_where(loaded(self.shelves.collections), false) + self.collection_rows_where(
            loaded(self.shelves.collections),
            true,
        )
    }

    /// The Collections tab's rows after they have been laid out anew.
    pub open spec fn fresh_collection_rows(&self) -> RowsView {
        if self.shelves.collections is Loaded {
            self.shelves.collection_rows@.with_sections(self.all_collection_rows())
        } else {
            self.shelves.collection_rows@
        }
    }

    /// The row of a collection.
    pub fn collection_section(&self, c: &CollectionGames) -> (r: Section)
        ensures
            r@ == self.collection_row(*c),
    {
        let exact = match &self.shelves.collection_installed {
            Some(lists) => if self.shelves.collections_installed_only {
                find_list(lists, c.collection.id)
            } else {
                None
            },
            None => None,
        };
        let listed = match exact {
            Some(games) => games,
            None => &c.games,
        };
        let mut games: Vec<i64> = Vec::new();
        let mut i: usize = 0;
        assert(listed@.take(0) =~= Seq::empty());
        while i < listed.len()
            invariant
                i <= listed@.len(),
                games@ == self.shown_ids(listed@.take(i as int)),
            decreases listed@.len() - i,
        {
            assert(listed@.take(i + 1).drop_last() =~= listed@.take(i as int));
            let game = &listed[i];
            if self.passes(game) && (!self.shelves.collections_installed_only || self.library.installed.contains(
                &game.id,
            )) {
                games.push(game.id);
            }
            i += 1;
        }
        assert(listed@.take(i as int) =~= listed@);
        let more = exact.is_none() && c.next_cursor.is_some();
        let note = if more {
            None
        } else if c.games.len() == 0 {
            Some("Empty collection".to_owned())
        } else if games.len() > 0 {
            None
        } else if self.shelves.collections_installed_only {
            Some("Nothing installed from this collection".to_owned())
        } else {
            Some("Nothing here runs on this device".to_owned())
        };
        let title = joined3(
            c.collection.title.as_str(),
            " · ",
            signed_text(c.collection.games_count).as_str(),
        );
        let r = Section { title, games, note, more, collection: Some(c.collection.id) };
        assert(r@ =~= self.collection_row(*c));
        r
    }

    /// Lays the Collections tab out anew, once the collections are loaded. With the
    /// installed filter on, collections with nothing installed sink to the bottom and say so.
    pub fn rebuild_collection_sections(&mut self)
        requires
            old(self).wf(),
        ensures
            *final(self) == (App {
                shelves: Shelves {
                    collection_rows: final(self).shelves.collection_rows,
                    ..old(self).shelves
                },
                ..*old(self)
            }),
            final(self).shelves.collection_rows@ == old(self).fresh_collection_rows(),
            final(self).wf(),
    {
        let mut full: Vec<Section> = Vec::new();
        let mut bare: Vec<Section> = Vec::new();
        match &self.shelves.collections {
            Loadable::Loaded(collections) => {
                let mut i: usize = 0;
                assert(collections@.take(0) =~= Seq::empty());
                assert(section_views(full@) =~= Seq::empty());
                assert(section_views(bare@) =~= Seq::empty());
                while i < collections.len()
                    invariant
                        i <= collections@.len(),
                        section_views(full@) == self.collection_rows_where(
                            collections@.take(i as int),
                            false,
                        ),
                        section_views(bare@) == self.collection_rows_where(
                            collections@.take(i as int),
                            true,
                        ),
                    decreases collections@.len() - i,
                {
                    assert(collections@.take(i + 1).drop_last() =~= collections@.take(i as int));
                    let section = self.collection_section(&collections[i]);
                    let ghost row = section@;
                    let ghost above = section_views(full@);
                    let ghost below = section_views(bare@);
                    if section.games.len() == 0 && !section.more {
                        bare.push(section);
                        assert(section_views(bare@) =~= below.push(row));
                    } else {
                        full.push(section);
                        assert(section_views(full@) =~= above.push(row));
                    }
                    i += 1;
                }
                assert(collections@.take(i as int) =~= collections@);
            },
            _ => {
                return;
            },
        }
        let ghost above = section_views(full@);
        let ghost below = section_views(bare@);
        full.append(&mut bare);
        assert(section_views(full@) =~= above + below);
        self.shelves.collection_rows.set_sections(full);
    }

    /// The ids of the collections, as butler is asked about them.
    pub open spec fn collection_ids(&self) -> Seq<i64> {
        loaded(self.shelves.collections).map_values(|c: CollectionGames| c.collection.id)
    }

    /// Butler has to be asked which games of the collections are installed: the filter needs
    /// it and the answer is not known.
    pub open spec fn needs_installed(&self) -> bool {
        self.shelves.collections_installed_only && self.shelves.collection_installed is None
            && self.shelves.collections is Loaded
    }

    /// What was sent after `before`: butler was asked about the collections where needed.
    pub open spec fn asked_for_installed(&self, before: Seq<Command>, after: Seq<Command>) -> bool {
        if self.needs_installed() {
            &&& after.len() == before.len() + 1
            &&& after.drop_last() == before
            &&& after.last() matches Command::CollectionsInstalled { collection_ids }
            &&& collection_ids@ == self.collection_ids()
        } else {
            after == before
        }
    }

    /// Asks butler which games in each collection are installed, when the
    /// filter needs it and the answer is not already known.
    pub fn request_collection_installed(&mut self)
        ensures
            *final(self) == (App { commands: final(self).commands, ..*old(self) }),
            old(self).asked_for_installed(old(self).commands@, final(self).commands@),
    {
        if !self.shelves.collections_installed_only || self.shelves.collection_installed.is_some() {
            return;
        }
        let mut ids: Vec<i64> = Vec::new();
        match &self.shelves.collections {
            Loadable::Loaded(collections) => {
                let mut i: usize = 0;
                while i < collections.len()
                    invariant
                        i <= collections@.len(),
                        ids@ == collections@.map_values(
                            |c: CollectionGames| c.collection.id,
                        ).take(i as int),
                    decreases collections@.len() - i,
                {
                    ids.push(collections[i].collection.id);
                    i += 1;
                }
                assert(ids@ =~= self.collection_ids());
            },
            _ => {
                return;
            },
        }
        let ghost before = self.commands@;
        self.commands.push(Command::CollectionsInstalled { collection_ids: ids });
        assert(self.commands@.drop_last() =~= before);
    }
}

} // verus!
