//! What butler's answers are put together to.
use vstd::prelude::*;
use vstd::string::*;
use crate::backend::Event;
use crate::model::{
    Collection, CollectionGames, Download, DownloadProgress, Game, Profile, UserExt,
};
use crate::model::copy_text;
use crate::order::{arranged, sorted, stable_order, Newest};
use crate::text::{join, join_all, joined, joined3, signed_decimal, signed_text, texts};

verus! {

// ---------------------------------------------------------------------------
// Lists that come in pages
// ---------------------------------------------------------------------------

/// A cursor that leads on; an empty one does not.
pub open spec fn leads_on(cursor: Option<String>) -> Option<String> {
    match cursor {
        Some(text) if text@.len() > 0 => Some(text),
        _ => None,
    }
}

pub fn next_cursor(cursor: Option<String>) -> (r: Option<String>)
    ensures
        r == leads_on(cursor),
{
    match cursor {
        Some(text) => if text.as_str().is_empty() {
            None
        } else {
            Some(text)
        },
        None => None,
    }
}

/// A list that comes in pages, and whether butler flagged any of them stale.
pub struct Pages<T> {
    pub items: Vec<T>,
    pub stale: bool,
}

impl<T> Pages<T> {
    pub fn new() -> (r: Self)
        ensures
            r.items@.len() == 0,
            !r.stale,
    {
        Pages { items: Vec::new(), stale: false }
    }

    /// Takes the next page. Says where the one behind it starts, if there is one.
    pub fn take(&mut self, items: Vec<T>, stale: Option<bool>, cursor: Option<String>) -> (r: Option<
        String,
    >)
        ensures
            final(self).items@ == old(self).items@ + items@,
            final(self).stale == (old(self).stale || stale == Some(true)),
            r == leads_on(cursor),
    {
        let mut items = items;
        self.items.append(&mut items);
        if let Some(true) = stale {
            self.stale = true;
        }
        next_cursor(cursor)
    }

    /// The whole list, and whether a fresh fetch is still owed: never behind a fresh one.
    pub fn finish(self, fresh: bool) -> (r: (Vec<T>, bool))
        ensures
            r.0 == self.items,
            r.1 == (self.stale && !fresh),
    {
        (self.items, self.stale && !fresh)
    }
}

/// The games among entries that have one.
pub open spec fn present(entries: Seq<Option<Game>>) -> Seq<Game>
    decreases entries.len(),
{
    if entries.len() == 0 {
        Seq::empty()
    } else {
        let before = present(entries.drop_last());
        match entries.last() {
            Some(game) => before.push(game),
            None => before,
        }
    }
}

pub fn present_games(entries: Vec<Option<Game>>) -> (r: Vec<Game>)
    ensures
        r@ == present(entries@),
{
    let ghost all = entries@;
    let mut entries = entries;
    let mut r: Vec<Game> = Vec::new();
    let ghost mut done: int = 0;
    assert(all.take(0) =~= Seq::empty());
    assert(all.skip(0) =~= all);
    while entries.len() > 0
        invariant
            0 <= done <= all.len(),
            entries@ == all.skip(done),
            r@ == present(all.take(done)),
        decreases entries@.len(),
    {
        let entry = entries.remove(0);
        proof {
            assert(all.take(done + 1).drop_last() =~= all.take(done));
            assert(entry == all[done]);
            assert(entries@ =~= all.skip(done + 1));
            done = done + 1;
        }
        if let Some(game) = entry {
            r.push(game);
        }
    }
    assert(all.take(done) =~= all);
    r
}

/// A collection with its first page. Rows fetch the rest as they are scrolled.
pub fn shelf(collection: Collection, entries: Vec<Option<Game>>, cursor: Option<String>) -> (r:
    CollectionGames)
    ensures
        r.collection == collection,
        r.games@ == present(entries@),
        r.next_cursor == leads_on(cursor),
{
    CollectionGames {
        collection,
        games: present_games(entries),
        next_cursor: next_cursor(cursor),
    }
}

// ---------------------------------------------------------------------------
// Signing in
// ---------------------------------------------------------------------------

/// How to sign in.
#[derive(Debug, PartialEq, Eq)]
pub enum SignIn {
    /// With a login that butler remembers, saying so.
    Saved {
        profile_id: i64,
        status: String,
    },
    /// With the key that was given.
    ApiKey,
}

/// The saved profiles, the one used last first.
pub open spec fn by_recency(saved: Seq<Profile>) -> Seq<Profile> {
    arranged(saved, stable_order(saved.map_values(|p: Profile| Newest(p.last_connected))))
}

/// The first profile with an id, from `from` on; their number if none has it.
pub open spec fn profile_at(profiles: Seq<Profile>, id: i64, from: int) -> int
    decreases profiles.len() - from,
{
    if from >= profiles.len() || profiles[from].id == id {
        from
    } else {
        profile_at(profiles, id, from + 1)
    }
}

pub open spec fn username(profile: Profile) -> Seq<char> {
    match profile.user {
        Some(user) => user.username@,
        None => "?"@,
    }
}

/// A profile for the user to recognize: its id and the name behind it.
pub open spec fn profile_label(profile: Profile) -> Seq<char> {
    signed_decimal(profile.id as int) + " ("@ + username(profile) + ")"@
}

/// What is said where a profile that was asked for is not there.
pub open spec fn no_such_profile(profiles: Seq<Profile>, id: i64) -> Seq<char> {
    "no saved profile with id "@ + signed_decimal(id as int) + "; saved profiles: "@ + (
    if profiles.len() == 0 {
        "none"@
    } else {
        join(profiles.map_values(|p: Profile| profile_label(p)), ", "@)
    })
}

/// How to sign in: with the profile that was asked for, or the one used last, or the key.
pub open spec fn signs_in(
    saved: Seq<Profile>,
    wanted: Option<i64>,
    has_key: bool,
    dbpath: Seq<char>,
    r: Result<SignIn, String>,
) -> bool {
    let profiles = by_recency(saved);
    let at = match wanted {
        Some(id) => profile_at(profiles, id, 0),
        None => 0,
    };
    if at < profiles.len() {
        &&& r matches Ok(SignIn::Saved { profile_id, status })
        &&& profile_id == profiles[at].id
        &&& status@ == "Using saved login for "@ + username(profiles[at])
    } else {
        match wanted {
            Some(id) => r matches Err(why) && why@ == no_such_profile(profiles, id),
            None => if has_key {
                r matches Ok(SignIn::ApiKey)
            } else {
                r matches Err(why) && why@ == "no saved profile in "@ + dbpath
                    + "; pass --api-key-file or set ZITCH_API_KEY to sign in once"@
            },
        }
    }
}

fn name_of(profile: &Profile) -> (r: &str)
    ensures
        r@ == username(*profile),
{
    match &profile.user {
        Some(user) => user.username.as_str(),
        None => "?",
    }
}

fn recency_order(saved: &Vec<Profile>) -> (r: Vec<usize>)
    ensures
        r@.map_values(|i: usize| i as int) == stable_order(
            saved@.map_values(|p: Profile| Newest(p.last_connected)),
        ),
        r@.len() == saved@.len(),
        forall|i: int| 0 <= i < r@.len() ==> (#[trigger] r@[i]) < saved@.len(),
{
    let ghost wanted = saved@.map_values(|p: Profile| Newest(p.last_connected));
    let mut keys: Vec<Newest> = Vec::new();
    let mut i: usize = 0;
    while i < saved.len()
        invariant
            i <= saved@.len(),
            wanted == saved@.map_values(|p: Profile| Newest(p.last_connected)),
            keys@ == wanted.take(i as int),
        decreases saved@.len() - i,
    {
        keys.push(Newest(copy_text(&saved[i].last_connected)));
        i += 1;
        assert(keys@ =~= wanted.take(i as int));
    }
    assert(keys@ =~= wanted);
    sorted(&keys)
}

fn list_profiles(saved: &Vec<Profile>, order: &Vec<usize>) -> (r: String)
    requires
        order@.map_values(|i: usize| i as int) == stable_order(
            saved@.map_values(|p: Profile| Newest(p.last_connected)),
        ),
        forall|i: int| 0 <= i < order@.len() ==> (#[trigger] order@[i]) < saved@.len(),
    ensures
        r@ == join(by_recency(saved@).map_values(|p: Profile| profile_label(p)), ", "@),
{
    let ghost profiles = by_recency(saved@);
    let ghost all = profiles.map_values(|p: Profile| profile_label(p));
    let ghost places = stable_order(saved@.map_values(|p: Profile| Newest(p.last_connected)));
    let mut labels: Vec<String> = Vec::new();
    let mut i: usize = 0;
    assert(places.len() == order@.len());
    assert(texts(labels@) =~= all.take(0));
    while i < order.len()
        invariant
            i <= order@.len(),
            places.len() == order@.len(),
            order@.map_values(|i: usize| i as int) == places,
            places == stable_order(saved@.map_values(|p: Profile| Newest(p.last_connected))),
            forall|i: int| 0 <= i < order@.len() ==> (#[trigger] order@[i]) < saved@.len(),
            profiles == by_recency(saved@),
            all == profiles.map_values(|p: Profile| profile_label(p)),
            texts(labels@) == all.take(i as int),
        decreases order@.len() - i,
    {
        let ghost before = texts(labels@);
        let profile = &saved[order[i]];
        assert(places[i as int] == order@[i as int]);
        assert(profiles[i as int] == *profile);
        let mut label = joined3(signed_text(profile.id).as_str(), " (", name_of(profile));
        label.append(")");
        let ghost view = label@;
        labels.push(label);
        assert(texts(labels@) =~= before.push(view));
        i += 1;
        assert(texts(labels@) =~= all.take(i as int));
    }
    assert(all.take(i as int) =~= all);
    join_all(&labels, ", ")
}

/// How to sign in: with the profile that was asked for, or the one used last, or the key.
pub fn choose_sign_in(
    saved: &Vec<Profile>,
    wanted: Option<i64>,
    has_key: bool,
    dbpath: &str,
) -> (r: Result<SignIn, String>)
    ensures
        signs_in(saved@, wanted, has_key, dbpath@, r),
{
    let order = recency_order(saved);
    let ghost profiles = by_recency(saved@);
    let ghost places = stable_order(saved@.map_values(|p: Profile| Newest(p.last_connected)));
    assert(places.len() == order@.len());
    let mut at: usize = 0;
    if let Some(id) = wanted {
        while at < order.len() && saved[order[at]].id != id
            invariant
                at <= order@.len(),
                places.len() == order@.len(),
                profiles == by_recency(saved@),
                places == stable_order(saved@.map_values(|p: Profile| Newest(p.last_connected))),
                order@.map_values(|i: usize| i as int) == places,
                forall|i: int| 0 <= i < order@.len() ==> (#[trigger] order@[i]) < saved@.len(),
                profile_at(profiles, id, at as int) == profile_at(profiles, id, 0),
            decreases order@.len() - at,
        {
            assert(places[at as int] == order@[at as int]);
            assert(profiles[at as int] == saved@[order@[at as int] as int]);
            at += 1;
        }
        if at < order.len() {
            assert(places[at as int] == order@[at as int]);
            assert(profiles[at as int] == saved@[order@[at as int] as int]);
        }
    }
    if at < order.len() {
        let profile = &saved[order[at]];
        assert(places[at as int] == order@[at as int]);
        assert(profiles[at as int] == *profile);
        return Ok(
            SignIn::Saved {
                profile_id: profile.id,
                status: joined("Using saved login for ", name_of(profile)),
            },
        );
    }
    match wanted {
        Some(id) => {
            let mut why = joined3(
                "no saved profile with id ",
                signed_text(id).as_str(),
                "; saved profiles: ",
            );
            if saved.len() == 0 {
                why.append("none");
            } else {
                why.append(list_profiles(saved, &order).as_str());
            }
            Err(why)
        },
        None => if has_key {
            Ok(SignIn::ApiKey)
        } else {
            Err(
                joined3(
                    "no saved profile in ",
                    dbpath,
                    "; pass --api-key-file or set ZITCH_API_KEY to sign in once",
                ),
            )
        },
    }
}

/// What is said once signed in.
pub fn welcome(profile: &Profile) -> (r: String)
    ensures
        r@ == "Signed in as "@ + (match profile.user {
            Some(user) => user.shown_name(),
            None => "?"@,
        }),
{
    joined(
        "Signed in as ",
        match &profile.user {
            Some(user) => user.name(),
            None => "?",
        },
    )
}

/// The first install location, where there is one.
pub fn first_location(locations: &Vec<String>) -> (r: Option<String>)
    ensures
        match r {
            Some(id) => locations@.len() > 0 && id == locations@[0],
            None => locations@.len() == 0,
        },
{
    if locations.len() > 0 {
        Some(locations[0].clone())
    } else {
        None
    }
}

/// Without another choice, the profile used last signs in: no saved one was used later.
pub proof fn the_last_profile_signs_in(saved: Seq<Profile>, has_key: bool, dbpath: Seq<char>, r: Result<SignIn, String>, k: int)
    requires
        saved.len() > 0,
        0 <= k < saved.len(),
        signs_in(saved, None, has_key, dbpath, r),
    ensures
        r matches Ok(SignIn::Saved { profile_id, .. }) && exists|i: int|
            0 <= i < saved.len() && (#[trigger] saved[i]).id == profile_id && !crate::order::later(
                saved[k].last_connected,
                saved[i].last_connected,
            ),
{
    let keys = saved.map_values(|p: Profile| Newest(p.last_connected));
    let order = stable_order(keys);
    crate::order::sorting_is_stable(keys);
    let first = order[0];
    assert(by_recency(saved)[0] == saved[first]);
    // Some place holds k.
    lemma_place_of(order, keys.len() as int, k);
    let j = choose|j: int| 0 <= j < order.len() && order[j] == k;
    if j > 0 {
        let a = order[0];
        let b = order[j];
        assert(!<Newest as crate::order::SortKey>::before(keys[b], keys[a]));
    } else {
        <Newest as crate::order::SortKey>::is_order(keys[k], keys[k], keys[k]);
    }
    assert(saved[first].id == by_recency(saved)[0].id);
}

proof fn lemma_place_of(order: Seq<int>, n: int, k: int)
    requires
        order.len() == n,
        forall|i: int| 0 <= i < n ==> 0 <= (#[trigger] order[i]) < n,
        order.no_duplicates(),
        0 <= k < n,
    ensures
        exists|j: int| 0 <= j < order.len() && order[j] == k,
{
    if !order.contains(k) {
        // n different numbers below n, none of them k.
        let s = order.to_set();
        order.unique_seq_to_set();
        let all = vstd::set_lib::set_int_range(0, n);
        vstd::set_lib::lemma_int_range(0, n);
        assert(s.subset_of(all.remove(k))) by {
            assert forall|x: int| s.contains(x) implies all.remove(k).contains(x) by {
                let i = choose|i: int| 0 <= i < order.len() && order[i] == x;
                assert(0 <= order[i] < n);
            }
        }
        vstd::set_lib::lemma_len_subset(s, all.remove(k));
    }
}

// ---------------------------------------------------------------------------
// What the download driver says
// ---------------------------------------------------------------------------

/// What butler says while it works the queue.
#[derive(Debug, PartialEq, Eq)]
pub enum DriveNote {
    Progress {
        download_id: Option<String>,
        progress: Option<DownloadProgress>,
    },
    Started,
    Discarded,
    Errored(Option<Download>),
    Finished(Option<Download>),
    Other,
}

/// What follows from it.
#[derive(Debug, PartialEq, Eq)]
pub enum DriveWork {
    Tell(Event),
    RefreshCaves,
    RefreshDownloads,
}

pub open spec fn drives(note: DriveNote) -> Seq<DriveWork> {
    match note {
        DriveNote::Progress { download_id, progress } => match (download_id, progress) {
            (Some(download_id), Some(progress)) => seq![
                DriveWork::Tell(Event::DownloadProgress { download_id, progress }),
            ],
            _ => Seq::empty(),
        },
        DriveNote::Started | DriveNote::Discarded => seq![DriveWork::RefreshDownloads],
        DriveNote::Errored(download) => match download {
            Some(download) => seq![
                DriveWork::Tell(Event::DownloadErrored(download)),
                DriveWork::RefreshDownloads,
            ],
            None => seq![DriveWork::RefreshDownloads],
        },
        // Finished entries stay listed, as in the itch app, until the user clears them.
        DriveNote::Finished(download) => match download {
            Some(download) => seq![
                DriveWork::RefreshCaves,
                DriveWork::Tell(Event::DownloadFinished(download)),
                DriveWork::RefreshDownloads,
            ],
            None => seq![DriveWork::RefreshCaves, DriveWork::RefreshDownloads],
        },
        DriveNote::Other => Seq::empty(),
    }
}

/// What follows from what butler says while it works the queue.
pub fn drive(note: DriveNote) -> (r: Vec<DriveWork>)
    ensures
        r@ == drives(note),
{
    let ghost wanted = drives(note);
    let mut r: Vec<DriveWork> = Vec::new();
    match note {
        DriveNote::Progress { download_id, progress } => {
            if let (Some(download_id), Some(progress)) = (download_id, progress) {
                r.push(DriveWork::Tell(Event::DownloadProgress { download_id, progress }));
            }
        },
        DriveNote::Started | DriveNote::Discarded => {
            r.push(DriveWork::RefreshDownloads);
        },
        DriveNote::Errored(download) => {
            if let Some(download) = download {
                r.push(DriveWork::Tell(Event::DownloadErrored(download)));
            }
            r.push(DriveWork::RefreshDownloads);
        },
        DriveNote::Finished(download) => {
            r.push(DriveWork::RefreshCaves);
            if let Some(download) = download {
                r.push(DriveWork::Tell(Event::DownloadFinished(download)));
            }
            r.push(DriveWork::RefreshDownloads);
        },
        DriveNote::Other => {},
    }
    assert(r@ =~= wanted);
    r
}

// ---------------------------------------------------------------------------
// What holds of butler's answers as a whole
// ---------------------------------------------------------------------------

/// A page leads on where it names another; an empty cursor is the end of the list.
pub proof fn empty_cursors_end_the_list(cursor: Option<String>)
    ensures
        cursor is None ==> leads_on(cursor) is None,
        cursor matches Some(text) ==> (text@.len() == 0 ==> leads_on(cursor) is None) && (text@.len()
            > 0 ==> leads_on(cursor) == cursor),
{
}

/// The games of a page are those of its entries that have one, in their order.
pub proof fn entries_without_a_game_are_left_out(entries: Seq<Option<Game>>, game: Game)
    ensures
        present(entries).contains(game) <==> entries.contains(Some(game)),
        present(entries).len() <= entries.len(),
        (forall|i: int| 0 <= i < entries.len() ==> (#[trigger] entries[i]) is Some)
            ==> present(entries).len() == entries.len() && forall|i: int|
            0 <= i < entries.len() ==> (#[trigger] present(entries)[i]) == entries[i]->0,
    decreases entries.len(),
{
    if entries.len() > 0 {
        let rest = entries.drop_last();
        entries_without_a_game_are_left_out(rest, game);
        let before = present(rest);
        let all = present(entries);
        if all.contains(game) {
            let k = choose|k: int| 0 <= k < all.len() && all[k] == game;
            if k < before.len() {
                assert(before[k] == game);
                let i = choose|i: int| 0 <= i < rest.len() && rest[i] == Some(game);
                assert(entries[i] == Some(game));
            } else {
                assert(entries[entries.len() - 1] == Some(game));
            }
        }
        if entries.contains(Some(game)) {
            let i = choose|i: int| 0 <= i < entries.len() && entries[i] == Some(game);
            if i < rest.len() {
                assert(rest[i] == Some(game));
                let k = choose|k: int| 0 <= k < before.len() && before[k] == game;
                assert(all[k] == game);
            } else {
                assert(all[all.len() - 1] == game);
            }
        }
        if forall|i: int| 0 <= i < entries.len() ==> (#[trigger] entries[i]) is Some {
            assert forall|i: int| 0 <= i < rest.len() implies (#[trigger] rest[i]) is Some by {
                assert(rest[i] == entries[i]);
            }
            assert(entries[entries.len() - 1] is Some);
            assert forall|i: int| 0 <= i < entries.len() implies (#[trigger] all[i])
                == entries[i]->0 by {
                if i < rest.len() {
                    assert(before[i] == rest[i]->0);
                    assert(all[i] == before[i]);
                }
            }
        }
    }
}

/// A profile that was asked for by its id signs in, wherever it stands among the saved ones,
/// and no other does in its place; one that is not saved is an error. Without any saved profile
/// a key signs in, and without a key there is no way to.
pub proof fn the_wanted_profile_signs_in(
    saved: Seq<Profile>,
    wanted: Option<i64>,
    has_key: bool,
    dbpath: Seq<char>,
    r: Result<SignIn, String>,
)
    requires
        signs_in(saved, wanted, has_key, dbpath, r),
    ensures
        wanted matches Some(id) ==> {
            &&& (exists|i: int| 0 <= i < saved.len() && (#[trigger] saved[i]).id == id) ==> (
            r matches Ok(SignIn::Saved { profile_id, .. }) && profile_id == id)
            &&& !(exists|i: int| 0 <= i < saved.len() && (#[trigger] saved[i]).id == id) ==> r is Err
        },
        wanted is None && saved.len() == 0 && has_key ==> r == Ok::<SignIn, String>(SignIn::ApiKey),
        wanted is None && saved.len() == 0 && !has_key ==> r is Err,
        wanted is None && saved.len() > 0 ==> (r matches Ok(SignIn::Saved { profile_id, .. })
            && exists|i: int| 0 <= i < saved.len() && (#[trigger] saved[i]).id == profile_id),
{
    let keys = saved.map_values(|p: Profile| Newest(p.last_connected));
    crate::order::sorting_loses_nothing(saved, keys);
    let profiles = by_recency(saved);
    if let Some(id) = wanted {
        lemma_profile_at(profiles, id, 0);
        if exists|i: int| 0 <= i < saved.len() && (#[trigger] saved[i]).id == id {
            let i = choose|i: int| 0 <= i < saved.len() && (#[trigger] saved[i]).id == id;
            assert(saved.contains(saved[i]));
            assert(profiles.contains(saved[i]));
            let k = choose|k: int| 0 <= k < profiles.len() && profiles[k] == saved[i];
            assert(profiles[k].id == id);
        } else {
            let at = profile_at(profiles, id, 0);
            if at < profiles.len() {
                assert(profiles.contains(profiles[at]));
                assert(saved.contains(profiles[at]));
                let i = choose|i: int| 0 <= i < saved.len() && saved[i] == profiles[at];
                assert(saved[i].id == id);
            }
        }
    } else if saved.len() > 0 {
        assert(profiles.contains(profiles[0]));
        assert(saved.contains(profiles[0]));
        let i = choose|i: int| 0 <= i < saved.len() && saved[i] == profiles[0];
        assert(saved[i].id == profiles[0].id);
    }
}

proof fn lemma_profile_at(profiles: Seq<Profile>, id: i64, from: int)
    requires
        0 <= from <= profiles.len(),
    ensures
        from <= profile_at(profiles, id, from) <= profiles.len(),
        profile_at(profiles, id, from) < profiles.len() ==> profiles[profile_at(
            profiles,
            id,
            from,
        )].id == id,
        (exists|k: int| from <= k < profiles.len() && (#[trigger] profiles[k]).id == id)
            ==> profile_at(profiles, id, from) < profiles.len(),
    decreases profiles.len() - from,
{
    if from < profiles.len() && profiles[from].id != id {
        lemma_profile_at(profiles, id, from + 1);
    }
}

/// A download that was fetched is told of between a look at the installs and one at the queue;
/// one that failed is told of before the queue is looked at. Progress is told of and nothing is
/// looked at for it.
pub proof fn the_queue_is_looked_at_when_it_changed(note: DriveNote)
    ensures
        note matches DriveNote::Finished(Some(download)) ==> drives(note) == seq![
            DriveWork::RefreshCaves,
            DriveWork::Tell(Event::DownloadFinished(download)),
            DriveWork::RefreshDownloads,
        ],
        note matches DriveNote::Errored(Some(download)) ==> drives(note) == seq![
            DriveWork::Tell(Event::DownloadErrored(download)),
            DriveWork::RefreshDownloads,
        ],
        note is Started || note is Discarded || note is Errored || note is Finished
            ==> drives(note).len() > 0 && drives(note).last() == DriveWork::RefreshDownloads,
        note is Finished ==> drives(note).contains(DriveWork::RefreshCaves),
        (note matches DriveNote::Progress { download_id: Some(id), progress: Some(progress) }
            ==> drives(note) == seq![
            DriveWork::Tell(Event::DownloadProgress { download_id: id, progress }),
        ]),
        note is Progress || note is Other ==> !drives(note).contains(DriveWork::RefreshDownloads)
            && !drives(note).contains(DriveWork::RefreshCaves),
{
    if note is Finished {
        assert(drives(note)[0] == DriveWork::RefreshCaves);
    }
}

/// A profile that is not saved is told of with those that are.
pub proof fn saved_profiles_are_named(profiles: Seq<Profile>, id: i64)
    ensures
        profiles.len() == 0 ==> no_such_profile(profiles, id) == "no saved profile with id "@
            + signed_decimal(id as int) + "; saved profiles: "@ + "none"@,
        profiles.len() == 1 ==> no_such_profile(profiles, id) == "no saved profile with id "@
            + signed_decimal(id as int) + "; saved profiles: "@ + (signed_decimal(
            profiles[0].id as int,
        ) + " ("@ + username(profiles[0]) + ")"@),
{
}

} // verus!
