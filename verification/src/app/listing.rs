//! What the Downloads tab lists and what each game shows of its download.
use vstd::prelude::*;
use crate::app::downloads::{ended, finish_order, queue_order};
use crate::app::state::App;
use crate::lists::filtering_keeps_what_passes;
use crate::model::{Cave, Download, DownloadReason};
use crate::moment::moment;
use crate::order::{
    sorting_is_stable, sorting_loses_nothing, stable_order, Ascending, Newest, SortKey,
};
use crate::text::precedes;
use crate::ui::DownloadSection;

verus! {

// ---------------------------------------------------------------------------
// Every download has its row
// ---------------------------------------------------------------------------

proof fn lemma_ended(downloads: Seq<Download>, yes: bool, keep: spec_fn(Download) -> bool)
    requires
        forall|d: Download| #[trigger] keep(d) == ((d.finished_at is Some) == yes),
    ensures
        ended(downloads, yes) == downloads.filter(keep),
    decreases downloads.len(),
{
    reveal(Seq::filter);
    if downloads.len() > 0 {
        lemma_ended(downloads.drop_last(), yes, keep);
        assert(keep(downloads.last()) == ((downloads.last().finished_at is Some) == yes));
    } else {
        assert(downloads.filter(keep) =~= Seq::empty());
    }
}

proof fn lemma_ended_parts(downloads: Seq<Download>)
    ensures
        ended(downloads, true).len() + ended(downloads, false).len() == downloads.len(),
    decreases downloads.len(),
{
    if downloads.len() > 0 {
        lemma_ended_parts(downloads.drop_last());
    }
}

/// What waits or is under way stands in the queue, by its position; what has ended stands
/// behind it, the latest first. Nothing is left out and nothing is added.
pub proof fn downloads_are_queued_or_finished(downloads: Seq<Download>, d: Download)
    ensures
        queue_order(downloads).contains(d) <==> downloads.contains(d) && d.finished_at is None,
        finish_order(downloads).contains(d) <==> downloads.contains(d) && d.finished_at is Some,
        queue_order(downloads).len() + finish_order(downloads).len() == downloads.len(),
        forall|i: int, j: int|
            0 <= i < j < queue_order(downloads).len() ==> (#[trigger] queue_order(
                downloads,
            )[i]).position <= (#[trigger] queue_order(downloads)[j]).position,
        forall|i: int, j: int|
            0 <= i < j < finish_order(downloads).len() ==> !precedes(
                (#[trigger] finish_order(downloads)[i]).finished_at->0@,
                (#[trigger] finish_order(downloads)[j]).finished_at->0@,
            ),
{
    let open = |d: Download| d.finished_at is None;
    let shut = |d: Download| d.finished_at is Some;
    lemma_ended(downloads, false, open);
    lemma_ended(downloads, true, shut);
    lemma_ended_parts(downloads);
    filtering_keeps_what_passes(downloads, open);
    filtering_keeps_what_passes(downloads, shut);
    let pending = ended(downloads, false);
    let places = pending.map_values(|d: Download| Ascending(d.position));
    sorting_loses_nothing(pending, places);
    sorting_is_stable(places);
    assert(queue_order(downloads).contains(d) <==> pending.contains(d));
    assert forall|i: int, j: int| 0 <= i < j < queue_order(downloads).len() implies (
    #[trigger] queue_order(downloads)[i]).position <= (#[trigger] queue_order(
        downloads,
    )[j]).position by {
        let a = stable_order(places)[i];
        let b = stable_order(places)[j];
        assert(!Ascending::before(places[b], places[a]));
    }
    let finished = ended(downloads, true);
    let times = finished.map_values(|d: Download| Newest(d.finished_at));
    sorting_loses_nothing(finished, times);
    sorting_is_stable(times);
    assert(finish_order(downloads).contains(d) <==> finished.contains(d));
    assert forall|i: int, j: int| 0 <= i < j < finish_order(downloads).len() implies !precedes(
        (#[trigger] finish_order(downloads)[i]).finished_at->0@,
        (#[trigger] finish_order(downloads)[j]).finished_at->0@,
    ) by {
        let a = stable_order(times)[i];
        let b = stable_order(times)[j];
        assert(!Newest::before(times[b], times[a]));
        assert(finished.contains(finished[a]) && finished.contains(finished[b]));
        assert(shut(finished[a]) && shut(finished[b]));
    }
}

/// Every download has its row on the Downloads tab, named after its game: in the queue while it
/// has not ended, and among the finished ones afterwards.
pub proof fn every_download_has_its_row(app: App, i: int) -> (at: int)
    requires
        0 <= i < app.queue.downloads@.len(),
    ensures
        0 <= at < app.download_list().len(),
        app.download_list()[at].game == app.queue.downloads@[i].game,
        app.queue.downloads@[i].finished_at is None ==> app.download_list()[at].section
            == DownloadSection::Queue && app.download_list()[at] == app.queue_row(
            app.queue.downloads@[i],
        ),
        app.queue.downloads@[i].finished_at is Some ==> app.download_list()[at].section
            == DownloadSection::Finished && app.download_list()[at] == app.finished_row(
            app.queue.downloads@[i],
        ),
        app.queue.downloads@[i].game matches Some(game) ==> app.download_list()[at].title
            == game.title@,
{
    let downloads = app.queue.downloads@;
    let d = downloads[i];
    downloads_are_queued_or_finished(downloads, d);
    assert(downloads.contains(d));
    let all = app.download_list();
    let updates = app.update_list().len();
    if d.finished_at is None {
        let order = queue_order(downloads);
        let k = choose|k: int| 0 <= k < order.len() && order[k] == d;
        assert(app.queue_list()[k] == app.queue_row(d));
        assert(all[updates + k] == app.queue_row(d));
        updates + k
    } else {
        let order = finish_order(downloads);
        let k = choose|k: int| 0 <= k < order.len() && order[k] == d;
        assert(app.finished_list()[k] == app.finished_row(d));
        assert(all[updates + app.queue_list().len() + k] == app.finished_row(d));
        updates + app.queue_list().len() + k
    }
}

/// The tab lists the updates first, then the queue, then what has ended, and one row for each.
pub proof fn the_tab_lists_updates_then_queue_then_finished(app: App, i: int, j: int)
    requires
        0 <= i < j < app.download_list().len(),
    ensures
        app.download_list()[j].section == DownloadSection::Updates
            ==> app.download_list()[i].section == DownloadSection::Updates,
        app.download_list()[i].section == DownloadSection::Finished
            ==> app.download_list()[j].section == DownloadSection::Finished,
        app.download_list().len() == app.update_list().len() + app.queue.downloads@.len(),
{
    let downloads = app.queue.downloads@;
    downloads_are_queued_or_finished(downloads, downloads[0]);
    let updates = app.update_list().len();
    let queue = app.queue_list().len();
    let all = app.download_list();
    assert forall|k: int| 0 <= k < all.len() implies (#[trigger] all[k]).section == (if k < updates {
        DownloadSection::Updates
    } else if k < updates + queue {
        DownloadSection::Queue
    } else {
        DownloadSection::Finished
    }) by {
        if k < updates {
            assert(all[k] == app.update_list()[k]);
        } else if k < updates + queue {
            assert(all[k] == app.queue_list()[k - updates]);
        } else {
            assert(all[k] == app.finished_list()[k - updates - queue]);
        }
    }
    assert(all[i].section == all[i].section && all[j].section == all[j].section);
}

// ---------------------------------------------------------------------------
// Updates that wait
// ---------------------------------------------------------------------------

/// An install whose update waits: butler found one, and nothing fetches it yet.
pub open spec fn has_waiting_update(app: App, cave: Cave, direct_only: bool) -> bool {
    &&& app.news.updates@.contains_key(cave.id@)
    &&& direct_only ==> app.news.updates@[cave.id@].direct
    &&& forall|k: int|
        0 <= k < app.queue.downloads@.len() && (#[trigger] app.queue.downloads@[k]).cave_id@
            == cave.id@ ==> app.queue.downloads@[k].finished_at is Some
}

/// An install of that id has a waiting update.
pub open spec fn some_install_waits(app: App, id: String, direct_only: bool) -> bool {
    exists|i: int|
        0 <= i < app.library.caves@.len() && has_waiting_update(
            app,
            #[trigger] app.library.caves@[i],
            direct_only,
        ) && app.library.caves@[i].id == id
}

proof fn lemma_awaiting(app: App, caves: Seq<Cave>, direct_only: bool, keep: spec_fn(Cave) -> bool)
    requires
        forall|c: Cave| #[trigger] keep(c) == has_waiting_update(app, c, direct_only),
    ensures
        app.awaiting(caves, direct_only) == caves.filter(keep).map_values(|c: Cave| c.id),
    decreases caves.len(),
{
    reveal(Seq::filter);
    let part = caves.filter(keep);
    if caves.len() > 0 {
        let rest = caves.drop_last();
        lemma_awaiting(app, rest, direct_only, keep);
        let before = rest.filter(keep);
        let last = caves.last();
        assert(keep(last) == has_waiting_update(app, last, direct_only));
        assert(app.awaits_update(last, direct_only) == has_waiting_update(app, last, direct_only));
        if keep(last) {
            assert(before.push(last).map_values(|c: Cave| c.id) =~= before.map_values(
                |c: Cave| c.id,
            ).push(last.id));
        }
    } else {
        assert(part.map_values(|c: Cave| c.id) =~= Seq::empty());
    }
}

/// Exactly the installs with a waiting update are listed for one, in the order of the library,
/// with butler's guesses or without; none is listed while itch.io cannot be reached.
pub proof fn waiting_updates_are_listed(app: App, direct_only: bool, cave: Cave)
    ensures
        app.library.caves@.contains(cave) && has_waiting_update(app, cave, direct_only)
            ==> app.awaiting(app.library.caves@, direct_only).contains(cave.id),
        forall|k: int|
            0 <= k < app.awaiting(app.library.caves@, direct_only).len() ==> some_install_waits(
                app,
                #[trigger] app.awaiting(app.library.caves@, direct_only)[k],
                direct_only,
            ),
        app.news.online ==> app.update_list().len() == app.awaiting(
            app.library.caves@,
            false,
        ).len(),
        !app.news.online ==> app.update_list().len() == 0,
        app.update_list().len() > 0 ==> forall|k: int|
            0 <= k < app.update_list().len() ==> (#[trigger] app.update_list()[k]) == app.update_row(
                app.awaiting(app.library.caves@, false)[k],
            ),
{
    let caves = app.library.caves@;
    let keep = |c: Cave| has_waiting_update(app, c, direct_only);
    lemma_awaiting(app, caves, direct_only, keep);
    filtering_keeps_what_passes(caves, keep);
    let part = caves.filter(keep);
    let ids = app.awaiting(caves, direct_only);
    if caves.contains(cave) && has_waiting_update(app, cave, direct_only) {
        assert(keep(cave));
        assert(part.contains(cave));
        let k = choose|k: int| 0 <= k < part.len() && part[k] == cave;
        assert(ids[k] == cave.id);
    }
    assert forall|k: int| 0 <= k < ids.len() implies some_install_waits(
        app,
        #[trigger] ids[k],
        direct_only,
    ) by {
        assert(part.contains(part[k]));
        assert(keep(part[k]));
        let i = choose|i: int| 0 <= i < caves.len() && caves[i] == part[k];
        assert(has_waiting_update(app, caves[i], direct_only));
    }
}

// ---------------------------------------------------------------------------
// What a row says
// ---------------------------------------------------------------------------

proof fn lemma_cave_named(caves: Seq<Cave>, id: Seq<char>)
    ensures
        crate::app::downloads::cave_named(caves, id) is Some <==> exists|i: int|
            0 <= i < caves.len() && (#[trigger] caves[i]).id@ == id,
    decreases caves.len(),
{
    if caves.len() > 0 {
        let rest = caves.skip(1);
        lemma_cave_named(rest, id);
        if exists|i: int| 0 <= i < caves.len() && (#[trigger] caves[i]).id@ == id {
            let i = choose|i: int| 0 <= i < caves.len() && (#[trigger] caves[i]).id@ == id;
            if i > 0 {
                assert(rest[i - 1].id@ == id);
            }
        }
        if exists|i: int| 0 <= i < rest.len() && (#[trigger] rest[i]).id@ == id {
            let i = choose|i: int| 0 <= i < rest.len() && (#[trigger] rest[i]).id@ == id;
            assert(caves[i + 1].id@ == id);
        }
    }
}

/// A download that butler says nothing of yet is queued, or starting once butler has begun; the
/// row says first that it is an update where its install is in the library.
pub proof fn silent_downloads_are_queued_or_starting(app: App, download: Download)
    requires
        !app.queue.progress@.contains_key(download.id@),
    ensures
        ({
            let (words, fraction) = app.queue_detail(download);
            let here = exists|i: int|
                0 <= i < app.library.caves@.len() && (#[trigger] app.library.caves@[i]).id@
                    == download.cave_id@;
            &&& download.started_at is None && !here ==> words == ""@ + "Queued"@ && fraction is None
            &&& download.started_at is Some && !here ==> words == ""@ + "Starting"@ && fraction
                == Some(0u64)
            &&& download.started_at is None && here ==> words == "Update: "@ + "Queued"@
                && fraction is None
            &&& download.started_at is Some && here ==> words == "Update: "@ + "Starting"@
                && fraction == Some(0u64)
        }),
{
    lemma_cave_named(app.library.caves@, download.cave_id@);
}

/// While butler reports on a download, its row shows how far it is.
pub proof fn moving_downloads_show_their_progress(app: App, download: Download)
    requires
        app.queue.progress@.contains_key(download.id@),
        app.queue.progress@[download.id@].moving || app.queue.progress@[download.id@].stage@.len()
            > 0,
    ensures
        app.queue_row(download).progress == Some(app.queue.progress@[download.id@].fraction),
        app.install_view(download).fraction == app.queue.progress@[download.id@].fraction,
        app.install_view(download).percent == app.queue.progress@[download.id@].percent,
        app.install_view(download).bps == app.queue.progress@[download.id@].bps,
        app.install_view(download).eta_seconds == app.queue.progress@[download.id@].eta,
        app.install_view(download).moving == app.queue.progress@[download.id@].moving,
        app.install_view(download).download_id == download.id@,
{
}

/// A download that went well says what it was for, and where it says when it ended, how long
/// ago that is by the clock on the wall.
pub proof fn done_downloads_say_what_became_of_them(app: App, download: Download, when: int)
    requires
        download.error is None && download.error_message is None,
    ensures
        ({
            let detail = app.finished_row(download).detail;
            let word = match download.reason {
                DownloadReason::Install => "Installed"@,
                DownloadReason::Update => "Updated"@,
                DownloadReason::Reinstall => "Reinstalled"@,
                DownloadReason::VersionSwitch => "Switched version"@,
                DownloadReason::Unknown => "Finished"@,
            };
            &&& (download.finished_at matches Some(at) && moment(at@) == Some(when)) ==> detail == word
                + ", "@ + crate::moment::ago(app.queue.wall - when)
            &&& (download.finished_at is None || (download.finished_at matches Some(at) && moment(
                at@,
            ) is None)) ==> detail == word
            &&& !app.finished_row(download).failed
            &&& app.finished_row(download).progress is None
        }),
{
}

// ---------------------------------------------------------------------------
// What each game shows
// ---------------------------------------------------------------------------

/// A download that a game still shows: it has not ended, or it failed.
pub open spec fn still_shows(download: Download, id: i64) -> bool {
    &&& download.game matches Some(game)
    &&& game.id == id
    &&& download.finished_at is None || download.error is Some
}

/// The last listed of the downloads that a game shows.
pub open spec fn shows_last(downloads: Seq<Download>, id: i64, i: int) -> bool {
    &&& 0 <= i < downloads.len()
    &&& still_shows(downloads[i], id)
    &&& forall|j: int| i < j < downloads.len() ==> !still_shows(#[trigger] downloads[j], id)
}

/// One of the downloads is one that a game shows.
pub open spec fn some_shows(downloads: Seq<Download>, id: i64) -> bool {
    exists|i: int| 0 <= i < downloads.len() && still_shows(#[trigger] downloads[i], id)
}

proof fn lemma_queued_installs(app: App, downloads: Seq<Download>, id: i64)
    ensures
        app.queued_installs(downloads).contains_key(id) <==> some_shows(downloads, id),
    decreases downloads.len(),
{
    if downloads.len() > 0 {
        let rest = downloads.drop_last();
        let last = downloads.len() - 1;
        lemma_queued_installs(app, rest, id);
        if some_shows(downloads, id) {
            let i = choose|i: int| 0 <= i < downloads.len() && still_shows(#[trigger] downloads[i], id);
            if i < last {
                assert(still_shows(rest[i], id));
            }
        }
        if some_shows(rest, id) {
            let i = choose|i: int| 0 <= i < rest.len() && still_shows(#[trigger] rest[i], id);
            assert(still_shows(downloads[i], id));
        }
        if still_shows(downloads.last(), id) {
            assert(still_shows(downloads[last], id));
        }
    }
}

proof fn lemma_last_install(app: App, downloads: Seq<Download>, id: i64, i: int)
    requires
        shows_last(downloads, id, i),
    ensures
        app.queued_installs(downloads).contains_key(id),
        app.queued_installs(downloads)[id] == app.install_view(downloads[i]),
    decreases downloads.len(),
{
    let rest = downloads.drop_last();
    let last = downloads.len() - 1;
    if i < last {
        assert(shows_last(rest, id, i)) by {
            assert forall|j: int| i < j < rest.len() implies !still_shows(#[trigger] rest[j], id) by {
                assert(rest[j] == downloads[j]);
            }
        }
        lemma_last_install(app, rest, id, i);
        assert(!still_shows(downloads[last], id));
    }
}

/// A game shows a download exactly while one of its downloads has not ended well, or while it
/// has only been asked for; of several the last one listed counts.
pub proof fn games_show_their_downloads(app: App, id: i64, i: int)
    ensures
        app.all_installs().contains_key(id) <==> app.queue.pending_installs@.contains(id)
            || some_shows(app.queue.downloads@, id),
        shows_last(app.queue.downloads@, id, i) ==> app.all_installs()[id] == app.install_view(
            app.queue.downloads@[i],
        ),
        app.queue.pending_installs@.contains(id) && !some_shows(app.queue.downloads@, id)
            ==> app.all_installs()[id].stage == "Queueing"@ && app.all_installs()[id].error is None
            && !app.all_installs()[id].cancelling && app.all_installs()[id].fraction == 0,
{
    lemma_queued_installs(app, app.queue.downloads@, id);
    if shows_last(app.queue.downloads@, id, i) {
        lemma_last_install(app, app.queue.downloads@, id, i);
    }
}

/// What a game shows of a download: that it failed, and why, or that it is being cancelled.
pub proof fn games_show_failures_and_cancelling(app: App, download: Download)
    ensures
        app.install_view(download).cancelling <==> app.queue.discarding@.contains_key(download.id@),
        download.error_message matches Some(message) ==> app.install_view(download).error == Some(
            message@,
        ),
        download.error_message is None ==> (match download.error {
            Some(error) => app.install_view(download).error == Some(error@),
            None => app.install_view(download).error is None,
        }),
        !app.queue.progress@.contains_key(download.id@) ==> {
            &&& app.install_view(download).stage == (if download.started_at is Some {
                "Starting"@
            } else {
                "Queued"@
            })
            &&& app.install_view(download).fraction == 0 && !app.install_view(download).moving
        },
{
}

/// The row of an update is named after the game of its install, or where that has none, after
/// the update's own; it says whether the update is certain.
pub proof fn updates_are_named_after_their_game(app: App, cave_id: String, i: int)
    requires
        app.news.updates@.contains_key(cave_id@),
        0 <= i < app.library.caves@.len(),
        app.library.caves@[i].id@ == cave_id@,
        forall|k: int| 0 <= k < i ==> (#[trigger] app.library.caves@[k]).id@ != cave_id@,
    ensures
        ({
            let update = app.news.updates@[cave_id@];
            let row = app.update_row(cave_id);
            &&& row.game == (match app.library.caves@[i].game {
                Some(game) => Some(game),
                None => update.game,
            })
            &&& row.game matches Some(game) ==> row.title == game.title@
            &&& row.direct_update == update.direct
            &&& row.section == DownloadSection::Updates && !row.failed && row.progress is None
            &&& update.direct ==> row.detail == "Update available: "@ + crate::ui::update_name(update)
            &&& !update.direct && update.choices@.len() == 1 ==> row.detail
                == "Newer upload, maybe a replacement: "@ + crate::ui::update_name(update)
            &&& !update.direct && update.choices@.len() > 1 ==> row.detail == crate::text::decimal(
                update.choices@.len(),
            ) + " newer uploads, maybe replacements"@
        }),
{
    lemma_first_cave(app.library.caves@, cave_id@, i);
}

proof fn lemma_first_cave(caves: Seq<Cave>, id: Seq<char>, i: int)
    requires
        0 <= i < caves.len(),
        caves[i].id@ == id,
        forall|k: int| 0 <= k < i ==> (#[trigger] caves[k]).id@ != id,
    ensures
        crate::app::downloads::cave_named(caves, id) == Some(caves[i]),
    decreases i,
{
    if i > 0 {
        let rest = caves.skip(1);
        assert(rest[i - 1] == caves[i]);
        assert forall|k: int| 0 <= k < i - 1 implies (#[trigger] rest[k]).id@ != id by {
            assert(rest[k] == caves[k + 1]);
        }
        lemma_first_cave(rest, id, i - 1);
        assert(caves[0].id@ != id);
    }
}

/// A download that moves says its stage, how far it is, how fast it goes and how long it takes;
/// one that butler names a stage of says that and how far it is.
pub proof fn moving_downloads_say_how_fast(app: App, download: Download)
    requires
        app.queue.progress@.contains_key(download.id@),
        !exists|i: int|
            0 <= i < app.library.caves@.len() && (#[trigger] app.library.caves@[i]).id@
                == download.cave_id@,
    ensures
        ({
            let p = app.queue.progress@[download.id@];
            let words = app.queue_row(download).detail;
            &&& p.moving ==> words == ""@ + crate::text::capitalized(p.stage@) + ", "@
                + crate::text::signed_decimal(p.percent as int) + "%, "@ + crate::size::size_text(
                p.bps as int,
            ) + "/s, "@ + crate::ui::seconds_text(p.eta as int) + " left"@
            &&& !p.moving && p.stage@.len() > 0 ==> words == ""@ + crate::text::capitalized(p.stage@)
                + ", "@ + crate::text::signed_decimal(p.percent as int) + "%"@
        }),
{
    lemma_cave_named(app.library.caves@, download.cave_id@);
}

/// Clear all has something to clear exactly where a download has ended, and Update all has
/// something to queue exactly where a certain update waits and itch.io can be reached.
pub proof fn the_toolbar_knows_what_is_listed(app: App)
    ensures
        crate::app::toolbar::has_finished(app.download_list()) <==> exists|i: int|
            0 <= i < app.queue.downloads@.len() && (
            #[trigger] app.queue.downloads@[i]).finished_at is Some,
        crate::app::toolbar::has_direct_update(app.download_list()) ==> app.news.online
            && app.awaiting(app.library.caves@, false).len() > 0,
        app.news.online ==> forall|k: int|
            0 <= k < app.awaiting(app.library.caves@, false).len()
                && app.news.updates@[(#[trigger] app.awaiting(app.library.caves@, false)[k])@].direct
                ==> crate::app::toolbar::has_direct_update(app.download_list()),
{
    let downloads = app.queue.downloads@;
    let all = app.download_list();
    let updates = app.update_list().len();
    let queue = app.queue_list().len();
    assert forall|k: int| 0 <= k < all.len() implies (#[trigger] all[k]).section == (if k < updates {
        DownloadSection::Updates
    } else if k < updates + queue {
        DownloadSection::Queue
    } else {
        DownloadSection::Finished
    }) by {
        if k < updates {
            assert(all[k] == app.update_list()[k]);
        } else if k < updates + queue {
            assert(all[k] == app.queue_list()[k - updates]);
        } else {
            assert(all[k] == app.finished_list()[k - updates - queue]);
        }
    }
    if crate::app::toolbar::has_finished(all) {
        let k = choose|k: int|
            0 <= k < all.len() && (#[trigger] all[k]).section == DownloadSection::Finished;
        let order = finish_order(downloads);
        let d = order[k - updates - queue];
        assert(order.contains(d));
        downloads_are_queued_or_finished(downloads, d);
        assert(downloads.contains(d));
        let i = choose|i: int| 0 <= i < downloads.len() && downloads[i] == d;
        assert(downloads[i].finished_at is Some);
    }
    if exists|i: int| 0 <= i < downloads.len() && (#[trigger] downloads[i]).finished_at is Some {
        let i = choose|i: int|
            0 <= i < downloads.len() && (#[trigger] downloads[i]).finished_at is Some;
        let at = every_download_has_its_row(app, i);
        assert(all[at].section == DownloadSection::Finished);
    }
    if crate::app::toolbar::has_direct_update(all) {
        let k = choose|k: int|
            0 <= k < all.len() && (#[trigger] all[k]).section == DownloadSection::Updates
                && all[k].direct_update;
        assert(k < updates);
    }
    if app.news.online {
        let ids = app.awaiting(app.library.caves@, false);
        assert forall|k: int|
            0 <= k < ids.len() && app.news.updates@[(#[trigger] ids[k])@].direct implies crate::app::toolbar::has_direct_update(
            all,
        ) by {
            assert(app.update_list()[k] == app.update_row(ids[k]));
            assert(all[k] == app.update_list()[k]);
            assert(all[k].direct_update);
        }
    }
}

/// A row that is about a game which the catalog knows leads to that game's page: a download that
/// went well, and an update.
pub proof fn rows_lead_to_known_games(app: App, download: Download, cave_id: String)
    ensures
        download.error is None && download.error_message is None && (
        download.game matches Some(game) && app.library.catalog@.contains_key(game.id))
            ==> app.finished_row(download).buttons.len() == 1,
        download.error is None && download.error_message is None && !(
        download.game matches Some(game) && app.library.catalog@.contains_key(game.id))
            ==> app.finished_row(download).buttons.len() == 0,
        (app.update_row(cave_id).game matches Some(game) && app.library.catalog@.contains_key(
            game.id,
        )) ==> app.update_row(cave_id).buttons.len() == 2,
        !(app.update_row(cave_id).game matches Some(game) && app.library.catalog@.contains_key(
            game.id,
        )) ==> app.update_row(cave_id).buttons.len() == 1,
{
}

/// A game shows the stage that butler names, with a capital.
pub proof fn games_show_the_stage_of_their_download(app: App, download: Download)
    requires
        app.queue.progress@.contains_key(download.id@),
    ensures
        app.queue.progress@[download.id@].stage@.len() > 0 ==> app.install_view(download).stage
            == crate::text::capitalized(app.queue.progress@[download.id@].stage@),
        app.queue.progress@[download.id@].stage@.len() == 0 ==> app.install_view(download).stage == (
        if download.started_at is Some {
            "Starting"@
        } else {
            "Queued"@
        }),
{
}

} // verus!
