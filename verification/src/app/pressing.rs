//! What pressing a button comes to, whatever the interface shows.
use vstd::prelude::*;
use vstd::string::*;
use crate::app::requests::download_of;
use crate::app::run::applied;
use crate::app::state::App;
use crate::backend::Command;
use crate::model::{same_update, Action, Direction, Download, Game, Page, Tab};

verus! {

/// Nothing covers the page: no question, no menu drawer, and the program is not quitting.
pub open spec fn is_clear(app: App) -> bool {
    app.screen.quitting is None && app.screen.prompt is None && app.screen.menu is None
}

/// One command more was sent.
pub open spec fn sends(pre: App, command: Command, post: App) -> bool {
    post.commands@ == pre.commands@.push(command)
}

// ---------------------------------------------------------------------------
// The Downloads tab
// ---------------------------------------------------------------------------

proof fn lemma_first_download(downloads: Seq<Download>, i: int)
    requires
        0 <= i < downloads.len(),
        downloads[i].game is Some,
        forall|k: int|
            0 <= k < i ==> !((#[trigger] downloads[k]).game matches Some(game) && game.id
                == downloads[i].game->0.id),
    ensures
        download_of(downloads, downloads[i].game->0.id) == Some(downloads[i]),
    decreases i,
{
    if i > 0 {
        let rest = downloads.skip(1);
        assert(rest[i - 1] == downloads[i]);
        assert forall|k: int| 0 <= k < i - 1 implies !((#[trigger] rest[k]).game matches Some(game)
            && game.id == rest[i - 1].game->0.id) by {
            assert(rest[k] == downloads[k + 1]);
        }
        lemma_first_download(rest, i - 1);
        assert(!(downloads[0].game matches Some(game) && game.id == downloads[i].game->0.id));
    }
}

/// In the row of a failed download, pressing Retry has that download tried again, and pressing
/// Dismiss has it thrown away without a question. The row offers both and nothing else, and
/// says what went wrong.
pub proof fn failed_downloads_are_retried_or_dismissed(pre: App, i: int, b: int, now: u64, post: App)
    requires
        is_clear(pre),
        0 <= i < pre.queue.downloads@.len(),
        pre.queue.downloads@[i].game is Some,
        pre.queue.downloads@[i].finished_at is Some,
        pre.queue.downloads@[i].error is Some || pre.queue.downloads@[i].error_message is Some,
        forall|k: int|
            0 <= k < i ==> !((#[trigger] pre.queue.downloads@[k]).game matches Some(game) && game.id
                == pre.queue.downloads@[i].game->0.id),
        0 <= b < pre.finished_row(pre.queue.downloads@[i]).buttons.len(),
        applied(pre, pre.finished_row(pre.queue.downloads@[i]).buttons[b].1, now, post),
    ensures
        ({
            let download = pre.queue.downloads@[i];
            let row = pre.finished_row(download);
            &&& row.failed
            &&& row.buttons.len() == 2
            &&& row.buttons[0].0 == "Retry"@ && row.buttons[1].0 == "Dismiss"@
            &&& row.buttons[b].0 == "Retry"@ ==> sends(
                pre,
                Command::Retry { download_id: download.id },
                post,
            ) && post.queue == pre.queue
            &&& row.buttons[b].0 == "Dismiss"@ ==> sends(
                pre,
                Command::Discard { download_id: download.id, confirm: None },
                post,
            ) && post.queue.discarding@.contains_key(download.id@)
            &&& download.error_message matches Some(message) ==> row.detail == "Failed, "@ + message@
            &&& download.error_message is None ==> row.detail == "Failed, "@ + download.error->0@
        }),
{
    reveal_strlit("Retry");
    reveal_strlit("Dismiss");
    assert("Retry"@.len() != "Dismiss"@.len());
    lemma_first_download(pre.queue.downloads@, i);
}

/// In the row of a download that is queued or under way, pressing Cancel asks to throw that
/// download away, by its game's name, once the user has agreed.
pub proof fn queued_downloads_are_cancelled(pre: App, i: int, b: int, now: u64, post: App)
    requires
        is_clear(pre),
        0 <= i < pre.queue.downloads@.len(),
        pre.queue.downloads@[i].game is Some,
        pre.queue.downloads@[i].finished_at is None,
        forall|k: int|
            0 <= k < i ==> !((#[trigger] pre.queue.downloads@[k]).game matches Some(game) && game.id
                == pre.queue.downloads@[i].game->0.id),
        0 <= b < pre.queue_row(pre.queue.downloads@[i]).buttons.len(),
        applied(pre, pre.queue_row(pre.queue.downloads@[i]).buttons[b].1, now, post),
    ensures
        ({
            let download = pre.queue.downloads@[i];
            let row = pre.queue_row(download);
            &&& !row.failed
            &&& row.buttons.len() == 1
            &&& pre.queue.discarding@.contains_key(download.id@) ==> row.buttons[0].0
                == "Cancelling"@
            &&& !pre.queue.discarding@.contains_key(download.id@) ==> row.buttons[0].0 == "Cancel"@
            &&& sends(
                pre,
                Command::Discard {
                    download_id: download.id,
                    confirm: Some(download.game->0.title),
                },
                post,
            )
            &&& post.queue == pre.queue
        }),
{
    lemma_first_download(pre.queue.downloads@, i);
}

/// In the row of an update that waits, the first button queues that update and no other; where
/// the catalog knows the game a second one opens its page.
pub proof fn waiting_updates_are_queued(pre: App, cave_id: String, b: int, now: u64, post: App)
    requires
        is_clear(pre),
        pre.news.updates@.contains_key(cave_id@),
        0 <= b < pre.update_row(cave_id).buttons.len(),
        applied(pre, pre.update_row(cave_id).buttons[b].1, now, post),
    ensures
        b == 0 ==> {
            &&& post.commands@.len() == pre.commands@.len() + 1
            &&& post.commands@.drop_last() == pre.commands@
            &&& post.commands@.last() matches Command::Update { update }
            &&& update.cave_id == pre.news.updates@[cave_id@].cave_id
            &&& update.choices@ == pre.news.updates@[cave_id@].choices@
            &&& update.direct == pre.news.updates@[cave_id@].direct
        },
        b > 0 ==> {
            &&& b == 1
            &&& pre.update_row(cave_id).buttons[b].0 == "Open"@
            &&& pre.update_row(cave_id).game matches Some(game)
            &&& post.screen.page == (Page::Game { id: game.id, button: 0 })
            &&& pre.library.catalog@.contains_key(game.id)
            &&& post.commands@ == pre.commands@
        },
        pre.news.updates@[cave_id@].direct ==> pre.update_row(cave_id).buttons[0].0 == "Update"@,
        !pre.news.updates@[cave_id@].direct ==> pre.update_row(cave_id).buttons[0].0
            == "Newer upload"@ || pre.update_row(cave_id).buttons[0].0 == "Newer uploads"@,
{
}

/// The row of a download that went well offers nothing but its game's page, where the catalog
/// knows the game.
pub proof fn done_downloads_open_their_game(pre: App, download: Download, b: int, now: u64, post: App)
    requires
        is_clear(pre),
        download.finished_at is Some,
        download.error is None && download.error_message is None,
        0 <= b < pre.finished_row(download).buttons.len(),
        applied(pre, pre.finished_row(download).buttons[b].1, now, post),
    ensures
        b == 0 && pre.finished_row(download).buttons.len() == 1,
        pre.finished_row(download).buttons[0].0 == "Open"@,
        download.game matches Some(game) && post.screen.page == (Page::Game {
            id: game.id,
            button: 0,
        }) && pre.library.catalog@.contains_key(game.id),
        post.commands@ == pre.commands@,
        !pre.finished_row(download).failed,
{
}

/// Pressing on the Downloads list asks for what the button in focus does.
pub proof fn pressing_a_download_button_asks_for_it(pre: App, row: int, button: int, now: u64, post: App)
    requires
        is_clear(pre),
        pre.screen.page == Page::Library,
        pre.screen.tab == Tab::Downloads,
        pre.screen.toolbar_focus.downloads is None,
        0 <= row < pre.download_list().len() <= usize::MAX,
        0 <= button < pre.download_list()[row].buttons.len() <= usize::MAX,
        pre.screen.downloads_row == (row as usize, button as usize),
        applied(pre, Action::Activate, now, post),
    ensures
        post.actions@ == pre.actions@.push(pre.download_list()[row].buttons[button].1),
        post == (App { actions: post.actions, ..pre }),
{
}

// ---------------------------------------------------------------------------
// A game's page
// ---------------------------------------------------------------------------

/// Each button of a game's page does what it says. Play launches the first install; Uninstall
/// asks to remove it; Update queues the update that waits for it; Install asks for the game
/// and shows it as queued.
pub proof fn page_buttons_do_what_they_say(pre: App, id: i64, b: int, now: u64, post: App)
    requires
        is_clear(pre),
        pre.library.catalog@.contains_key(id),
        pre.library.catalog@[id].id == id,
        0 <= b < pre.page_buttons(id).len(),
        applied(pre, pre.page_buttons(id)[b].1, now, post),
    ensures
        ({
            let label = pre.page_buttons(id)[b].0;
            &&& label == "Play"@ ==> {
                &&& pre.cave_of(id) matches Some(cave)
                &&& !pre.play.running@.contains_key(cave.id@) ==> sends(
                    pre,
                    Command::Launch { cave_id: cave.id },
                    post,
                ) && post.play.running@.contains_key(cave.id@)
                    && !post.play.launch_failures@.contains_key(cave.id@)
            }
            &&& label == "Install"@ ==> {
                &&& pre.cave_of(id) is None
                &&& pre.news.online
                &&& sends(pre, Command::Install { game: pre.library.catalog@[id] }, post)
                &&& post.queue.pending_installs@.contains(id)
                &&& !post.queue.install_failures@.contains_key(id)
            }
            &&& label == "Uninstall"@ ==> {
                &&& pre.cave_of(id) matches Some(cave)
                &&& post.commands@.len() == pre.commands@.len() + 1
                &&& post.commands@.last() matches Command::Uninstall { cave_id, .. }
                &&& cave_id == cave.id
            }
            &&& label == "Update"@ ==> {
                &&& pre.cave_of(id) matches Some(cave)
                &&& pre.news.online
                &&& pre.news.updates@.contains_key(cave.id@) ==> (post.commands@.last() matches Command::Update {
                    update,
                } && post.commands@.len() == pre.commands@.len() + 1 && same_update(
                    update,
                    pre.news.updates@[cave.id@],
                ))
            }
            &&& label == "Retry"@ ==> {
                &&& pre.queue.installs@[id].error is Some
                &&& download_of(pre.queue.downloads@, id) matches Some(download) ==> sends(
                    pre,
                    Command::Retry { download_id: download.id },
                    post,
                )
            }
            &&& label == "Dismiss"@ ==> {
                &&& pre.queue.installs@[id].error is Some
                &&& download_of(pre.queue.downloads@, id) matches Some(download) ==> (
                post.commands@.last() matches Command::Discard { download_id, .. } && download_id
                    == download.id && post.commands@.len() == pre.commands@.len() + 1)
            }
            &&& label == "Cancel"@ ==> {
                &&& pre.queue.installs@[id].error is None
                &&& download_of(pre.queue.downloads@, id) matches Some(download) ==> (
                post.commands@.last() matches Command::Discard { download_id, .. } && download_id
                    == download.id && post.commands@.len() == pre.commands@.len() + 1)
            }
            &&& label == "Play"@ || label == "Install"@ || label == "Uninstall"@ || label
                == "Update"@ || label == "Retry"@ || label == "Dismiss"@ || label == "Cancel"@
        }),
{
    lemma_labels_differ();
}

proof fn lemma_labels_differ()
    ensures
        "Play"@ != "Install"@ && "Play"@ != "Uninstall"@ && "Play"@ != "Update"@ && "Play"@
            != "Retry"@ && "Play"@ != "Dismiss"@ && "Play"@ != "Cancel"@,
        "Install"@ != "Uninstall"@ && "Install"@ != "Update"@ && "Install"@ != "Retry"@
            && "Install"@ != "Dismiss"@ && "Install"@ != "Cancel"@,
        "Uninstall"@ != "Update"@ && "Uninstall"@ != "Retry"@ && "Uninstall"@ != "Dismiss"@
            && "Uninstall"@ != "Cancel"@,
        "Update"@ != "Retry"@ && "Update"@ != "Dismiss"@ && "Update"@ != "Cancel"@,
        "Retry"@ != "Dismiss"@ && "Retry"@ != "Cancel"@ && "Dismiss"@ != "Cancel"@,
{
    reveal_strlit("Play");
    reveal_strlit("Install");
    reveal_strlit("Uninstall");
    reveal_strlit("Update");
    reveal_strlit("Retry");
    reveal_strlit("Dismiss");
    reveal_strlit("Cancel");
    assert("Play"@[0] == 'P' && "Install"@[0] == 'I' && "Retry"@[0] == 'R' && "Dismiss"@[0] == 'D');
    assert("Uninstall"@[0] == 'U' && "Uninstall"@.len() == 9 && "Update"@.len() == 6);
    assert("Cancel"@[0] == 'C' && "Update"@[0] == 'U');
}

/// Pressing on a game's page asks for what the button in focus does.
pub proof fn pressing_a_page_button_asks_for_it(pre: App, id: i64, button: usize, now: u64, post: App)
    requires
        is_clear(pre),
        pre.library.catalog@.contains_key(id),
        pre.library.catalog@[id].id == id,
        pre.screen.page == (Page::Game { id, button }),
        button < pre.page_buttons(id).len(),
        applied(pre, Action::Activate, now, post),
    ensures
        post.actions@ == pre.actions@.push(pre.page_buttons(id)[button as int].1),
        post == (App { actions: post.actions, ..pre }),
{
}

/// On a game's page a step to the right goes to the next button and a step to the left to the
/// one before, as far as there are buttons.
pub proof fn page_steps_go_to_the_next_button(
    pre: App,
    id: i64,
    button: usize,
    direction: Direction,
    now: u64,
    post: App,
)
    requires
        is_clear(pre),
        pre.library.catalog@.contains_key(id),
        pre.library.catalog@[id].id == id,
        pre.screen.page == (Page::Game { id, button }),
        button < pre.page_buttons(id).len(),
        applied(pre, Action::MoveFocus(direction), now, post),
    ensures
        post.screen.page matches Page::Game { id: same, button: next } && {
            &&& same == id
            &&& direction == Direction::Right && button + 1 < pre.page_buttons(id).len() ==> next
                == button + 1
            &&& direction == Direction::Right && button + 1 == pre.page_buttons(id).len() ==> next
                == button
            &&& direction == Direction::Left && button > 0 ==> next == button - 1
            &&& direction == Direction::Left && button == 0 ==> next == 0
            &&& direction != Direction::Left && direction != Direction::Right ==> next == button
        },
        post.commands@ == pre.commands@ && post.library == pre.library,
{
    crate::ui::a_page_offers_something_unless_busy(
        id,
        pre.cave_of(id),
        pre.install_of(id),
        pre.runs(id),
        pre.update_of(id) is Some,
        pre.news.online,
    );
}

/// The install that a game's page plays, updates and removes is the first in the library.
pub proof fn pages_act_on_the_first_install(app: App, id: i64, i: int)
    requires
        0 <= i < app.library.caves@.len(),
        app.library.caves@[i].game matches Some(game) && game.id == id,
        forall|k: int|
            0 <= k < i ==> !((#[trigger] app.library.caves@[k]).game matches Some(game) && game.id
                == id),
    ensures
        app.cave_of(id) == Some(app.library.caves@[i]),
{
    lemma_first_cave(app.library.caves@, id, i);
}

proof fn lemma_first_cave(caves: Seq<crate::model::Cave>, id: i64, i: int)
    requires
        0 <= i < caves.len(),
        caves[i].game matches Some(game) && game.id == id,
        forall|k: int|
            0 <= k < i ==> !((#[trigger] caves[k]).game matches Some(game) && game.id == id),
    ensures
        crate::app::state::caves_of(caves, id).len() > 0,
        crate::app::state::caves_of(caves, id)[0] == caves[i],
    decreases caves.len(),
{
    let rest = caves.drop_last();
    if i < rest.len() {
        assert forall|k: int| 0 <= k < i implies !((#[trigger] rest[k]).game matches Some(game)
            && game.id == id) by {
            assert(rest[k] == caves[k]);
        }
        lemma_first_cave(rest, id, i);
    } else {
        assert forall|k: int| 0 <= k < rest.len() implies !((#[trigger] rest[k]).game matches Some(
            game,
        ) && game.id == id) by {
            assert(rest[k] == caves[k]);
        }
        lemma_no_cave(rest, id);
    }
}

proof fn lemma_no_cave(caves: Seq<crate::model::Cave>, id: i64)
    requires
        forall|k: int|
            0 <= k < caves.len() ==> !((#[trigger] caves[k]).game matches Some(game) && game.id
                == id),
    ensures
        crate::app::state::caves_of(caves, id).len() == 0,
    decreases caves.len(),
{
    if caves.len() > 0 {
        let rest = caves.drop_last();
        assert forall|k: int| 0 <= k < rest.len() implies !((#[trigger] rest[k]).game matches Some(
            game,
        ) && game.id == id) by {
            assert(rest[k] == caves[k]);
        }
        lemma_no_cave(rest, id);
        assert(!(caves[caves.len() - 1].game matches Some(game) && game.id == id));
    }
}

/// A game without any install has none on its page.
pub proof fn pages_without_installs_offer_to_install(app: App, id: i64)
    requires
        forall|k: int|
            0 <= k < app.library.caves@.len() ==> !((#[trigger] app.library.caves@[k]).game matches Some(
                game,
            ) && game.id == id),
        !app.queue.installs@.contains_key(id),
        app.news.online,
    ensures
        app.cave_of(id) is None,
        app.page_buttons(id) == seq![("Install"@, Action::Install { game_id: id })],
{
    lemma_no_cave(app.library.caves@, id);
}

} // verus!
