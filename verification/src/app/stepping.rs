//! Where the focus goes and what a press reaches, whatever the interface shows.
use vstd::prelude::*;
use vstd::string::*;
use crate::app::pressing::is_clear;
use crate::app::run::applied;
use crate::app::state::{loaded, App, WindowRequest};
use crate::app::toolbar::{has_direct_update, has_finished, ControlView};
use crate::backend::Command;
use crate::model::{Action, Direction, Page, Tab};
use crate::rows::RowsView;

verus! {

// ---------------------------------------------------------------------------
// Questions
// ---------------------------------------------------------------------------

/// In a question the focus steps from one choice to the next along the choices: up and down
/// where they are stacked, left and right where they stand side by side, as far as there are
/// choices. No other step moves it but Home and End.
pub proof fn question_steps_go_to_the_next_choice(
    pre: App,
    direction: Direction,
    now: u64,
    post: App,
)
    requires
        pre.screen.quitting is None,
        pre.screen.prompt is Some,
        pre.screen.prompt->0.focus < pre.screen.prompt->0.choices@.len(),
        applied(pre, Action::MoveFocus(direction), now, post),
    ensures
        post.screen.prompt is Some,
        ({
            let before = pre.screen.prompt->0;
            let after = post.screen.prompt->0;
            let on = if before.stacked {
                direction == Direction::Down
            } else {
                direction == Direction::Right
            };
            let back = if before.stacked {
                direction == Direction::Up
            } else {
                direction == Direction::Left
            };
            &&& after.id == before.id && after.choices == before.choices
            &&& on && before.focus + 1 < before.choices@.len() ==> after.focus == before.focus + 1
            &&& on && before.focus + 1 == before.choices@.len() ==> after.focus == before.focus
            &&& back && before.focus > 0 ==> after.focus == before.focus - 1
            &&& back && before.focus == 0 ==> after.focus == 0
            &&& direction == Direction::Home ==> after.focus == 0
            &&& direction == Direction::End ==> after.focus + 1 == before.choices@.len()
            &&& !on && !back && direction != Direction::Home && direction != Direction::End
                ==> after.focus == before.focus
        }),
        post.commands@ == pre.commands@,
{
    assert(pre.screen.prompt->0.choices.len() <= usize::MAX);
}

/// Confirming a question gives the choice in focus as its answer, and going back gives none;
/// pointing at a choice puts the focus on it.
pub proof fn questions_are_answered_by_the_choice_in_focus(pre: App, index: usize, now: u64, post: App)
    requires
        pre.screen.quitting is None,
        pre.screen.prompt is Some,
    ensures
        applied(pre, Action::Activate, now, post) ==> post.actions@ == pre.actions@.push(
            Action::Answer {
                prompt: pre.screen.prompt->0.id,
                choice: Some(pre.screen.prompt->0.focus),
            },
        ) && post.screen == pre.screen,
        applied(pre, Action::Back, now, post) ==> post.actions@ == pre.actions@.push(
            Action::Answer { prompt: pre.screen.prompt->0.id, choice: None },
        ) && post.screen == pre.screen,
        applied(pre, Action::PromptFocus(index), now, post) && index
            < pre.screen.prompt->0.choices@.len() ==> post.screen.prompt is Some
            && post.screen.prompt->0.focus == index && post.screen.prompt->0.id
            == pre.screen.prompt->0.id,
        applied(pre, Action::PromptFocus(index), now, post) && index
            >= pre.screen.prompt->0.choices@.len() ==> post.screen.prompt == pre.screen.prompt,
{
}

// ---------------------------------------------------------------------------
// The menu drawer
// ---------------------------------------------------------------------------

/// The menu key opens the drawer with its first item in focus and brings the window to the
/// front. In the drawer up and down go from item to item, and both Back and the menu key
/// close it.
pub proof fn menu_steps_go_to_the_next_item(pre: App, focus: usize, now: u64, post: App)
    requires
        pre.screen.quitting is None,
        pre.screen.prompt is None,
    ensures
        pre.screen.menu is None && applied(pre, Action::Menu, now, post) ==> {
            &&& post.screen.menu == Some(0usize)
            &&& post.window@ == pre.window@.push(WindowRequest::Restore).push(WindowRequest::Focus)
        },
        pre.screen.menu == Some(focus) && focus < 2 ==> {
            &&& applied(pre, Action::MoveFocus(Direction::Down), now, post) ==> post.screen.menu
                == Some(1usize)
            &&& applied(pre, Action::MoveFocus(Direction::Up), now, post) ==> post.screen.menu
                == Some(0usize)
            &&& applied(pre, Action::Back, now, post) ==> post.screen.menu is None && post.actions@
                == pre.actions@
            &&& applied(pre, Action::Menu, now, post) ==> post.screen.menu is None && post.window@
                == pre.window@
            &&& applied(pre, Action::MenuFocus(0), now, post) ==> post.screen.menu == Some(0usize)
            &&& applied(pre, Action::MenuFocus(1), now, post) ==> post.screen.menu == Some(1usize)
            &&& applied(pre, Action::MenuFocus(2), now, post) ==> post.screen.menu == Some(focus)
        },
{
}

/// The first item of the menu refreshes the library, as long as itch.io can be reached and no
/// refresh runs, and keeps the drawer open; the second quits.
pub proof fn menu_items_do_what_they_say(pre: App, focus: usize, now: u64, mid: App, post: App)
    requires
        pre.screen.quitting is None,
        pre.screen.prompt is None,
        pre.screen.menu == Some(focus),
        pre.actions@.len() == 0,
        applied(pre, Action::Activate, now, mid),
        mid.actions@.len() == 1 && applied(mid, mid.actions@[0], now, post),
    ensures
        focus < 2,
        focus == 0 && !pre.news.refreshing ==> pre.menu_list()[0].label == "Refresh library"@,
        focus == 0 && pre.news.online && !pre.news.refreshing ==> post.commands@
            == pre.commands@.push(Command::RefreshLibrary) && post.news.refreshing
            && post.screen.menu == Some(focus) && post.screen.quitting is None,
        focus == 0 && (!pre.news.online || pre.news.refreshing) ==> post.commands@ == pre.commands@
            && post.screen.quitting is None,
        focus == 1 ==> pre.menu_list()[1].label == "Quit"@ && post.screen.quitting == Some(3u32)
            && post.commands@ == pre.commands@,
{
}

// ---------------------------------------------------------------------------
// The toolbar
// ---------------------------------------------------------------------------

/// Along the toolbar the focus steps from stop to stop; down leads to the first row of the
/// list, where anything is listed.
pub proof fn toolbar_steps_go_to_the_next_stop(
    pre: App,
    index: usize,
    direction: Direction,
    now: u64,
    post: App,
)
    requires
        is_clear(pre),
        pre.screen.page == Page::Library,
        pre.screen.toolbar_focus.on(pre.screen.tab) == Some(index),
        index < pre.stops(now).len(),
        applied(pre, Action::MoveFocus(direction), now, post),
    ensures
        ({
            let count = pre.stops(now).len();
            let after = post.screen.toolbar_focus.on(pre.screen.tab);
            &&& direction == Direction::Right && index + 1 < count ==> after == Some(
                (index + 1) as usize,
            )
            &&& direction == Direction::Right && index + 1 == count ==> after == Some(index)
            &&& direction == Direction::Left && index > 0 ==> after == Some((index - 1) as usize)
            &&& direction == Direction::Left && index == 0 ==> after == Some(0usize)
            &&& direction == Direction::Home ==> after == Some(0usize)
            &&& direction == Direction::End ==> after == Some((count - 1) as usize)
            &&& direction == Direction::Up ==> after == Some(index)
            &&& direction == Direction::Down && pre.nothing_listed() ==> after == Some(index)
            &&& direction == Direction::Down && !pre.nothing_listed() ==> after is None
            &&& direction == Direction::Down && !pre.nothing_listed() && pre.screen.tab
                == Tab::Library ==> post.library.rows@.row == 0 && post.library.rows@.follow
            &&& direction == Direction::Down && !pre.nothing_listed() && pre.screen.tab
                == Tab::Collections ==> post.shelves.collection_rows@.row == 0
            &&& direction == Direction::Down && !pre.nothing_listed() && pre.screen.tab
                == Tab::Downloads ==> post.screen.downloads_row == (0usize, 0usize)
        }),
        post.screen.tab == pre.screen.tab && post.screen.page == pre.screen.page,
        post.commands@ == pre.commands@,
{
    lemma_few_stops(pre, now);
}

proof fn lemma_few_stops(app: App, now: u64)
    ensures
        1 <= app.stops(now).len() <= 3,
{
}

/// A step up from the first row of tiles leads to the first stop of the toolbar; every other
/// step moves among the tiles of the tab and takes the focus nowhere else.
pub proof fn tiles_lead_up_to_the_toolbar(pre: App, direction: Direction, now: u64, post: App)
    requires
        is_clear(pre),
        pre.screen.page == Page::Library,
        pre.screen.tab == Tab::Library,
        pre.screen.toolbar_focus.library is None,
        !pre.nothing_listed(),
        applied(pre, Action::MoveFocus(direction), now, post),
    ensures
        direction == Direction::Up && pre.library.rows@.row == 0
            ==> post.screen.toolbar_focus.library == Some(0usize) && post.library.rows
            == pre.library.rows,
        !(direction == Direction::Up && pre.library.rows@.row == 0) ==> {
            &&& post.screen.toolbar_focus.library is None
            &&& post.library.rows@ == pre.library.rows@.moved(direction)
        },
        post.shelves == pre.shelves && post.commands@ == pre.commands@,
{
    lemma_few_stops(pre, now);
}

/// The same on the Collections tab.
pub proof fn collection_tiles_lead_up_to_the_toolbar(
    pre: App,
    direction: Direction,
    now: u64,
    post: App,
)
    requires
        is_clear(pre),
        pre.screen.page == Page::Library,
        pre.screen.tab == Tab::Collections,
        pre.screen.toolbar_focus.collections is None,
        !pre.nothing_listed(),
        applied(pre, Action::MoveFocus(direction), now, post),
    ensures
        direction == Direction::Up && pre.shelves.collection_rows@.row == 0
            ==> post.screen.toolbar_focus.collections == Some(0usize) && post.shelves == pre.shelves,
        !(direction == Direction::Up && pre.shelves.collection_rows@.row == 0) ==> {
            &&& post.screen.toolbar_focus.collections is None
            &&& post.shelves.collection_rows@ == pre.shelves.collection_rows@.moved(direction)
        },
        post.library == pre.library && post.commands@ == pre.commands@,
{
    lemma_few_stops(pre, now);
}

/// In the list of downloads up and down go from row to row, and left and right from button to
/// button of a row; up from the first row leads to the toolbar.
pub proof fn download_steps_go_to_the_next_row(
    pre: App,
    row: usize,
    button: usize,
    direction: Direction,
    now: u64,
    post: App,
)
    requires
        is_clear(pre),
        pre.screen.page == Page::Library,
        pre.screen.tab == Tab::Downloads,
        pre.screen.toolbar_focus.downloads is None,
        pre.screen.downloads_row == (row, button),
        row < pre.download_list().len() <= usize::MAX,
        button < pre.download_list()[row as int].buttons.len() <= usize::MAX,
        forall|k: int|
            0 <= k < pre.download_list().len() ==> (
            #[trigger] pre.download_list()[k]).buttons.len() <= usize::MAX,
        applied(pre, Action::MoveFocus(direction), now, post),
    ensures
        ({
            let rows = pre.download_list();
            let after = post.screen.downloads_row;
            &&& direction == Direction::Up && row == 0 ==> post.screen.toolbar_focus.downloads
                == Some(0usize) && after == (row, button)
            &&& direction == Direction::Up && row > 0 ==> after.0 == row - 1
            &&& direction == Direction::Down && row + 1 < rows.len() ==> after.0 == row + 1
            &&& direction == Direction::Down && row + 1 == rows.len() ==> after.0 == row
            &&& direction == Direction::Home ==> after.0 == 0
            &&& direction == Direction::End ==> after.0 + 1 == rows.len()
            &&& direction == Direction::Right ==> after.0 == row
            &&& direction == Direction::Left ==> after.0 == row
            &&& direction == Direction::Right && button + 1 < rows[row as int].buttons.len()
                ==> after.1 == button + 1
            &&& direction == Direction::Right && button + 1 == rows[row as int].buttons.len()
                ==> after.1 == button
            &&& direction == Direction::Left && button > 0 ==> after.1 == button - 1
            &&& direction == Direction::Left && button == 0 ==> after.1 == 0
            &&& direction != Direction::Left && direction != Direction::Right && after.0
                < rows.len() && button < rows[after.0 as int].buttons.len() ==> after.1 == button
            &&& !(direction == Direction::Up && row == 0)
                ==> post.screen.toolbar_focus.downloads is None
        }),
        post.commands@ == pre.commands@ && post.library == pre.library,
{
    lemma_few_stops(pre, now);
}

/// A stop of the toolbar, once pressed, does what it says: the filter for what runs here goes
/// on or off, All and Installed choose which games of the collections are shown.
pub proof fn filter_stops_do_what_they_say(
    pre: App,
    index: usize,
    now: u64,
    mid: App,
    post: App,
)
    requires
        is_clear(pre),
        pre.screen.page == Page::Library,
        pre.screen.tab != Tab::Downloads,
        pre.screen.toolbar_focus.on(pre.screen.tab) == Some(index),
        index < pre.stops(now).len(),
        pre.actions@.len() == 0,
        applied(pre, Action::Activate, now, mid),
        mid.actions@.len() == 1 && applied(mid, mid.actions@[0], now, post),
    ensures
        ({
            let label = pre.stops(now)[index as int].label;
            &&& label == "Playable here"@ ==> post.library.playable_only
                == !pre.library.playable_only && post.shelves.collections_installed_only
                == pre.shelves.collections_installed_only
            &&& label == "All"@ ==> !post.shelves.collections_installed_only
                && post.library.playable_only == pre.library.playable_only
            &&& label == "Installed"@ ==> post.shelves.collections_installed_only
                && post.library.playable_only == pre.library.playable_only
            &&& label == "Playable here"@ || label == "All"@ || label == "Installed"@
            &&& pre.screen.tab == Tab::Library ==> label == "Playable here"@
        }),
{
    reveal_strlit("Playable here");
    reveal_strlit("All");
    reveal_strlit("Installed");
    assert("All"@.len() == 3 && "Installed"@.len() == 9 && "Playable here"@.len() == 13);
    lemma_few_stops(pre, now);
}

/// The stops of the Downloads tab: the first checks for updates, once at a time and where
/// itch.io can be reached; Update all queues every certain update that waits; Clear all drops
/// what has ended.
pub proof fn download_stops_do_what_they_say(
    pre: App,
    index: usize,
    now: u64,
    mid: App,
    post: App,
)
    requires
        is_clear(pre),
        pre.screen.page == Page::Library,
        pre.screen.tab == Tab::Downloads,
        pre.screen.toolbar_focus.downloads == Some(index),
        index < pre.stops(now).len(),
        pre.actions@.len() == 0,
        applied(pre, Action::Activate, now, mid),
        mid.actions@.len() == 1 && applied(mid, mid.actions@[0], now, post),
    ensures
        index == 0 && pre.news.online ==> post.commands@ == pre.commands@.push(
            Command::CheckUpdates,
        ) && post.news.checking_updates && post.news.up_to_date_at is None,
        index == 0 && !pre.news.online ==> post.commands@ == pre.commands@,
        index == 0 ==> !pre.news.checking_updates,
        pre.stops(now)[index as int].label == "Clear all"@ ==> post.commands@ == pre.commands@.push(
            Command::ClearFinished,
        ),
        pre.stops(now)[index as int].label == "Update all"@ ==> post.commands@.len()
            == pre.commands@.len() + pre.awaiting(pre.library.caves@, true).len() && forall|k: int|
            pre.commands@.len() <= k < post.commands@.len() ==> (#[trigger] post.commands@[k]) is Update,
        index > 0 ==> pre.stops(now)[index as int].label == "Update all"@ || pre.stops(
            now,
        )[index as int].label == "Clear all"@,
{
    reveal_strlit("Update all");
    reveal_strlit("Clear all");
    reveal_strlit("Checking…");
    reveal_strlit("Up to date");
    reveal_strlit("Check for updates");
    assert("Update all"@.len() == 10 && "Clear all"@.len() == 9 && "Checking…"@.len() == 9);
    assert("Update all"@[2] == 'd' && "Up to date"@[2] == ' ');
    assert("Clear all"@[1] == 'l' && "Checking…"@[1] == 'h');
    assert("Check for updates"@.len() == 17);
    lemma_few_stops(pre, now);
    if pre.stops(now)[index as int].label == "Update all"@ {
        lemma_same_awaiting(pre, mid, pre.library.caves@);
        assert forall|k: int| pre.commands@.len() <= k < post.commands@.len() implies (
        #[trigger] post.commands@[k]) is Update by {
            assert(post.commands@[pre.commands@.len() + (k - pre.commands@.len())] is Update);
        }
    }
}

proof fn lemma_same_awaiting(a: App, b: App, caves: Seq<crate::model::Cave>)
    requires
        a.news == b.news,
        a.queue == b.queue,
    ensures
        a.awaiting(caves, true) == b.awaiting(caves, true),
    decreases caves.len(),
{
    if caves.len() > 0 {
        lemma_same_awaiting(a, b, caves.drop_last());
    }
}

/// The Downloads tab offers Update all exactly while a certain update is listed, and Clear all
/// exactly while something that has ended is.
pub proof fn stops_are_offered_when_they_have_work(app: App, now: u64)
    requires
        app.screen.tab == Tab::Downloads,
    ensures
        (exists|k: int|
            0 <= k < app.stops(now).len() && (#[trigger] app.stops(now)[k]).action
                == Action::UpdateAll) <==> has_direct_update(app.download_list()),
        (exists|k: int|
            0 <= k < app.stops(now).len() && (#[trigger] app.stops(now)[k]).action
                == Action::ClearFinished) <==> has_finished(app.download_list()),
        app.stops(now)[0].action == Action::CheckUpdates,
        app.stops(now)[0].busy == app.news.checking_updates,
{
    let stops = app.stops(now);
    if has_direct_update(app.download_list()) {
        assert(stops[1].action == Action::UpdateAll);
    }
    if has_finished(app.download_list()) {
        assert(stops[stops.len() - 1].action == Action::ClearFinished);
    }
}

/// The button that checks for updates says so while a check runs, and for four seconds after
/// one that found nothing that all is up to date.
pub proof fn the_check_button_says_how_it_went(app: App, now: u64)
    ensures
        app.news.checking_updates ==> app.check_label(now) == "Checking…"@,
        !app.news.checking_updates && (app.news.up_to_date_at matches Some(at) && at <= now && now
            - at < 4_000_000_000) ==> app.check_label(now) == "Up to date"@,
        !app.news.checking_updates && (app.news.up_to_date_at matches Some(at) && at <= now && now
            - at >= 4_000_000_000) ==> app.check_label(now) == "Check for updates"@,
        !app.news.checking_updates && app.news.up_to_date_at is None ==> app.check_label(now)
            == "Check for updates"@,
{
}

// ---------------------------------------------------------------------------
// Tabs, Back and the search box
// ---------------------------------------------------------------------------

/// The tabs follow each other as Library, Collections and Downloads, and round again.
pub proof fn tabs_follow_each_other(tab: Tab)
    ensures
        Tab::Library.stepped(1) == Tab::Collections,
        Tab::Collections.stepped(1) == Tab::Downloads,
        Tab::Downloads.stepped(1) == Tab::Library,
        Tab::Library.stepped(-1) == Tab::Downloads,
        Tab::Collections.stepped(-1) == Tab::Library,
        Tab::Downloads.stepped(-1) == Tab::Collections,
        tab.stepped(0) == tab,
{
}

/// On the library page the tabs are switched to the one that was asked for, and nothing but
/// the scrolling changes in the rows; a game's page does not switch tabs.
pub proof fn tabs_are_switched_on_the_library_page(pre: App, tab: Tab, now: u64, post: App)
    requires
        is_clear(pre),
        applied(pre, Action::SetTab(tab), now, post),
    ensures
        pre.screen.page == Page::Library ==> {
            &&& post.screen.tab == tab
            &&& post.screen.page == Page::Library
            &&& post.screen.toolbar_focus == pre.screen.toolbar_focus
            &&& post.library.rows@.focused() == pre.library.rows@.focused()
            &&& post.shelves.collection_rows@.focused() == pre.shelves.collection_rows@.focused()
            &&& post.library.rows@.follow && post.shelves.collection_rows@.follow
            &&& post.search.query == pre.search.query
        },
        pre.screen.page != Page::Library ==> post == pre,
        post.commands@ == pre.commands@,
{
}

/// Back undoes one thing at a time: from another tab it leads to the library, then it clears
/// the search, then it takes down a notice, and at last it opens the menu.
pub proof fn back_undoes_one_thing_at_a_time(pre: App, now: u64, post: App)
    requires
        is_clear(pre),
        pre.screen.page == Page::Library,
        applied(pre, Action::Back, now, post),
    ensures
        pre.screen.tab != Tab::Library ==> post.actions@ == pre.actions@.push(
            Action::SetTab(Tab::Library),
        ),
        pre.screen.tab == Tab::Library && pre.search.query@.len() > 0 ==> post.actions@
            == pre.actions@.push(Action::ClearSearch),
        pre.screen.tab == Tab::Library && pre.search.query@.len() == 0 && pre.screen.notice is Some
            ==> post.actions@ == pre.actions@ && post.screen.notice is None,
        pre.screen.tab == Tab::Library && pre.search.query@.len() == 0 && pre.screen.notice is None
            ==> post.actions@ == pre.actions@.push(Action::Menu),
        post.commands@ == pre.commands@ && post.search.query == pre.search.query,
{
}

/// The search box opens on the Library tab, where there is a keyboard; clearing the search
/// empties it and leaves it.
pub proof fn searches_open_and_clear(pre: App, now: u64, post: App)
    requires
        is_clear(pre),
    ensures
        applied(pre, Action::FocusSearch, now, post) && pre.screen.page == Page::Library
            && pre.screen.tab == Tab::Library && !pre.device.handheld ==> post.search.focus_search,
        applied(pre, Action::FocusSearch, now, post) && (pre.screen.page != Page::Library
            || pre.screen.tab != Tab::Library || pre.device.handheld) ==> post == pre,
        applied(pre, Action::ClearSearch, now, post) ==> post.search.query@.len() == 0
            && post.search.blur_search,
        applied(pre, Action::SearchDone, now, post) ==> post.search.blur_search
            && post.search.query == pre.search.query && post.screen.toolbar_focus.library is None,
{
}

// ---------------------------------------------------------------------------
// Pointing, pressing and the rest
// ---------------------------------------------------------------------------

/// Pressing a tile opens the page of its game, where the catalog knows it.
pub proof fn pressing_a_tile_opens_its_game(
    pre: App,
    rows: RowsView,
    id: i64,
    now: u64,
    mid: App,
    post: App,
)
    requires
        is_clear(pre),
        pre.screen.page == Page::Library,
        pre.active() == Some(rows),
        pre.screen.toolbar_focus.on(pre.screen.tab) is None,
        !pre.nothing_listed(),
        rows.focused() == Some(id),
        pre.library.catalog@.contains_key(id),
        pre.actions@.len() == 0,
        applied(pre, Action::Activate, now, mid),
        mid.actions@.len() == 1 && applied(mid, mid.actions@[0], now, post),
    ensures
        post.screen.page == (Page::Game { id, button: 0 }),
        post.library == pre.library && post.shelves == pre.shelves && post.commands@
            == pre.commands@,
{
}

/// Pointing at a tile, a download's button, a stop of the toolbar or a button of a page puts
/// the focus there.
pub proof fn pointing_moves_the_focus(pre: App, a: usize, b: usize, now: u64, post: App)
    requires
        is_clear(pre),
        pre.wf(),
    ensures
        applied(pre, Action::FocusTile { row: a, col: b }, now, post) && pre.screen.tab
            == Tab::Library && a < pre.library.rows@.sections.len() && b
            < pre.library.rows@.sections[a as int].games.len() ==> post.library.rows@.focused()
            == Some(pre.library.rows@.sections[a as int].games[b as int])
            && post.screen.toolbar_focus.library is None,
        applied(pre, Action::FocusTile { row: a, col: b }, now, post) && pre.screen.tab
            == Tab::Collections && a < pre.shelves.collection_rows@.sections.len() && b
            < pre.shelves.collection_rows@.sections[a as int].games.len()
            ==> post.shelves.collection_rows@.focused() == Some(
            pre.shelves.collection_rows@.sections[a as int].games[b as int],
        ) && post.screen.toolbar_focus.collections is None,
        applied(pre, Action::FocusDownload { row: a, button: b }, now, post)
            ==> post.screen.downloads_row == (a, b) && post.screen.toolbar_focus.on(
            pre.screen.tab,
        ) is None,
        applied(pre, Action::FocusToolbar(a), now, post) ==> post.screen.toolbar_focus.on(
            pre.screen.tab,
        ) == Some(a),
        applied(pre, Action::FocusButton(a), now, post) ==> (match pre.screen.page {
            Page::Game { id, .. } => post.screen.page == (Page::Game { id, button: a }),
            Page::Library => post == pre,
        }),
        applied(pre, Action::FocusIndex(a), now, post) && a < loaded(pre.library.owned).len()
            && pre.library.rows@.shows(loaded(pre.library.owned)[a as int].id)
            ==> post.library.rows@.focused() == Some(loaded(pre.library.owned)[a as int].id),
{
    crate::rows::pointing_at_a_tile_focuses_it(pre.library.rows@, a as int, b as int);
    crate::rows::pointing_at_a_tile_focuses_it(pre.shelves.collection_rows@, a as int, b as int);
    if a < loaded(pre.library.owned).len() {
        crate::rows::focusing_a_game_finds_it(
            pre.library.rows@,
            loaded(pre.library.owned)[a as int].id,
        );
    }
}

/// Launching a game that runs already does nothing, and neither does quitting one that does
/// not; quitting one that does tells the backend.
pub proof fn games_are_launched_and_quit_once(pre: App, cave_id: String, now: u64, post: App)
    requires
        is_clear(pre),
    ensures
        applied(pre, Action::Play { cave_id }, now, post) && pre.play.running@.contains_key(cave_id@)
            ==> post == pre,
        applied(pre, Action::Play { cave_id }, now, post) && !pre.play.running@.contains_key(
            cave_id@,
        ) ==> post.commands@ == pre.commands@.push(Command::Launch { cave_id })
            && post.play.running@.contains_key(cave_id@) && post.play.running@[cave_id@] == now,
        applied(pre, Action::QuitGame { cave_id }, now, post) && pre.play.running@.contains_key(
            cave_id@,
        ) ==> post.commands@ == pre.commands@.push(Command::QuitGame { cave_id }),
        applied(pre, Action::QuitGame { cave_id }, now, post) && !pre.play.running@.contains_key(
            cave_id@,
        ) ==> post == pre,
        applied(pre, Action::BackToGame, now, post) && pre.play.running@ != Map::<
            Seq<char>,
            u64,
        >::empty() ==> post.window@ == pre.window@.push(WindowRequest::Minimize),
        applied(pre, Action::BackToGame, now, post) && pre.play.running@ == Map::<
            Seq<char>,
            u64,
        >::empty() ==> post == pre,
        applied(pre, Action::Quit, now, post) ==> post.screen.quitting == Some(3u32),
{
}

/// More of a collection is asked for where its row has more, with the cursor that the last page
/// gave, and once at a time.
pub proof fn more_of_a_collection_is_asked_for_once(pre: App, row: usize, i: int, now: u64, post: App)
    requires
        is_clear(pre),
        row < pre.shelves.collection_rows@.sections.len(),
        0 <= i < loaded(pre.shelves.collections).len(),
        pre.shelves.collection_rows@.sections[row as int].collection == Some(
            loaded(pre.shelves.collections)[i].collection.id,
        ),
        forall|k: int|
            0 <= k < i ==> (#[trigger] loaded(pre.shelves.collections)[k]).collection.id != loaded(
                pre.shelves.collections,
            )[i].collection.id,
        applied(pre, Action::MoreGames { row }, now, post),
    ensures
        ({
            let c = loaded(pre.shelves.collections)[i];
            let asked = pre.shelves.collection_loading@.contains(c.collection.id);
            &&& !asked ==> (c.next_cursor matches Some(cursor) ==> post.commands@
                == pre.commands@.push(
                Command::CollectionPage { collection_id: c.collection.id, cursor },
            ) && post.shelves.collection_loading@.contains(c.collection.id))
            &&& asked || c.next_cursor is None ==> post == pre
        }),
{
    lemma_first_collection(loaded(pre.shelves.collections), i);
}

proof fn lemma_first_collection(collections: Seq<crate::model::CollectionGames>, i: int)
    requires
        0 <= i < collections.len(),
        forall|k: int|
            0 <= k < i ==> (#[trigger] collections[k]).collection.id != collections[i].collection.id,
    ensures
        crate::app::requests::collection_with(collections, collections[i].collection.id) == Some(
            collections[i],
        ),
    decreases i,
{
    if i > 0 {
        let rest = collections.skip(1);
        assert(rest[i - 1] == collections[i]);
        assert forall|k: int| 0 <= k < i - 1 implies (#[trigger] rest[k]).collection.id
            != rest[i - 1].collection.id by {
            assert(rest[k] == collections[k + 1]);
        }
        lemma_first_collection(rest, i - 1);
        assert(collections[0].collection.id != collections[i].collection.id);
    }
}

// ---------------------------------------------------------------------------
// What the footer promises
// ---------------------------------------------------------------------------

/// On the library page the footer names what a press would do: a stop of the toolbar by its
/// label, a download's button by its label, and a tile by the word for opening it.
pub proof fn the_footer_names_what_a_press_does(app: App, now: u64)
    requires
        is_clear(app),
        app.screen.page == Page::Library,
    ensures
        crate::app::page::press(app, now) is Some ==> app.confirm_label(now) is Some,
        app.stop_in_focus(now) matches Some(index) ==> index < app.stops(now).len()
            ==> app.confirm_label(now) == Some(app.stops(now)[index as int].label) && (
        !app.stops(now)[index as int].busy ==> crate::app::page::press(app, now) == Some(
            app.stops(now)[index as int].action,
        )),
        app.stop_in_focus(now) is None && app.screen.tab != Tab::Downloads && (
        app.active()->0.focused() matches Some(id) && app.library.catalog@.contains_key(id))
            ==> app.confirm_label(now) == Some("Open"@) && (app.active()->0.focused() matches Some(id)
            && crate::app::page::press(app, now) == Some(
            Action::Open(Page::Game { id, button: 0 }),
        )),
        app.confirm_label(now) matches Some(label) ==> app.footer(now).contains(
            (crate::glyphs::Glyph::Confirm, label),
        ),
        app.confirm_label(now) is None ==> forall|i: int|
            0 <= i < app.footer(now).len() ==> (#[trigger] app.footer(now)[i]).0
                != crate::glyphs::Glyph::Confirm,
        app.screen.tab == Tab::Library ==> app.footer(now).contains(
            (crate::glyphs::Glyph::Menu, "Menu"@),
        ),
        app.screen.tab != Tab::Library ==> app.footer(now).contains(
            (crate::glyphs::Glyph::Back, "Back"@),
        ),
        app.footer(now).contains((crate::glyphs::Glyph::Search, "Search"@)) <==> app.screen.tab
            == Tab::Library && !app.device.handheld,
{
    let footer = app.footer(now);
    let n = footer.len();
    assert(footer[n - 1].0 == crate::glyphs::Glyph::Menu || footer[n - 1].0
        == crate::glyphs::Glyph::Back);
    if let Some(label) = app.confirm_label(now) {
        let at = if !app.nothing_listed() || app.stops(now).len() > 1 {
            1int
        } else {
            0
        };
        assert(footer[at] == (crate::glyphs::Glyph::Confirm, label));
    }
    if app.screen.tab == Tab::Library && !app.device.handheld {
        assert(footer[n - 2] == (crate::glyphs::Glyph::Search, "Search"@));
    }
    if app.screen.tab == Tab::Library {
        assert(footer[n - 1] == (crate::glyphs::Glyph::Menu, "Menu"@));
    } else {
        assert(footer[n - 1] == (crate::glyphs::Glyph::Back, "Back"@));
    }
}

/// Under a question the footer names the choice in focus and how to step between choices;
/// under the menu drawer it names the item in focus.
pub proof fn the_footer_names_the_choice_in_focus(app: App, now: u64)
    ensures
        app.screen.menu is None && (app.screen.prompt matches Some(prompt) && prompt.focus
            < prompt.choices@.len()) ==> {
            let prompt = app.screen.prompt->0;
            &&& app.footer(now).contains(
                (crate::glyphs::Glyph::Confirm, prompt.choices@[prompt.focus as int]@),
            )
            &&& app.footer(now).last() == (crate::glyphs::Glyph::Back, "Dismiss"@)
            &&& prompt.choices@.len() > 1 && prompt.stacked ==> app.footer(now)[0].0
                == crate::glyphs::Glyph::NavigateVertical
            &&& prompt.choices@.len() > 1 && !prompt.stacked ==> app.footer(now)[0].0
                == crate::glyphs::Glyph::NavigateHorizontal
        },
        app.screen.menu matches Some(focus) ==> focus < 2 ==> app.footer(now).contains(
            (crate::glyphs::Glyph::Confirm, app.menu_list()[focus as int].label),
        ) && app.footer(now).last() == (crate::glyphs::Glyph::Back, "Close"@),
{
    let footer = app.footer(now);
    if let Some(focus) = app.screen.menu {
        if focus < 2 {
            assert(footer[1] == (crate::glyphs::Glyph::Confirm, app.menu_list()[focus as int].label));
            assert(footer[2] == (crate::glyphs::Glyph::Back, "Close"@));
        }
    } else if let Some(prompt) = app.screen.prompt {
        if prompt.focus < prompt.choices@.len() {
            let n = footer.len();
            assert(footer[n - 2] == (
                crate::glyphs::Glyph::Confirm,
                prompt.choices@[prompt.focus as int]@,
            ));
            assert(footer[n - 1] == (crate::glyphs::Glyph::Back, "Dismiss"@));
        }
    }
}

/// On a game's page the footer names the button in focus.
pub proof fn the_footer_names_the_button_in_focus(app: App, id: i64, button: usize, now: u64)
    requires
        is_clear(app),
        app.screen.page == (Page::Game { id, button }),
        app.library.catalog@.contains_key(id),
        app.library.catalog@[id].id == id,
    ensures
        button < app.page_buttons(id).len() ==> app.footer(now).contains(
            (crate::glyphs::Glyph::Confirm, app.page_buttons(id)[button as int].0),
        ),
        app.footer(now).last() == (crate::glyphs::Glyph::Back, "Back"@),
        app.page_buttons(id).len() > 1 ==> app.footer(now)[0].0
            == crate::glyphs::Glyph::NavigateHorizontal,
{
    let footer = app.footer(now);
    let n = footer.len();
    assert(footer[n - 1] == (crate::glyphs::Glyph::Back, "Back"@));
    if button < app.page_buttons(id).len() {
        assert(footer[n - 2] == (
            crate::glyphs::Glyph::Confirm,
            app.page_buttons(id)[button as int].0,
        ));
    }
}

/// A filter of the toolbar is marked exactly while it is on, and of All and Installed always one
/// is.
pub proof fn filters_are_marked_while_they_are_on(app: App, now: u64)
    ensures
        app.screen.tab == Tab::Library ==> app.controls(now) == seq![
            ControlView::Filters(seq![("Playable here"@, app.library.playable_only)]),
        ],
        app.screen.tab == Tab::Collections ==> app.controls(now) == seq![
            ControlView::Filters(
                seq![
                    ("All"@, !app.shelves.collections_installed_only),
                    ("Installed"@, app.shelves.collections_installed_only),
                ],
            ),
            ControlView::Filters(seq![("Playable here"@, app.library.playable_only)]),
        ],
        app.screen.tab == Tab::Downloads ==> app.controls(now)[0] == (ControlView::Button {
            label: app.check_label(now),
            busy: app.news.checking_updates,
        }),
{
}

/// The focus is on the toolbar where it was put there, at the last stop where it was put too
/// far; and where nothing is listed it is on the first stop.
pub proof fn the_focus_is_on_a_stop(app: App, now: u64)
    ensures
        app.screen.toolbar_focus.on(app.screen.tab) matches Some(index) ==> {
            &&& index < app.stops(now).len() ==> app.stop_in_focus(now) == Some(index)
            &&& index >= app.stops(now).len() ==> (app.stop_in_focus(now) matches Some(last) && last
                + 1 == app.stops(now).len())
        },
        app.screen.toolbar_focus.on(app.screen.tab) is None && app.nothing_listed()
            ==> app.stop_in_focus(now) == Some(0usize),
        app.screen.toolbar_focus.on(app.screen.tab) is None && !app.nothing_listed()
            ==> app.stop_in_focus(now) is None,
        app.screen.tab == Tab::Downloads ==> (app.nothing_listed() <==> app.download_list().len()
            == 0),
        app.screen.tab == Tab::Library ==> (app.nothing_listed()
            <==> app.library.rows@.without_tiles()),
        app.screen.tab == Tab::Collections ==> (app.nothing_listed()
            <==> app.shelves.collection_rows@.without_tiles()),
{
    lemma_few_stops(app, now);
}

/// Update all queues the certain updates that wait, each once and in the order of the library.
pub proof fn update_all_queues_every_certain_update(pre: App, k: int, now: u64, post: App)
    requires
        is_clear(pre),
        applied(pre, Action::UpdateAll, now, post),
        0 <= k < pre.awaiting(pre.library.caves@, true).len(),
    ensures
        post.commands@.len() == pre.commands@.len() + pre.awaiting(pre.library.caves@, true).len(),
        post.commands@.take(pre.commands@.len() as int) == pre.commands@,
        ({
            let id = pre.awaiting(pre.library.caves@, true)[k]@;
            &&& post.commands@[pre.commands@.len() + k] matches Command::Update { update }
            &&& update.cave_id == pre.news.updates@[id].cave_id
            &&& update.choices@ == pre.news.updates@[id].choices@
            &&& update.direct && pre.news.updates@[id].direct
        }),
        post.queue == pre.queue && post.news == pre.news,
{
    crate::app::downloads::lemma_awaiting(pre, pre.library.caves@, true);
    assert(post.commands@[pre.commands@.len() + k] is Update);
}

/// A game is removed by its install, and the question names it, where the library knows it.
pub proof fn uninstalls_name_the_game(pre: App, cave_id: String, i: int, now: u64, post: App)
    requires
        is_clear(pre),
        applied(pre, Action::Uninstall { cave_id }, now, post),
        0 <= i < pre.library.caves@.len(),
        pre.library.caves@[i].id@ == cave_id@,
        forall|k: int| 0 <= k < i ==> (#[trigger] pre.library.caves@[k]).id@ != cave_id@,
    ensures
        post.commands@.len() == pre.commands@.len() + 1,
        post.commands@.last() matches Command::Uninstall { cave_id: id, title } && id == cave_id && (
        match pre.library.caves@[i].game {
            Some(game) => title@ == game.title@,
            None => title@ == "this game"@,
        }),
        post.library == pre.library,
{
    lemma_first_install(pre.library.caves@, cave_id@, i);
}

proof fn lemma_first_install(caves: Seq<crate::model::Cave>, id: Seq<char>, i: int)
    requires
        0 <= i < caves.len(),
        caves[i].id@ == id,
        forall|k: int| 0 <= k < i ==> (#[trigger] caves[k]).id@ != id,
    ensures
        crate::app::downloads::cave_named(caves, id) == Some(caves[i]),
    decreases i,
{
    if i > 0 {
        let rest = caves.skip(1);
        assert(rest[i - 1] == caves[i]);
        assert forall|k: int| 0 <= k < i - 1 implies (#[trigger] rest[k]).id@ != id by {
            assert(rest[k] == caves[k + 1]);
        }
        lemma_first_install(rest, id, i - 1);
        assert(caves[0].id@ != id);
    }
}

/// The menu key brings the window to the front over a question too, and the question stays.
pub proof fn the_menu_key_raises_the_window(pre: App, now: u64, post: App)
    requires
        pre.screen.quitting is None,
        pre.screen.prompt is Some,
        applied(pre, Action::Menu, now, post),
    ensures
        post.window@ == pre.window@.push(WindowRequest::Restore).push(WindowRequest::Focus),
        post.screen == pre.screen && post.commands@ == pre.commands@,
{
}

/// The shoulder buttons lead from tab to tab on the library page: the right one to the tab behind,
/// the left one to the tab before. On a game's page they do nothing.
pub proof fn shoulders_lead_from_tab_to_tab(pre: App, now: u64, post: App)
    requires
        is_clear(pre),
    ensures
        pre.screen.page == Page::Library && applied(pre, Action::CycleTab(1i32), now, post)
            ==> post.actions@ == pre.actions@.push(
            Action::SetTab(
                match pre.screen.tab {
                    Tab::Library => Tab::Collections,
                    Tab::Collections => Tab::Downloads,
                    Tab::Downloads => Tab::Library,
                },
            ),
        ),
        pre.screen.page == Page::Library && applied(pre, Action::CycleTab(-1i32), now, post)
            ==> post.actions@ == pre.actions@.push(
            Action::SetTab(
                match pre.screen.tab {
                    Tab::Library => Tab::Downloads,
                    Tab::Collections => Tab::Library,
                    Tab::Downloads => Tab::Collections,
                },
            ),
        ),
        pre.screen.page != Page::Library && (applied(pre, Action::CycleTab(1i32), now, post)
            || applied(pre, Action::CycleTab(-1i32), now, post)) ==> post == pre,
{
}

} // verus!
