//! Applying actions, one after the other.
use vstd::prelude::*;
use crate::app::apply::{
    answered, asked, in_menu, is_sample, raised, refreshed, sample_prompt, sent, shown,
};
use crate::app::downloads::install_views;
use crate::app::page::{
    backed, focus_moved, index_focused, maybe_asked, press, rows_became, tab_rows, toolbar_set,
};
use crate::app::requests::{
    check_begun, game_quit, install_begun, install_cancelled, install_retried, installed_set,
    launched, page_requested, playable_set, search_cleared, search_left, search_opened, tab_set,
    uninstall_asked, update_sent, updates_sent,
};
use crate::app::state::{App, Screen, WindowRequest, QUIT_FRAMES};
use crate::backend::Command;
use crate::model::{Action, Page};

verus! {

/// The window was asked to get out of the way of a running game.
pub open spec fn stepped_aside(pre: App, post: App) -> bool {
    if pre.play.running@ == Map::<Seq<char>, u64>::empty() {
        post == pre
    } else {
        &&& post == (App { window: post.window, ..pre })
        &&& post.window@ == pre.window@.push(WindowRequest::Minimize)
    }
}

/// The menu drawer opened, with the window in front.
pub open spec fn menu_opened(pre: App, post: App) -> bool {
    &&& post == (App {
        screen: Screen { menu: Some(0), ..pre.screen },
        window: post.window,
        ..pre
    })
    &&& post.window@ == raised(pre.window@)
}

/// What an action does when neither a question nor the menu drawer is open.
pub open spec fn on_page(pre: App, action: Action, now: u64, post: App) -> bool {
    match action {
        Action::MoveFocus(direction) => focus_moved(pre, direction, now, post),
        Action::FocusIndex(index) => index_focused(pre, index, post),
        Action::FocusTile { row, col } => rows_became(
            pre,
            tab_rows(pre).with_tile(row as int, col as int),
            pre.screen.downloads_row,
            post,
        ),
        Action::FocusDownload { row, button } => shown(
            pre,
            Screen { downloads_row: (row, button), ..toolbar_set(pre.screen, None) },
            post,
        ),
        Action::FocusToolbar(index) => shown(pre, toolbar_set(pre.screen, Some(index)), post),
        Action::FocusButton(button) => match pre.screen.page {
            Page::Game { id, .. } => shown(
                pre,
                Screen { page: Page::Game { id, button }, ..pre.screen },
                post,
            ),
            Page::Library => post == pre,
        },
        Action::Activate => maybe_asked(pre, press(pre, now), post),
        Action::Back => backed(pre, post),
        Action::Open(page) => shown(pre, Screen { page, ..pre.screen }, post),
        Action::Play { cave_id } => launched(pre, cave_id, now, post),
        Action::QuitGame { cave_id } => game_quit(pre, cave_id, post),
        Action::Answer { .. } | Action::PromptFocus(_) | Action::MenuFocus(_) => post == pre,
        Action::SetPlayableOnly(on) => playable_set(pre, on, post),
        Action::SetCollectionsInstalledOnly(on) => installed_set(pre, on, post),
        Action::SetTab(tab) => tab_set(pre, tab, post),
        Action::CycleTab(step) => if pre.screen.page == Page::Library {
            asked(pre, Action::SetTab(pre.screen.tab.stepped(step as int)), post)
        } else {
            post == pre
        },
        Action::FocusSearch => search_opened(pre, post),
        Action::SearchDone => search_left(pre, post),
        Action::ClearSearch => search_cleared(pre, post),
        Action::Menu => menu_opened(pre, post),
        Action::Quit => shown(
            pre,
            Screen { quitting: Some(QUIT_FRAMES), ..pre.screen },
            post,
        ),
        Action::BackToGame => stepped_aside(pre, post),
        Action::MoreGames { row } => page_requested(pre, row, post),
        Action::ClearFinished => sent(pre, Command::ClearFinished, post),
        Action::RefreshLibrary => refreshed(pre, post),
        Action::UpdateAll => updates_sent(pre, pre.awaiting(pre.library.caves@, true), post),
        Action::CheckUpdates => check_begun(pre, post),
        Action::Install { game_id } => install_begun(pre, game_id, post),
        Action::CancelInstall { game_id } => install_cancelled(pre, game_id, post),
        Action::RetryInstall { game_id } => install_retried(pre, game_id, post),
        Action::Update { cave_id } => update_sent(pre, cave_id@, post),
        Action::Uninstall { cave_id } => uninstall_asked(pre, cave_id, post),
    }
}

/// The stand-in question of a screenshot script opened.
pub open spec fn sample_shown(pre: App, count: Option<usize>, post: App) -> bool {
    &&& post == (App {
        screen: Screen { prompt: post.screen.prompt, ..pre.screen },
        ..pre
    })
    &&& post.screen.prompt matches Some(prompt)
    &&& is_sample(prompt, count)
}

/// What an action does. While the program quits, nothing; while a question is open, only what
/// concerns it; likewise the menu drawer; else what the page makes of it.
pub open spec fn applied(pre: App, action: Action, now: u64, post: App) -> bool {
    if pre.screen.quitting is Some {
        post == pre
    } else {
        match (pre.screen.prompt, action) {
            (None, Action::Answer { prompt: 0, choice }) => sample_shown(pre, choice, post),
            (Some(prompt), _) => answered(pre, prompt, action, post),
            (None, _) => match pre.screen.menu {
                Some(focus) => in_menu(pre, focus, action, post),
                None => on_page(pre, action, now, post),
            },
        }
    }
}

impl App {
    fn apply_to_page(&mut self, action: Action, now: u64)
        requires
            old(self).wf(),
        ensures
            on_page(*old(self), action, now, *final(self)),
            final(self).wf(),
    {
        match action {
            Action::MoveFocus(direction) => self.move_focus(direction, now),
            Action::FocusIndex(index) => self.focus_index(index),
            Action::FocusTile { row, col } => self.focus_tile(row, col),
            Action::FocusDownload { row, button } => {
                self.set_toolbar_focus(None);
                self.screen.downloads_row = (row, button);
            },
            Action::FocusToolbar(index) => self.set_toolbar_focus(Some(index)),
            Action::FocusButton(button) => {
                if let Page::Game { id, .. } = self.screen.page {
                    self.screen.page = Page::Game { id, button };
                }
            },
            Action::Activate => self.activate(now),
            Action::Back => self.back(),
            Action::Open(page) => {
                self.screen.page = page;
            },
            Action::Play { cave_id } => self.play(cave_id, now),
            Action::QuitGame { cave_id } => self.quit_game(cave_id),
            // Only meaningful while a question or the drawer is open.
            Action::Answer { .. } | Action::PromptFocus(_) | Action::MenuFocus(_) => {},
            Action::SetPlayableOnly(on) => self.set_playable_only(on),
            Action::SetCollectionsInstalledOnly(on) => self.set_collections_installed_only(on),
            Action::SetTab(tab) => self.set_tab(tab),
            Action::CycleTab(step) => {
                if self.screen.page.is_library() {
                    let tab = self.screen.tab.next(step);
                    self.ask(Action::SetTab(tab));
                }
            },
            Action::FocusSearch => self.open_search(),
            Action::SearchDone => self.leave_search(),
            Action::ClearSearch => self.clear_search(),
            Action::Menu => {
                self.raise_window();
                self.screen.menu = Some(0);
            },
            Action::Quit => {
                self.screen.quitting = Some(QUIT_FRAMES);
            },
            Action::BackToGame => {
                if !self.play.running.is_empty() {
                    self.hide_window();
                }
            },
            Action::MoreGames { row } => self.more_games(row),
            Action::ClearFinished => self.send(Command::ClearFinished),
            Action::RefreshLibrary => self.refresh_library(),
            Action::UpdateAll => self.update_all(),
            Action::CheckUpdates => self.check_updates(),
            Action::Install { game_id } => self.install(game_id),
            Action::CancelInstall { game_id } => self.cancel_install(game_id),
            Action::RetryInstall { game_id } => self.retry_install(game_id),
            Action::Update { cave_id } => self.send_update(cave_id.as_str()),
            Action::Uninstall { cave_id } => self.uninstall(cave_id),
        }
    }

    /// Does what an action asks for.
    pub fn apply(&mut self, action: Action, now: u64)
        requires
            old(self).wf(),
        ensures
            applied(*old(self), action, now, *final(self)),
            final(self).wf(),
    {
        if self.screen.quitting.is_some() {
            return;
        }
        if self.screen.prompt.is_none() {
            if let Action::Answer { prompt: 0, choice } = action {
                self.screen.prompt = Some(sample_prompt(choice));
                return;
            }
            if let Some(focus) = self.screen.menu {
                self.apply_to_menu(focus, action);
            } else {
                self.apply_to_page(action, now);
            }
        } else {
            self.apply_to_prompt(action);
        }
    }
}

// ---------------------------------------------------------------------------
// Actions lead to actions, but not for long
// ---------------------------------------------------------------------------

/// The actions that can ask for another one.
pub open spec fn may_ask(action: Action) -> bool {
    action is Activate || action is Back || action is CycleTab
}

/// How many actions an action can come to, itself counted.
pub open spec fn weight(action: Action) -> nat {
    if may_ask(action) {
        2
    } else {
        1
    }
}

pub open spec fn total_weight(actions: Seq<Action>) -> nat
    decreases actions.len(),
{
    if actions.len() == 0 {
        0
    } else {
        total_weight(actions.drop_last()) + weight(actions.last())
    }
}

proof fn lemma_first_weight(actions: Seq<Action>)
    requires
        actions.len() > 0,
    ensures
        total_weight(actions) == weight(actions[0]) + total_weight(actions.skip(1)),
    decreases actions.len(),
{
    let rest = actions.drop_last();
    if rest.len() > 0 {
        lemma_first_weight(rest);
        assert(actions.skip(1).drop_last() =~= rest.skip(1));
        assert(rest[0] == actions[0]);
        assert(actions.skip(1).last() == actions.last());
    } else {
        assert(actions.skip(1) =~= Seq::empty());
        assert(rest =~= Seq::empty());
        assert(total_weight(rest) == 0);
    }
}

proof fn lemma_rows_ask_for_little(app: App, row: int, button: int)
    requires
        0 <= row < app.download_list().len(),
        0 <= button < app.download_list()[row].buttons.len(),
    ensures
        !may_ask(app.download_list()[row].buttons[button].1),
{
    let updates = app.update_list();
    let queue = app.queue_list();
    let rows = app.download_list();
    if row < updates.len() {
        assert(rows[row] == updates[row]);
    } else if row < updates.len() + queue.len() {
        assert(rows[row] == queue[row - updates.len()]);
    } else {
        assert(rows[row] == app.finished_list()[row - updates.len() - queue.len()]);
    }
}

proof fn lemma_press_asks_for_little(app: App, now: u64)
    ensures
        press(app, now) matches Some(action) ==> !may_ask(action),
{
    if app.screen.page == Page::Library && app.stop_in_focus(now) is None && app.active() is None {
        let rows = app.download_list();
        let (row, button) = crate::app::downloads::clamped(app.screen.downloads_row, rows);
        if row < rows.len() && button < rows[row as int].buttons.len() {
            lemma_rows_ask_for_little(app, row as int, button as int);
        }
    }
}

/// An action asks for at most one other, and that one for none.
pub proof fn actions_ask_for_at_most_one(pre: App, action: Action, now: u64, post: App)
    requires
        applied(pre, action, now, post),
    ensures
        post.actions@ == pre.actions@ || (may_ask(action) && post.actions@.len()
            == pre.actions@.len() + 1 && post.actions@.drop_last() == pre.actions@ && !may_ask(
            post.actions@.last(),
        )),
{
    lemma_press_asks_for_little(pre, now);
    if post.actions@ != pre.actions@ {
        assert(post.actions@.drop_last() =~= pre.actions@);
    }
}

/// The oldest action that waits was applied.
pub open spec fn first_applied(pre: App, now: u64, post: App) -> bool {
    exists|mid: App|
        {
            &&& pre.actions@.len() > 0
            &&& mid == (App { actions: mid.actions, ..pre })
            &&& mid.actions@ == pre.actions@.skip(1)
            &&& #[trigger] applied(mid, pre.actions@[0], now, post)
        }
}

/// The actions that waited were applied in the order in which they were asked for, those that
/// they asked for behind them, until none was left.
pub open spec fn all_applied(states: Seq<App>, now: u64) -> bool {
    &&& states.len() > 0
    &&& states.last().actions@.len() == 0
    &&& forall|i: int|
        0 <= i < states.len() - 1 ==> first_applied(#[trigger] states[i], now, states[i + 1])
}

impl App {
    /// Applies every action that waits, and what they ask for. Says whether there was any:
    /// actions queued while drawing land after the frame was drawn, so it
    /// takes another frame to show them.
    pub fn apply_actions(&mut self, now: u64) -> (r: bool)
        requires
            old(self).wf(),
        ensures
            final(self).wf(),
            r == (old(self).actions@.len() > 0),
            exists|states: Seq<App>| #[trigger]
                all_applied(states, now) && states[0] == *old(self) && states.last()
                    == *final(self),
    {
        let ghost mut states: Seq<App> = seq![*self];
        let any = self.actions.len() > 0;
        while self.actions.len() > 0
            invariant
                self.wf(),
                states.len() > 0,
                states[0] == *old(self),
                states.last() == *self,
                forall|i: int|
                    0 <= i < states.len() - 1 ==> first_applied(
                        #[trigger] states[i],
                        now,
                        states[i + 1],
                    ),
            decreases total_weight(self.actions@),
        {
            let ghost pre = *self;
            let action = self.actions.remove(0);
            let ghost mid = *self;
            proof {
                assert(mid.actions@ =~= pre.actions@.skip(1));
                lemma_first_weight(pre.actions@);
            }
            self.apply(action, now);
            proof {
                actions_ask_for_at_most_one(mid, action, now, *self);
                if self.actions@ != mid.actions@ {
                    assert(self.actions@.drop_last() == mid.actions@);
                }
                assert(first_applied(pre, now, *self));
                let longer = states.push(*self);
                assert forall|i: int| 0 <= i < longer.len() - 1 implies first_applied(
                    #[trigger] longer[i],
                    now,
                    longer[i + 1],
                ) by {
                    if i < states.len() - 1 {
                        assert(longer[i] == states[i]);
                    }
                }
                states = longer;
            }
        }
        proof {
            assert(all_applied(states, now));
        }
        any
    }
}

// ---------------------------------------------------------------------------
// What holds of every action
// ---------------------------------------------------------------------------

/// Once the program quits, no action changes anything any more.
pub proof fn quitting_ignores_every_action(pre: App, action: Action, now: u64, post: App)
    requires
        pre.screen.quitting is Some,
        applied(pre, action, now, post),
    ensures
        post == pre,
{
}

/// While a question is open, no action reaches anything behind it: only its answer is sent.
pub proof fn open_questions_hear_everything(pre: App, action: Action, now: u64, post: App)
    requires
        pre.screen.prompt is Some,
        applied(pre, action, now, post),
    ensures
        post.library == pre.library && post.shelves == pre.shelves && post.queue == pre.queue,
        post.play == pre.play && post.news == pre.news && post.search == pre.search,
        post.screen.page == pre.screen.page && post.screen.tab == pre.screen.tab,
        post.commands@ != pre.commands@ ==> action is Answer && post.commands@
            == pre.commands@.push(
            Command::Answer { prompt: pre.screen.prompt->0.id, choice: action->choice },
        ),
{
}

/// While the menu drawer is open, no action reaches the page behind it.
pub proof fn open_menus_hear_everything(pre: App, action: Action, now: u64, post: App)
    requires
        pre.screen.menu is Some,
        pre.screen.prompt is None,
        applied(pre, action, now, post),
    ensures
        post.library == pre.library && post.shelves == pre.shelves && post.queue == pre.queue,
        post.play == pre.play && post.search == pre.search,
        post.screen.page == pre.screen.page && post.screen.tab == pre.screen.tab,
{
}

/// A game that was just launched is not launched again.
pub proof fn playing_twice_launches_once(
    pre: App,
    cave_id: String,
    first: u64,
    mid: App,
    second: u64,
    post: App,
)
    requires
        launched(pre, cave_id, first, mid),
        launched(mid, cave_id, second, post),
    ensures
        post == mid,
{
}

/// A game whose install was just asked for shows it at once, and asking again changes
/// nothing.
pub proof fn installing_twice_queues_once(pre: App, game_id: i64, mid: App, post: App)
    requires
        install_begun(pre, game_id, mid),
        install_begun(mid, game_id, post),
    ensures
        pre.known_game(game_id) is Some ==> mid.queue.installs@.contains_key(game_id),
        post == mid,
{
    if pre.known_game(game_id) is Some && !pre.queue.installs@.contains_key(game_id) {
        assert(mid.all_installs().contains_key(game_id));
        assert(install_views(mid.queue.installs@).contains_key(game_id));
    }
}

/// Offline, nothing is checked or refreshed, and no update is listed or installed from the
/// Downloads tab.
pub proof fn offline_asks_nothing_of_the_network(pre: App, post: App)
    requires
        !pre.news.online,
        refreshed(pre, post) || check_begun(pre, post),
    ensures
        post == pre,
        pre.update_list().len() == 0,
{
}

/// Going back from a game's page returns to the library, on the tile of that game where the
/// tab shows it.
pub proof fn back_returns_to_the_tile(pre: App, id: i64, button: usize, post: App)
    requires
        pre.wf(),
        pre.screen.page == (Page::Game { id, button }),
        backed(pre, post),
    ensures
        post.screen.page == Page::Library,
        pre.active() matches Some(rows) ==> (rows.shows(id) ==> (post.active() matches Some(now)
            && now.focused() == Some(id))),
{
    if let Some(rows) = pre.active() {
        crate::rows::focusing_a_game_finds_it(rows, id);
    }
}

/// Opening a game's page and going back leaves the focus on the game that was opened.
pub proof fn opening_and_back_keeps_the_focus(pre: App, id: i64, opened: App, post: App)
    requires
        pre.wf(),
        pre.screen.page == Page::Library,
        pre.active() matches Some(rows) && rows.focused() == Some(id),
        opened == (App { screen: Screen { page: Page::Game { id, button: 0 }, ..pre.screen }, ..pre }),
        backed(opened, post),
    ensures
        post.screen.page == Page::Library,
        post.active() matches Some(rows) && rows.focused() == Some(id),
{
    let rows = pre.active()->0;
    assert(rows.sections[rows.row as int].games.contains(id)) by {
        assert(rows.sections[rows.row as int].games[rows.column() as int] == id);
    }
    assert(rows.shows(id));
    back_returns_to_the_tile(opened, id, 0, post);
}

} // verus!
