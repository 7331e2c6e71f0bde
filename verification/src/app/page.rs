//! What each action does when neither a question nor the menu drawer is open.
use vstd::prelude::*;
use vstd::string::*;
use crate::app::apply::{asked, shown};
use crate::app::downloads::{clamped, step_download_row, stepped};
use crate::app::state::{loaded, App, Library, Screen, Shelves};
use crate::app::toolbar::{landing, step_toolbar_focus, Landing};
use crate::model::{Action, Direction, Game, Loadable, Page, Tab};
use crate::rows::{last_index, RowsView};
use crate::ui::{button_views, row_views};

verus! {

broadcast use vstd::std_specs::hash::group_hash_axioms;

// ---------------------------------------------------------------------------
// Moving the focus
// ---------------------------------------------------------------------------

impl App {
    /// Whether the focus is on the first row of the tab's list.
    pub open spec fn on_first_row(&self) -> bool {
        match self.screen.tab {
            Tab::Library => self.library.rows@.row == 0,
            Tab::Collections => self.shelves.collection_rows@.row == 0,
            Tab::Downloads => clamped(self.screen.downloads_row, self.download_list()).0 == 0,
        }
    }

    /// Where a step of the controller lands on the library page.
    pub open spec fn step_lands(&self, direction: Direction, now: u64) -> Landing {
        landing(
            self.stop_in_focus(now),
            direction,
            self.stops(now).len() as usize,
            self.nothing_listed(),
            self.on_first_row(),
        )
    }
}

/// The screen with the toolbar focus of the current tab set.
pub open spec fn toolbar_set(screen: Screen, focus: Option<usize>) -> Screen {
    Screen { toolbar_focus: screen.toolbar_focus.with(screen.tab, focus), ..screen }
}

/// The focus of the tab's rows changed, and of the Downloads list where that is the tab; the
/// toolbar lost it.
pub open spec fn rows_became(pre: App, rows: RowsView, downloads_row: (usize, usize), post: App) -> bool {
    let screen = toolbar_set(pre.screen, None);
    match pre.screen.tab {
        Tab::Library => {
            &&& post == (App {
                screen,
                library: Library { rows: post.library.rows, ..pre.library },
                ..pre
            })
            &&& post.library.rows@ == rows
        },
        Tab::Collections => {
            &&& post == (App {
                screen,
                shelves: Shelves { collection_rows: post.shelves.collection_rows, ..pre.shelves },
                ..pre
            })
            &&& post.shelves.collection_rows@ == rows
        },
        Tab::Downloads => shown(pre, Screen { downloads_row, ..screen }, post),
    }
}

/// The rows of the tab, where it has some.
pub open spec fn tab_rows(app: App) -> RowsView {
    if app.screen.tab == Tab::Collections {
        app.shelves.collection_rows@
    } else {
        app.library.rows@
    }
}

/// One step of the controller on the library page.
pub open spec fn library_moved(pre: App, direction: Direction, now: u64, post: App) -> bool {
    match pre.step_lands(direction, now) {
        Landing::Toolbar(index) => shown(pre, toolbar_set(pre.screen, Some(index)), post),
        Landing::FirstRow => rows_became(
            pre,
            RowsView { row: 0, follow: true, ..tab_rows(pre) },
            (0, 0),
            post,
        ),
        Landing::Rows => rows_became(
            pre,
            tab_rows(pre).moved(direction),
            stepped(
                clamped(pre.screen.downloads_row, pre.download_list()),
                direction,
                pre.download_list(),
            ),
            post,
        ),
    }
}

/// One step of the controller on a game's page.
pub open spec fn button_moved(
    pre: App,
    id: i64,
    button: usize,
    direction: Direction,
    post: App,
) -> bool {
    match pre.known_game(id) {
        Some(game) => {
            let last = last_index(pre.page_buttons(game.id).len());
            let next = match direction {
                Direction::Left => if button == 0 {
                    0usize
                } else {
                    (button - 1) as usize
                },
                Direction::Right => if button < last {
                    (button + 1) as usize
                } else {
                    last
                },
                _ => button,
            };
            shown(pre, Screen { page: Page::Game { id, button: next }, ..pre.screen }, post)
        },
        None => post == pre,
    }
}

impl App {
    pub(crate) fn set_toolbar_focus(&mut self, focus: Option<usize>)
        ensures
            shown(*old(self), toolbar_set(old(self).screen, focus), *final(self)),
    {
        let tab = self.screen.tab;
        self.screen.toolbar_focus.set(tab, focus);
    }

    fn at_first_row(&self) -> (r: bool)
        ensures
            r == self.on_first_row(),
    {
        match self.screen.tab {
            Tab::Library => self.library.rows.row == 0,
            Tab::Collections => self.shelves.collection_rows.row == 0,
            Tab::Downloads => {
                let rows = self.download_rows();
                self.downloads_row_in(&rows).0 == 0
            },
        }
    }

    fn move_in_library(&mut self, direction: Direction, now: u64)
        requires
            old(self).wf(),
        ensures
            library_moved(*old(self), direction, now, *final(self)),
            final(self).wf(),
    {
        let ghost pre = *self;
        let stops = self.toolbar(now).1.len();
        let rows_empty = self.rows_empty();
        let first = self.at_first_row();
        let focus = self.toolbar_focus_in(stops, rows_empty);
        assert(stops == pre.stops(now).len());
        match step_toolbar_focus(focus, direction, stops, rows_empty, first) {
            Landing::Toolbar(index) => self.set_toolbar_focus(Some(index)),
            Landing::FirstRow => {
                self.set_toolbar_focus(None);
                match self.screen.tab {
                    Tab::Library => {
                        self.library.rows.row = 0;
                        self.library.rows.follow = true;
                    },
                    Tab::Collections => {
                        self.shelves.collection_rows.row = 0;
                        self.shelves.collection_rows.follow = true;
                    },
                    Tab::Downloads => {
                        self.screen.downloads_row = (0, 0);
                    },
                }
            },
            Landing::Rows => {
                match self.screen.tab {
                    Tab::Library => self.library.rows.move_focus(direction),
                    Tab::Collections => self.shelves.collection_rows.move_focus(direction),
                    Tab::Downloads => {
                        let next = {
                            let rows = self.download_rows();
                            step_download_row(self.downloads_row_in(&rows), direction, &rows)
                        };
                        self.screen.downloads_row = next;
                    },
                }
                self.set_toolbar_focus(None);
            },
        }
    }

    fn move_on_page(&mut self, id: i64, button: usize, direction: Direction)
        ensures
            button_moved(*old(self), id, button, direction, *final(self)),
    {
        let count = match self.game(id) {
            Some(game) => self.buttons_for(game).len(),
            None => {
                return;
            },
        };
        assert(count == self.page_buttons(self.known_game(id)->0.id).len());
        let last: usize = if count == 0 {
            0
        } else {
            count - 1
        };
        let button: usize = match direction {
            Direction::Left => if button == 0 {
                0
            } else {
                button - 1
            },
            Direction::Right => if button < last {
                button + 1
            } else {
                last
            },
            _ => button,
        };
        self.screen.page = Page::Game { id, button };
    }

    pub(crate) fn move_focus(&mut self, direction: Direction, now: u64)
        requires
            old(self).wf(),
        ensures
            focus_moved(*old(self), direction, now, *final(self)),
            final(self).wf(),
    {
        match self.screen.page {
            Page::Library => self.move_in_library(direction, now),
            Page::Game { id, button } => self.move_on_page(id, button, direction),
        }
    }
}

/// One step of the controller.
pub open spec fn focus_moved(pre: App, direction: Direction, now: u64, post: App) -> bool {
    match pre.screen.page {
        Page::Library => library_moved(pre, direction, now, post),
        Page::Game { id, button } => button_moved(pre, id, button, direction, post),
    }
}

/// The focus went to an owned game by its place in the list.
pub open spec fn index_focused(pre: App, index: usize, post: App) -> bool {
    if index < loaded(pre.library.owned).len() {
        &&& post == (App { library: Library { rows: post.library.rows, ..pre.library }, ..pre })
        &&& post.library.rows@ == pre.library.rows@.with_game(
            loaded(pre.library.owned)[index as int].id,
        )
    } else {
        post == pre
    }
}

impl App {
    pub(crate) fn focus_index(&mut self, index: usize)
        requires
            old(self).wf(),
        ensures
            index_focused(*old(self), index, *final(self)),
            final(self).wf(),
    {
        let id = match &self.library.owned {
            Loadable::Loaded(games) => if index < games.len() {
                games[index].id
            } else {
                return;
            },
            _ => {
                return;
            },
        };
        self.library.rows.focus_game(id);
    }

    pub(crate) fn focus_tile(&mut self, row: usize, col: usize)
        requires
            old(self).wf(),
        ensures
            rows_became(
                *old(self),
                tab_rows(*old(self)).with_tile(row as int, col as int),
                old(self).screen.downloads_row,
                *final(self),
            ),
            final(self).wf(),
    {
        match self.screen.tab {
            Tab::Library => self.library.rows.focus_tile(row, col),
            Tab::Collections => self.shelves.collection_rows.focus_tile(row, col),
            Tab::Downloads => {},
        }
        self.set_toolbar_focus(None);
    }
}

// ---------------------------------------------------------------------------
// Pressing what has focus, and going back
// ---------------------------------------------------------------------------

/// What pressing what has focus on the library page asks for.
pub open spec fn library_press(app: App, now: u64) -> Option<Action> {
    let stops = app.stops(now);
    match app.stop_in_focus(now) {
        Some(index) => if index < stops.len() && !stops[index as int].busy {
            Some(stops[index as int].action)
        } else {
            None
        },
        None => match app.active() {
            Some(rows) => match rows.focused() {
                Some(id) if app.library.catalog@.contains_key(id) => Some(
                    Action::Open(Page::Game { id, button: 0 }),
                ),
                _ => None,
            },
            None => {
                let rows = app.download_list();
                let (row, button) = clamped(app.screen.downloads_row, rows);
                if row < rows.len() && button < rows[row as int].buttons.len() {
                    Some(rows[row as int].buttons[button as int].1)
                } else {
                    None
                }
            },
        },
    }
}

/// What pressing what has focus asks for.
pub open spec fn press(app: App, now: u64) -> Option<Action> {
    match app.screen.page {
        Page::Library => library_press(app, now),
        Page::Game { id, button } => match app.known_game(id) {
            Some(game) => {
                let buttons = app.page_buttons(game.id);
                if button < buttons.len() {
                    Some(buttons[button as int].1)
                } else {
                    None
                }
            },
            None => None,
        },
    }
}

/// Nothing changed but that an action was asked for, where there is one.
pub open spec fn maybe_asked(pre: App, action: Option<Action>, post: App) -> bool {
    match action {
        Some(action) => asked(pre, action, post),
        None => post == pre,
    }
}

/// Back: from another tab to the library, out of a search, past a notice, into the menu; from
/// a game's page to its tile.
pub open spec fn backed(pre: App, post: App) -> bool {
    match pre.screen.page {
        Page::Library => if pre.screen.tab != Tab::Library {
            asked(pre, Action::SetTab(Tab::Library), post)
        } else if pre.search.query@.len() > 0 {
            asked(pre, Action::ClearSearch, post)
        } else if pre.screen.notice is Some {
            shown(pre, Screen { notice: None, ..pre.screen }, post)
        } else {
            asked(pre, Action::Menu, post)
        },
        Page::Game { id, .. } => {
            let screen = Screen { page: Page::Library, ..pre.screen };
            match pre.screen.tab {
                Tab::Library => {
                    &&& post == (App {
                        screen,
                        library: Library { rows: post.library.rows, ..pre.library },
                        ..pre
                    })
                    &&& post.library.rows@ == pre.library.rows@.with_game(id)
                },
                Tab::Collections => {
                    &&& post == (App {
                        screen,
                        shelves: Shelves {
                            collection_rows: post.shelves.collection_rows,
                            ..pre.shelves
                        },
                        ..pre
                    })
                    &&& post.shelves.collection_rows@ == pre.shelves.collection_rows@.with_game(id)
                },
                Tab::Downloads => shown(pre, screen, post),
            }
        },
    }
}

impl App {
    fn pressed_in_library(&self, now: u64) -> (r: Option<Action>)
        ensures
            r == library_press(*self, now),
    {
        let (_, stops) = self.toolbar(now);
        let rows_empty = self.rows_empty();
        proof {
            assert(crate::app::toolbar::stop_views(stops@).len() == stops@.len());
        }
        if let Some(index) = self.toolbar_focus_in(stops.len(), rows_empty) {
            if index < stops.len() {
                assert(crate::app::toolbar::stop_views(stops@)[index as int]
                    == stops@[index as int]@);
                if !stops[index].busy {
                    return Some(stops[index].action.clone());
                }
            }
            return None;
        }
        match self.screen.tab {
            Tab::Library | Tab::Collections => {
                if let Some(id) = self.focused_tile() {
                    if self.library.catalog.contains_key(&id) {
                        return Some(Action::Open(Page::Game { id, button: 0 }));
                    }
                }
                None
            },
            Tab::Downloads => {
                let rows = self.download_rows();
                let (row, button) = self.downloads_row_in(&rows);
                if row < rows.len() {
                    assert(row_views(rows@)[row as int] == rows@[row as int]@);
                    assert(button_views(rows@[row as int].buttons@).len()
                        == rows@[row as int].buttons@.len());
                    if button < rows[row].buttons.len() {
                        return Some(rows[row].buttons[button].1.clone());
                    }
                }
                None
            },
        }
    }

    /// What pressing what has focus asks for.
    pub fn pressed(&self, now: u64) -> (r: Option<Action>)
        ensures
            r == press(*self, now),
    {
        match self.screen.page {
            Page::Library => self.pressed_in_library(now),
            Page::Game { id, button } => {
                if let Some(game) = self.game(id) {
                    let buttons = self.buttons_for(game);
                    assert(button_views(buttons@).len() == buttons@.len());
                    if button < buttons.len() {
                        return Some(buttons[button].1.clone());
                    }
                }
                None
            },
        }
    }

    pub(crate) fn activate(&mut self, now: u64)
        ensures
            maybe_asked(*old(self), press(*old(self), now), *final(self)),
    {
        if let Some(action) = self.pressed(now) {
            self.actions.push(action);
        }
    }

    pub(crate) fn back(&mut self)
        requires
            old(self).wf(),
        ensures
            backed(*old(self), *final(self)),
            final(self).wf(),
    {
        match self.screen.page {
            Page::Library => {
                if self.screen.tab != Tab::Library {
                    self.actions.push(Action::SetTab(Tab::Library));
                } else if !self.search.query.as_str().is_empty() {
                    self.actions.push(Action::ClearSearch);
                } else if self.screen.notice.is_some() {
                    self.screen.notice = None;
                } else {
                    self.actions.push(Action::Menu);
                }
            },
            Page::Game { id, .. } => {
                match self.screen.tab {
                    Tab::Library => self.library.rows.focus_game(id),
                    Tab::Collections => self.shelves.collection_rows.focus_game(id),
                    Tab::Downloads => {},
                }
                self.screen.page = Page::Library;
            },
        }
    }
}

} // verus!
