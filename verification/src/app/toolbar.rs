//! The controls above a tab's list, the menu drawer, and what the footer offers.
use vstd::prelude::*;
use vstd::string::*;
use crate::app::downloads::clamped;
use crate::app::state::{App, UP_TO_DATE_FOR};
use crate::glyphs::Glyph;
use crate::model::{Action, Direction, Page, Tab};
use crate::rows::{last_index, RowsView};
use crate::ui::{
    row_views, DownloadRow, DownloadRowView, DownloadSection, MenuItem, ToolbarControl,
};

verus! {

broadcast use vstd::std_specs::hash::group_hash_axioms;

/// A button on a tab's toolbar and what pressing it does.
#[derive(Debug, PartialEq, Eq)]
pub struct ToolbarStop {
    pub label: &'static str,
    /// Its work is under way; pressing it does nothing.
    pub busy: bool,
    pub action: Action,
}

/// A toolbar stop as the values it holds.
#[verifier::ext_equal]
pub struct StopView {
    pub label: Seq<char>,
    pub busy: bool,
    pub action: Action,
}

impl View for ToolbarStop {
    type V = StopView;

    open spec fn view(&self) -> StopView {
        StopView { label: self.label@, busy: self.busy, action: self.action }
    }
}

pub open spec fn stop_views(stops: Seq<ToolbarStop>) -> Seq<StopView> {
    stops.map_values(|s: ToolbarStop| s@)
}

/// A toolbar control as the values it holds.
pub enum ControlView {
    Filters(Seq<(Seq<char>, bool)>),
    Button { label: Seq<char>, busy: bool },
}

impl View for ToolbarControl {
    type V = ControlView;

    open spec fn view(&self) -> ControlView {
        match self {
            ToolbarControl::Filters(options) => ControlView::Filters(
                options@.map_values(|o: (&'static str, bool)| (o.0@, o.1)),
            ),
            ToolbarControl::Button { label, busy } => ControlView::Button {
                label: label@,
                busy: *busy,
            },
        }
    }
}

pub open spec fn control_views(controls: Seq<ToolbarControl>) -> Seq<ControlView> {
    controls.map_values(|c: ToolbarControl| c@)
}

/// Some row is an update of an installed upload.
pub open spec fn has_direct_update(rows: Seq<DownloadRowView>) -> bool {
    exists|i: int|
        0 <= i < rows.len() && (#[trigger] rows[i]).section == DownloadSection::Updates
            && rows[i].direct_update
}

/// Some row is a download that has ended.
pub open spec fn has_finished(rows: Seq<DownloadRowView>) -> bool {
    exists|i: int|
        0 <= i < rows.len() && (#[trigger] rows[i]).section == DownloadSection::Finished
}

/// How many options a control has.
pub open spec fn options(control: ControlView) -> Seq<Seq<char>> {
    match control {
        ControlView::Filters(options) => options.map_values(|o: (Seq<char>, bool)| o.0),
        ControlView::Button { label, .. } => seq![label],
    }
}

/// The labels of all controls, from left to right.
pub open spec fn all_options(controls: Seq<ControlView>) -> Seq<Seq<char>>
    decreases controls.len(),
{
    if controls.len() == 0 {
        Seq::empty()
    } else {
        all_options(controls.drop_last()) + options(controls.last())
    }
}

/// A stop that can be pressed.
pub open spec fn stop(label: Seq<char>, action: Action) -> StopView {
    StopView { label, busy: false, action }
}

impl App {
    /// Whether the button still reports a clean update check.
    pub open spec fn just_checked(&self, now: u64) -> bool {
        self.news.up_to_date_at matches Some(at) && (now < at || now - at < UP_TO_DATE_FOR)
    }

    pub open spec fn check_label(&self, now: u64) -> Seq<char> {
        if self.news.checking_updates {
            "Checking…"@
        } else if self.just_checked(now) {
            "Up to date"@
        } else {
            "Check for updates"@
        }
    }

    pub open spec fn playable_stop(&self) -> StopView {
        stop("Playable here"@, Action::SetPlayableOnly(!self.library.playable_only))
    }

    pub open spec fn playable_control(&self) -> ControlView {
        ControlView::Filters(seq![("Playable here"@, self.library.playable_only)])
    }

    /// One stop per button or filter option above the tab's list.
    pub open spec fn stops(&self, now: u64) -> Seq<StopView> {
        match self.screen.tab {
            Tab::Library => seq![self.playable_stop()],
            Tab::Collections => seq![
                stop("All"@, Action::SetCollectionsInstalledOnly(false)),
                stop("Installed"@, Action::SetCollectionsInstalledOnly(true)),
                self.playable_stop(),
            ],
            Tab::Downloads => {
                let rows = self.download_list();
                let check = seq![
                    StopView {
                        label: self.check_label(now),
                        busy: self.news.checking_updates,
                        action: Action::CheckUpdates,
                    },
                ];
                let all = if has_direct_update(rows) {
                    check.push(stop("Update all"@, Action::UpdateAll))
                } else {
                    check
                };
                if has_finished(rows) {
                    all.push(stop("Clear all"@, Action::ClearFinished))
                } else {
                    all
                }
            },
        }
    }

    /// The controls above the tab's list, as drawn.
    pub open spec fn controls(&self, now: u64) -> Seq<ControlView> {
        match self.screen.tab {
            Tab::Library => seq![self.playable_control()],
            Tab::Collections => seq![
                ControlView::Filters(
                    seq![
                        ("All"@, !self.shelves.collections_installed_only),
                        ("Installed"@, self.shelves.collections_installed_only),
                    ],
                ),
                self.playable_control(),
            ],
            Tab::Downloads => {
                let rows = self.download_list();
                let check = seq![
                    ControlView::Button {
                        label: self.check_label(now),
                        busy: self.news.checking_updates,
                    },
                ];
                let all = if has_direct_update(rows) {
                    check.push(ControlView::Button { label: "Update all"@, busy: false })
                } else {
                    check
                };
                if has_finished(rows) {
                    all.push(ControlView::Button { label: "Clear all"@, busy: false })
                } else {
                    all
                }
            },
        }
    }

    /// Whether the tab's list has nothing to focus, leaving the toolbar. A
    /// section can be listed with no games, a note in their place; a row
    /// with more to fetch counts as having some.
    pub open spec fn nothing_listed(&self) -> bool {
        match self.screen.tab {
            Tab::Library => self.library.rows@.without_tiles(),
            Tab::Collections => self.shelves.collection_rows@.without_tiles(),
            Tab::Downloads => self.download_list().len() == 0,
        }
    }

    /// The toolbar stop with focus on the current tab, clamped to the
    /// `stops` there are. With nothing in the list the toolbar is all there
    /// is, so focus rests on it.
    pub open spec fn focused_stop(&self, stops: nat, rows_empty: bool) -> Option<usize> {
        match self.screen.toolbar_focus.on(self.screen.tab) {
            Some(index) => Some(crate::rows::at_most(index, last_index(stops))),
            None => if rows_empty && stops > 0 {
                Some(0)
            } else {
                None
            },
        }
    }

    /// The toolbar stop with focus right now.
    pub open spec fn stop_in_focus(&self, now: u64) -> Option<usize> {
        self.focused_stop(self.stops(now).len(), self.nothing_listed())
    }

    /// The rows of the tab that has some.
    pub open spec fn active(&self) -> Option<RowsView> {
        match self.screen.tab {
            Tab::Library => Some(self.library.rows@),
            Tab::Collections => Some(self.shelves.collection_rows@),
            Tab::Downloads => None,
        }
    }

    pub fn rows_empty(&self) -> (r: bool)
        ensures
            r == self.nothing_listed(),
    {
        match self.screen.tab {
            Tab::Library => self.library.rows.no_tiles(),
            Tab::Collections => self.shelves.collection_rows.no_tiles(),
            Tab::Downloads => self.download_rows().len() == 0,
        }
    }

    /// The game under focus on a tab with rows.
    pub fn focused_tile(&self) -> (r: Option<i64>)
        ensures
            r == (match self.active() {
                Some(rows) => rows.focused(),
                None => None,
            }),
    {
        match self.screen.tab {
            Tab::Library => self.library.rows.focused_game(),
            Tab::Collections => self.shelves.collection_rows.focused_game(),
            Tab::Downloads => None,
        }
    }

    /// The controls above the tab's list, as drawn, and one stop per
    /// button or filter option, in the same order.
    pub fn toolbar(&self, now: u64) -> (r: (Vec<ToolbarControl>, Vec<ToolbarStop>))
        ensures
            control_views(r.0@) == self.controls(now),
            stop_views(r.1@) == self.stops(now),
    {
        let mut controls: Vec<ToolbarControl> = Vec::new();
        let mut stops: Vec<ToolbarStop> = Vec::new();
        let playable = ToolbarStop {
            label: "Playable here",
            busy: false,
            action: Action::SetPlayableOnly(!self.library.playable_only),
        };
        let playable_options = ToolbarControl::Filters(vec![("Playable here", self.library.playable_only)]);
        proof {
            assert(playable@ =~= self.playable_stop());
            assert(playable_options@->Filters_0 =~= self.playable_control()->Filters_0);
        }
        match self.screen.tab {
            Tab::Library => {
                controls.push(playable_options);
                stops.push(playable);
            },
            Tab::Collections => {
                let installed = self.shelves.collections_installed_only;
                let options = ToolbarControl::Filters(
                    vec![("All", !installed), ("Installed", installed)],
                );
                assert(options@->Filters_0 =~= seq![("All"@, !installed), ("Installed"@, installed)]);
                controls.push(options);
                stops.push(
                    ToolbarStop {
                        label: "All",
                        busy: false,
                        action: Action::SetCollectionsInstalledOnly(false),
                    },
                );
                stops.push(
                    ToolbarStop {
                        label: "Installed",
                        busy: false,
                        action: Action::SetCollectionsInstalledOnly(true),
                    },
                );
                controls.push(playable_options);
                stops.push(playable);
            },
            Tab::Downloads => {
                let busy = self.news.checking_updates;
                let fresh = match self.news.up_to_date_at {
                    Some(at) => now < at || now - at < UP_TO_DATE_FOR,
                    None => false,
                };
                let label = if busy {
                    "Checking…"
                } else if fresh {
                    "Up to date"
                } else {
                    "Check for updates"
                };
                controls.push(ToolbarControl::Button { label, busy });
                stops.push(ToolbarStop { label, busy, action: Action::CheckUpdates });
                let rows = self.download_rows();
                if any_direct(&rows) {
                    controls.push(ToolbarControl::Button { label: "Update all", busy: false });
                    stops.push(
                        ToolbarStop { label: "Update all", busy: false, action: Action::UpdateAll },
                    );
                }
                if any_finished(&rows) {
                    controls.push(ToolbarControl::Button { label: "Clear all", busy: false });
                    stops.push(
                        ToolbarStop {
                            label: "Clear all",
                            busy: false,
                            action: Action::ClearFinished,
                        },
                    );
                }
            },
        }
        assert(control_views(controls@) =~= self.controls(now));
        assert(stop_views(stops@) =~= self.stops(now));
        (controls, stops)
    }

    pub fn toolbar_focus_in(&self, stops: usize, rows_empty: bool) -> (r: Option<usize>)
        ensures
            r == self.focused_stop(stops as nat, rows_empty),
    {
        match self.screen.toolbar_focus.get(self.screen.tab) {
            Some(index) => {
                let last: usize = if stops == 0 {
                    0
                } else {
                    stops - 1
                };
                Some(
                    if index < last {
                        index
                    } else {
                        last
                    },
                )
            },
            None => if rows_empty && stops > 0 {
                Some(0)
            } else {
                None
            },
        }
    }
}

fn any_direct(rows: &Vec<DownloadRow<'_>>) -> (r: bool)
    ensures
        r == has_direct_update(row_views(rows@)),
{
    let ghost views = row_views(rows@);
    let mut i: usize = 0;
    while i < rows.len()
        invariant
            i <= rows@.len(),
            views == row_views(rows@),
            forall|k: int|
                0 <= k < i ==> !((#[trigger] views[k]).section == DownloadSection::Updates
                    && views[k].direct_update),
        decreases rows@.len() - i,
    {
        assert(views[i as int] == rows@[i as int]@);
        if rows[i].section == DownloadSection::Updates && rows[i].direct_update {
            return true;
        }
        i += 1;
    }
    false
}

fn any_finished(rows: &Vec<DownloadRow<'_>>) -> (r: bool)
    ensures
        r == has_finished(row_views(rows@)),
{
    let ghost views = row_views(rows@);
    let mut i: usize = 0;
    while i < rows.len()
        invariant
            i <= rows@.len(),
            views == row_views(rows@),
            forall|k: int|
                0 <= k < i ==> (#[trigger] views[k]).section != DownloadSection::Finished,
        decreases rows@.len() - i,
    {
        assert(views[i as int] == rows@[i as int]@);
        if rows[i].section == DownloadSection::Finished {
            return true;
        }
        i += 1;
    }
    false
}

// ---------------------------------------------------------------------------
// Between the toolbar and the list
// ---------------------------------------------------------------------------

/// Where a controller step lands on a tab with a toolbar above its list.
#[derive(Debug, Clone, Copy, PartialEq, Eq, Structural)]
pub enum Landing {
    Toolbar(usize),
    /// Down off the toolbar: the list's first row.
    FirstRow,
    /// A move within the list, for the list to apply.
    Rows,
}

/// Where one controller step lands.
pub open spec fn landing(
    focus: Option<usize>,
    direction: Direction,
    stops: usize,
    rows_empty: bool,
    at_first_row: bool,
) -> Landing {
    let last = last_index(stops as nat);
    match (focus, direction) {
        (Some(index), Direction::Left) => Landing::Toolbar(
            if index == 0 {
                0
            } else {
                (index - 1) as usize
            },
        ),
        (Some(index), Direction::Right) => Landing::Toolbar(
            if index < last {
                (index + 1) as usize
            } else {
                last
            },
        ),
        (Some(_), Direction::Home) => Landing::Toolbar(0),
        (Some(_), Direction::End) => Landing::Toolbar(last),
        (Some(index), Direction::Up) => Landing::Toolbar(index),
        (Some(index), Direction::Down) => if rows_empty {
            Landing::Toolbar(index)
        } else {
            Landing::FirstRow
        },
        (None, Direction::Up) => if at_first_row && stops > 0 {
            Landing::Toolbar(0)
        } else {
            Landing::Rows
        },
        (None, _) => Landing::Rows,
    }
}

/// One controller step: the toolbar's `stops` left to right on top, the
/// list below. `focus` is the toolbar stop with focus, already clamped, or
/// none while focus is in the list.
pub fn step_toolbar_focus(
    focus: Option<usize>,
    direction: Direction,
    stops: usize,
    rows_empty: bool,
    at_first_row: bool,
) -> (r: Landing)
    ensures
        r == landing(focus, direction, stops, rows_empty, at_first_row),
{
    let last: usize = if stops == 0 {
        0
    } else {
        stops - 1
    };
    match (focus, direction) {
        (Some(index), Direction::Left) => Landing::Toolbar(
            if index == 0 {
                0
            } else {
                index - 1
            },
        ),
        (Some(index), Direction::Right) => Landing::Toolbar(
            if index < last {
                index + 1
            } else {
                last
            },
        ),
        (Some(_), Direction::Home) => Landing::Toolbar(0),
        (Some(_), Direction::End) => Landing::Toolbar(last),
        (Some(index), Direction::Up) => Landing::Toolbar(index),
        (Some(index), Direction::Down) => if rows_empty {
            Landing::Toolbar(index)
        } else {
            Landing::FirstRow
        },
        (None, Direction::Up) => if at_first_row && stops > 0 {
            Landing::Toolbar(0)
        } else {
            Landing::Rows
        },
        (None, _) => Landing::Rows,
    }
}

/// From a stop that there is, a step lands on a stop that there is or in the list; from the
/// list it reaches the toolbar only from the first row, and only where there is one.
pub proof fn steps_land_on_stops(
    focus: Option<usize>,
    direction: Direction,
    stops: usize,
    rows_empty: bool,
    at_first_row: bool,
)
    requires
        focus matches Some(index) ==> index < stops,
    ensures
        landing(focus, direction, stops, rows_empty, at_first_row) matches Landing::Toolbar(index)
            ==> index < stops,
        focus is None && landing(focus, direction, stops, rows_empty, at_first_row) is Toolbar
            ==> at_first_row && direction == Direction::Up,
        focus is Some && !(direction == Direction::Down && !rows_empty) ==> landing(
            focus,
            direction,
            stops,
            rows_empty,
            at_first_row,
        ) is Toolbar,
{
}

/// Down off the toolbar and up again from the first row returns to the toolbar.
pub proof fn down_off_the_toolbar_and_back(index: usize, stops: usize)
    requires
        index < stops,
    ensures
        landing(Some(index), Direction::Down, stops, false, true) == Landing::FirstRow,
        landing(None, Direction::Up, stops, false, true) is Toolbar,
{
}

/// Without anything in the list, the focus always rests on a stop that there is.
pub proof fn empty_lists_leave_the_toolbar(app: App, now: u64)
    requires
        app.nothing_listed(),
    ensures
        app.stops(now).len() > 0,
        app.stop_in_focus(now) matches Some(index) && index < app.stops(now).len(),
{
}

/// Each option and button that is drawn has its stop, in the same order.
pub proof fn every_control_has_its_stop(app: App, now: u64)
    ensures
        all_options(app.controls(now)) == app.stops(now).map_values(|s: StopView| s.label),
{
    let controls = app.controls(now);
    let labels = app.stops(now).map_values(|s: StopView| s.label);
    reveal_with_fuel(all_options, 4);
    assert(all_options(controls) =~= labels) by {
        if app.screen.tab == Tab::Library {
            assert(controls.drop_last() =~= Seq::empty());
            assert(options(controls.last()) =~= labels);
        } else if app.screen.tab == Tab::Collections {
            let first = controls.drop_last();
            assert(first.drop_last() =~= Seq::empty());
            assert(options(first.last()) =~= labels.take(2));
            assert(options(controls.last()) =~= labels.skip(2));
        } else {
            if controls.len() == 1 {
                assert(controls.drop_last() =~= Seq::empty());
            } else if controls.len() == 2 {
                assert(controls.drop_last().drop_last() =~= Seq::empty());
            } else {
                assert(controls.drop_last().drop_last().drop_last() =~= Seq::empty());
            }
        }
    }
}

// ---------------------------------------------------------------------------
// The menu drawer
// ---------------------------------------------------------------------------

impl View for MenuItem {
    type V = StopView;

    open spec fn view(&self) -> StopView {
        StopView { label: self.label@, busy: self.busy, action: self.action }
    }
}

pub open spec fn item_views(items: Seq<MenuItem>) -> Seq<StopView> {
    items.map_values(|i: MenuItem| i@)
}

impl App {
    pub open spec fn menu_list(&self) -> Seq<StopView> {
        seq![
            StopView {
                label: if self.news.refreshing {
                    "Refreshing…"@
                } else {
                    "Refresh library"@
                },
                busy: self.news.refreshing,
                action: Action::RefreshLibrary,
            },
            stop("Quit"@, Action::Quit),
        ]
    }

    /// What the menu drawer offers, top to bottom.
    pub fn menu_items(&self) -> (r: Vec<MenuItem>)
        ensures
            item_views(r@) == self.menu_list(),
            r@.len() == 2,
    {
        let mut r: Vec<MenuItem> = Vec::new();
        r.push(
            MenuItem {
                label: if self.news.refreshing {
                    "Refreshing…"
                } else {
                    "Refresh library"
                },
                action: Action::RefreshLibrary,
                busy: self.news.refreshing,
            },
        );
        r.push(MenuItem { label: "Quit", action: Action::Quit, busy: false });
        assert(item_views(r@) =~= self.menu_list());
        r
    }
}

// ---------------------------------------------------------------------------
// The footer
// ---------------------------------------------------------------------------

/// A hint: what to press and what it does.
pub type Hint = (Glyph, String);

pub open spec fn hint_views(hints: Seq<Hint>) -> Seq<(Glyph, Seq<char>)> {
    hints.map_values(|h: Hint| (h.0, h.1@))
}

/// A hint where a condition holds.
pub open spec fn hint_if(on: bool, glyph: Glyph, label: Seq<char>) -> Seq<(Glyph, Seq<char>)> {
    if on {
        seq![(glyph, label)]
    } else {
        Seq::empty()
    }
}

/// The hint for pressing what has focus, where something has.
pub open spec fn confirm_hint(label: Option<Seq<char>>) -> Seq<(Glyph, Seq<char>)> {
    match label {
        Some(label) => seq![(Glyph::Confirm, label)],
        None => Seq::empty(),
    }
}

impl App {
    /// What pressing the focused control of the library page does, in a word.
    pub open spec fn confirm_label(&self, now: u64) -> Option<Seq<char>> {
        let stops = self.stops(now);
        match self.stop_in_focus(now) {
            Some(index) if index < stops.len() => Some(stops[index as int].label),
            _ => match self.active() {
                Some(rows) => match rows.focused() {
                    Some(_) => Some("Open"@),
                    None => None,
                },
                None => {
                    let rows = self.download_list();
                    let (row, button) = clamped(self.screen.downloads_row, rows);
                    if row < rows.len() && button < rows[row as int].buttons.len() {
                        Some(rows[row as int].buttons[button as int].0)
                    } else {
                        None
                    }
                },
            },
        }
    }

    /// What the footer offers, in reading order. The tab strip already shows the bumpers, so
    /// no hint repeats them.
    pub open spec fn footer(&self, now: u64) -> Seq<(Glyph, Seq<char>)> {
        match (self.screen.menu, self.screen.prompt, self.screen.page) {
            (Some(focus), _, _) => {
                let items = self.menu_list();
                seq![(Glyph::Navigate, "Choose"@)] + confirm_hint(
                    if focus < items.len() {
                        Some(items[focus as int].label)
                    } else {
                        None
                    },
                ) + seq![(Glyph::Back, "Close"@)]
            },
            (None, Some(prompt), _) => hint_if(
                prompt.choices@.len() > 1,
                if prompt.stacked {
                    Glyph::NavigateVertical
                } else {
                    Glyph::NavigateHorizontal
                },
                "Choose"@,
            ) + confirm_hint(
                if prompt.focus < prompt.choices@.len() {
                    Some(prompt.choices@[prompt.focus as int]@)
                } else {
                    None
                },
            ) + seq![(Glyph::Back, "Dismiss"@)],
            (None, None, Page::Library) => hint_if(
                !self.nothing_listed() || self.stops(now).len() > 1,
                Glyph::Navigate,
                "Browse"@,
            ) + confirm_hint(self.confirm_label(now)) + (if self.screen.tab == Tab::Library {
                hint_if(!self.device.handheld, Glyph::Search, "Search"@) + seq![(Glyph::Menu, "Menu"@)]
            } else {
                seq![(Glyph::Back, "Back"@)]
            }),
            (None, None, Page::Game { id, button }) => (match self.known_game(id) {
                Some(game) => {
                    let buttons = self.page_buttons(game.id);
                    hint_if(buttons.len() > 1, Glyph::NavigateHorizontal, "Choose"@) + confirm_hint(
                        if button < buttons.len() {
                            Some(buttons[button as int].0)
                        } else {
                            None
                        },
                    )
                },
                None => Seq::empty(),
            }) + seq![(Glyph::Back, "Back"@)],
        }
    }

    fn confirm(&self, now: u64) -> (r: Option<&'static str>)
        ensures
            r matches Some(label) ==> self.confirm_label(now) == Some(label@),
            r is None ==> self.confirm_label(now) is None,
    {
        let (_, stops) = self.toolbar(now);
        let rows_empty = self.rows_empty();
        proof {
            assert(stop_views(stops@).len() == stops@.len());
        }
        if let Some(index) = self.toolbar_focus_in(stops.len(), rows_empty) {
            if index < stops.len() {
                assert(stop_views(stops@)[index as int] == stops@[index as int]@);
                return Some(stops[index].label);
            }
        }
        match self.screen.tab {
            Tab::Downloads => {
                let rows = self.download_rows();
                let (row, button) = self.downloads_row_in(&rows);
                if row < rows.len() {
                    proof {
                        assert(row_views(rows@)[row as int] == rows@[row as int]@);
                        assert(rows@[row as int]@.buttons.len() == rows@[row as int].buttons@.len());
                    }
                    if button < rows[row].buttons.len() {
                        return Some(rows[row].buttons[button].0);
                    }
                }
                None
            },
            _ => match self.focused_tile() {
                Some(_) => Some("Open"),
                None => None,
            },
        }
    }

    /// What the footer offers on the current page, in reading order.
    pub fn hints(&self, now: u64) -> (r: Vec<Hint>)
        ensures
            hint_views(r@) == self.footer(now),
    {
        let mut hints: Vec<Hint> = Vec::new();
        if let Some(focus) = self.screen.menu {
            let items = self.menu_items();
            hints.push((Glyph::Navigate, "Choose".to_owned()));
            if focus < items.len() {
                assert(item_views(items@)[focus as int] == items@[focus as int]@);
                hints.push((Glyph::Confirm, items[focus].label.to_owned()));
            }
            hints.push((Glyph::Back, "Close".to_owned()));
            assert(hint_views(hints@) =~= self.footer(now));
            return hints;
        }
        if let Some(prompt) = &self.screen.prompt {
            if prompt.choices.len() > 1 {
                let glyph = if prompt.stacked {
                    Glyph::NavigateVertical
                } else {
                    Glyph::NavigateHorizontal
                };
                hints.push((glyph, "Choose".to_owned()));
            }
            if prompt.focus < prompt.choices.len() {
                hints.push((Glyph::Confirm, prompt.choices[prompt.focus].clone()));
            }
            hints.push((Glyph::Back, "Dismiss".to_owned()));
            assert(hint_views(hints@) =~= self.footer(now));
            return hints;
        }
        match self.screen.page {
            Page::Library => {
                let (_, stops) = self.toolbar(now);
                assert(stop_views(stops@).len() == stops@.len());
                let rows_empty = self.rows_empty();
                if !rows_empty || stops.len() > 1 {
                    hints.push((Glyph::Navigate, "Browse".to_owned()));
                }
                if let Some(label) = self.confirm(now) {
                    hints.push((Glyph::Confirm, label.to_owned()));
                }
                match self.screen.tab {
                    Tab::Library => {
                        if !self.device.handheld {
                            hints.push((Glyph::Search, "Search".to_owned()));
                        }
                        hints.push((Glyph::Menu, "Menu".to_owned()));
                    },
                    Tab::Collections | Tab::Downloads => {
                        hints.push((Glyph::Back, "Back".to_owned()));
                    },
                }
                assert(hint_views(hints@) =~= self.footer(now));
            },
            Page::Game { id, button } => {
                if let Some(game) = self.game(id) {
                    let buttons = self.buttons_for(game);
                    assert(crate::ui::button_views(buttons@).len() == buttons@.len());
                    if buttons.len() > 1 {
                        hints.push((Glyph::NavigateHorizontal, "Choose".to_owned()));
                    }
                    if button < buttons.len() {
                        hints.push((Glyph::Confirm, buttons[button].0.to_owned()));
                    }
                }
                hints.push((Glyph::Back, "Back".to_owned()));
                assert(hint_views(hints@) =~= self.footer(now));
            },
        }
        hints
    }
}

} // verus!
