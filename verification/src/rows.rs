//! The carousels of the home screen and which tile has focus.
use vstd::prelude::*;
use crate::model::Direction;
use crate::text::text_of;

verus! {

/// One carousel: a title and the game ids it shows.
#[derive(Debug, PartialEq, Eq)]
pub struct Section {
    pub title: String,
    pub games: Vec<i64>,
    /// What to say in place of tiles.
    pub note: Option<String>,
    /// There are more games to fetch.
    pub more: bool,
    /// The collection that the row shows.
    pub collection: Option<i64>,
}

/// A section as the values it holds.
#[verifier::ext_equal]
pub struct SectionView {
    pub title: Seq<char>,
    pub games: Seq<i64>,
    pub note: Option<Seq<char>>,
    pub more: bool,
    pub collection: Option<i64>,
}

impl View for Section {
    type V = SectionView;

    open spec fn view(&self) -> SectionView {
        SectionView {
            title: self.title@,
            games: self.games@,
            note: text_of(self.note),
            more: self.more,
            collection: self.collection,
        }
    }
}

pub open spec fn section_views(sections: Seq<Section>) -> Seq<SectionView> {
    sections.map_values(|s: Section| s@)
}

/// The home screen's rows of carousels and which tile has focus. Drawing
/// records scroll positions; actions move the focus.
#[derive(Debug)]
pub struct Rows {
    pub sections: Vec<Section>,
    pub row: usize,
    /// Where focus sits in each row, so moving down and back up returns to
    /// the same tile, the way console home screens behave.
    pub cols: Vec<usize>,
    /// Scroll so the focused tile is in view on the next frame.
    pub follow: bool,
}

/// The rows as the values they hold.
#[verifier::ext_equal]
pub struct RowsView {
    pub sections: Seq<SectionView>,
    pub row: usize,
    pub cols: Seq<usize>,
    pub follow: bool,
}

impl View for Rows {
    type V = RowsView;

    open spec fn view(&self) -> RowsView {
        RowsView {
            sections: section_views(self.sections@),
            row: self.row,
            cols: self.cols@,
            follow: self.follow,
        }
    }
}

/// The last index of a list of that length; 0 for an empty one.
pub open spec fn last_index(len: nat) -> usize {
    if len == 0 {
        0
    } else {
        (len - 1) as usize
    }
}

pub open spec fn at_most(a: usize, b: usize) -> usize {
    if a < b {
        a
    } else {
        b
    }
}

/// Where an id first stands; the length if it does not.
pub open spec fn place_of(games: Seq<i64>, id: i64) -> int
    decreases games.len(),
{
    if games.len() == 0 || games[0] == id {
        0
    } else {
        1 + place_of(games.skip(1), id)
    }
}

proof fn lemma_place_of(games: Seq<i64>, id: i64, at: int)
    requires
        0 <= at <= games.len(),
        forall|j: int| 0 <= j < at ==> games[j] != id,
        at < games.len() ==> games[at] == id,
    ensures
        place_of(games, id) == at,
    decreases games.len(),
{
    if at > 0 {
        assert forall|j: int| 0 <= j < at - 1 implies games.skip(1)[j] != id by {
            assert(games.skip(1)[j] == games[j + 1]);
        }
        lemma_place_of(games.skip(1), id, at - 1);
    }
}

proof fn lemma_place_found(games: Seq<i64>, id: i64)
    ensures
        0 <= place_of(games, id) <= games.len(),
        place_of(games, id) < games.len() ==> games[place_of(games, id)] == id,
        place_of(games, id) < games.len() <==> games.contains(id),
    decreases games.len(),
{
    if games.len() > 0 && games[0] != id {
        let rest = games.skip(1);
        lemma_place_found(rest, id);
        if games.contains(id) {
            let j = choose|j: int| 0 <= j < games.len() && games[j] == id;
            assert(rest[j - 1] == id);
        }
        if rest.contains(id) {
            let j = choose|j: int| 0 <= j < rest.len() && rest[j] == id;
            assert(games[j + 1] == id);
        }
    }
}

/// The first row from `from` on that shows a game; the number of rows if none does.
pub open spec fn row_of(sections: Seq<SectionView>, id: i64, from: int) -> int
    decreases sections.len() - from,
{
    if from >= sections.len() || sections[from].games.contains(id) {
        from
    } else {
        row_of(sections, id, from + 1)
    }
}

proof fn lemma_row_found(sections: Seq<SectionView>, id: i64, from: int)
    requires
        0 <= from <= sections.len(),
    ensures
        from <= row_of(sections, id, from) <= sections.len(),
        row_of(sections, id, from) < sections.len() ==> sections[row_of(
            sections,
            id,
            from,
        )].games.contains(id),
        (exists|r: int| from <= r < sections.len() && (#[trigger] sections[r]).games.contains(id))
            ==> row_of(sections, id, from) < sections.len(),
    decreases sections.len() - from,
{
    if from < sections.len() && !sections[from].games.contains(id) {
        lemma_row_found(sections, id, from + 1);
    }
}

impl RowsView {
    /// One focused column per row, each on a tile where the row has any, and a focused row
    /// where there are rows.
    pub open spec fn wf(self) -> bool {
        &&& self.cols.len() == self.sections.len()
        &&& self.sections.len() <= usize::MAX
        &&& self.row <= last_index(self.sections.len())
        &&& forall|r: int|
            0 <= r < self.sections.len() ==> (#[trigger] self.cols[r]) <= last_index(
                self.sections[r].games.len(),
            )
        &&& forall|r: int|
            0 <= r < self.sections.len() ==> (#[trigger] self.sections[r]).games.len()
                <= usize::MAX
    }

    /// The column with focus.
    pub open spec fn column(self) -> usize {
        if self.row < self.cols.len() {
            self.cols[self.row as int]
        } else {
            0
        }
    }

    /// The game under focus.
    pub open spec fn focused(self) -> Option<i64> {
        if self.row < self.sections.len() && self.column() < self.sections[self.row as
            int].games.len() {
            Some(self.sections[self.row as int].games[self.column() as int])
        } else {
            None
        }
    }

    /// Focus on a tile, where there is one.
    pub open spec fn with_tile(self, row: int, col: int) -> RowsView {
        if 0 <= row < self.sections.len() && 0 <= col < self.sections[row].games.len() {
            RowsView { row: row as usize, cols: self.cols.update(row, col as usize), ..self }
        } else {
            self
        }
    }

    /// The row in which a game is looked for: the focused one where it shows the game, else
    /// the first that does.
    pub open spec fn row_for(self, id: i64) -> int {
        if self.row < self.sections.len() && self.sections[self.row as int].games.contains(id) {
            self.row as int
        } else {
            row_of(self.sections, id, 0)
        }
    }

    /// Whether any row shows the game.
    pub open spec fn shows(self, id: i64) -> bool {
        exists|r: int| 0 <= r < self.sections.len() && (#[trigger] self.sections[r]).games.contains(
            id,
        )
    }

    /// Focus on a game, where a row shows it, scrolled into view.
    pub open spec fn with_game(self, id: i64) -> RowsView {
        let row = self.row_for(id);
        if row < self.sections.len() {
            RowsView {
                follow: true,
                ..self.with_tile(row, place_of(self.sections[row].games, id))
            }
        } else {
            self
        }
    }

    /// Other sections, with the focus where it was as far as they reach.
    pub open spec fn reshaped(self, sections: Seq<SectionView>) -> RowsView {
        RowsView {
            sections,
            row: at_most(self.row, last_index(sections.len())),
            cols: Seq::new(
                sections.len(),
                |r: int|
                    at_most(
                        if r < self.cols.len() {
                            self.cols[r]
                        } else {
                            0
                        },
                        last_index(sections[r].games.len()),
                    ),
            ),
            follow: self.follow,
        }
    }

    /// Other sections, still pointing at the same game where one of them shows it.
    pub open spec fn with_sections(self, sections: Seq<SectionView>) -> RowsView {
        if sections == self.sections {
            self
        } else {
            let next = self.reshaped(sections);
            match self.focused() {
                Some(id) if next.focused() != Some(id) => next.with_game(id),
                _ => next,
            }
        }
    }

    /// One step of the controller.
    pub open spec fn moved(self, direction: Direction) -> RowsView {
        if self.sections.len() == 0 {
            self
        } else {
            let row = self.row as int;
            let col = self.column();
            let last = last_index(self.sections[row].games.len());
            let next = match direction {
                Direction::Left => RowsView {
                    cols: self.cols.update(row, (if col == 0 { 0 } else { col - 1 }) as usize),
                    ..self
                },
                Direction::Right => RowsView {
                    cols: self.cols.update(row, (if col < last { col + 1 } else { last as int }) as usize),
                    ..self
                },
                Direction::Home => RowsView { cols: self.cols.update(row, 0), ..self },
                Direction::End => RowsView { cols: self.cols.update(row, last), ..self },
                Direction::Up => RowsView {
                    row: (if self.row == 0 { 0 } else { self.row - 1 }) as usize,
                    ..self
                },
                Direction::Down => RowsView {
                    row: (if row < self.sections.len() - 1 { row + 1 } else {
                        self.sections.len() - 1
                    }) as usize,
                    ..self
                },
            };
            RowsView { follow: true, ..next }
        }
    }
}

/// Whether two lists of ids are the same.
fn same_ids(a: &Vec<i64>, b: &Vec<i64>) -> (r: bool)
    ensures
        r == (a@ == b@),
{
    if a.len() != b.len() {
        return false;
    }
    let mut i: usize = 0;
    while i < a.len()
        invariant
            a@.len() == b@.len(),
            i <= a@.len(),
            forall|j: int| 0 <= j < i ==> a@[j] == b@[j],
        decreases a@.len() - i,
    {
        if a[i] != b[i] {
            assert(a@[i as int] != b@[i as int]);
            return false;
        }
        i += 1;
    }
    assert(a@ =~= b@);
    true
}

impl Section {
    /// Whether two sections show the same.
    pub fn same(&self, other: &Section) -> (r: bool)
        ensures
            r == (self@ == other@),
    {
        let notes = match (&self.note, &other.note) {
            (Some(a), Some(b)) => *a == *b,
            (None, None) => true,
            _ => false,
        };
        let collections = match (self.collection, other.collection) {
            (Some(a), Some(b)) => a == b,
            (None, None) => true,
            _ => false,
        };
        let r = self.title == other.title && same_ids(&self.games, &other.games) && notes
            && self.more == other.more && collections;
        assert(r ==> self@ =~= other@);
        r
    }
}

/// Whether two lists of sections show the same.
pub fn same_sections(a: &Vec<Section>, b: &Vec<Section>) -> (r: bool)
    ensures
        r == (section_views(a@) == section_views(b@)),
{
    if a.len() != b.len() {
        assert(section_views(a@).len() != section_views(b@).len());
        return false;
    }
    let mut i: usize = 0;
    while i < a.len()
        invariant
            a@.len() == b@.len(),
            i <= a@.len(),
            forall|j: int| 0 <= j < i ==> (#[trigger] a@[j])@ == b@[j]@,
        decreases a@.len() - i,
    {
        if !a[i].same(&b[i]) {
            assert(section_views(a@)[i as int] != section_views(b@)[i as int]);
            return false;
        }
        i += 1;
    }
    assert(section_views(a@) =~= section_views(b@));
    true
}

/// Where an id first stands.
fn find_id(games: &Vec<i64>, id: i64) -> (r: Option<usize>)
    ensures
        r matches Some(i) ==> i < games@.len() && place_of(games@, id) == i && games@.contains(id),
        r is None ==> !games@.contains(id),
{
    let mut i: usize = 0;
    while i < games.len()
        invariant
            i <= games@.len(),
            forall|j: int| 0 <= j < i ==> games@[j] != id,
        decreases games@.len() - i,
    {
        if games[i] == id {
            proof {
                lemma_place_of(games@, id, i as int);
            }
            assert(games@[i as int] == id);
            return Some(i);
        }
        i += 1;
    }
    None
}

/// No rows at all, and nothing to scroll to.
pub open spec fn no_rows() -> RowsView {
    RowsView { sections: Seq::empty(), row: 0, cols: Seq::empty(), follow: false }
}

impl Rows {
    /// No rows at all.
    pub fn new() -> (r: Self)
        ensures
            r@ == no_rows(),
            r@.wf(),
    {
        let r = Rows { sections: Vec::new(), row: 0, cols: Vec::new(), follow: false };
        assert(r@ =~= no_rows());
        r
    }

    pub fn col(&self) -> (r: usize)
        ensures
            r == self@.column(),
    {
        if self.row < self.cols.len() {
            self.cols[self.row]
        } else {
            0
        }
    }

    /// The game id under focus.
    pub fn focused_game(&self) -> (r: Option<i64>)
        ensures
            r == self@.focused(),
    {
        if self.row < self.sections.len() {
            let games = &self.sections[self.row].games;
            let col = self.col();
            if col < games.len() {
                return Some(games[col]);
            }
        }
        None
    }

    pub fn focus_tile(&mut self, row: usize, col: usize)
        requires
            old(self)@.wf(),
        ensures
            final(self)@ == old(self)@.with_tile(row as int, col as int),
            final(self)@.wf(),
    {
        if row < self.sections.len() {
            if col < self.sections[row].games.len() {
                self.row = row;
                self.cols[row] = col;
            }
        }
        assert(self@ =~= old(self)@.with_tile(row as int, col as int));
    }

    /// The row and column to focus for a game.
    fn tile_for(&self, id: i64) -> (r: Option<(usize, usize)>)
        ensures
            r matches Some((row, col)) ==> row < self@.sections.len() && row == self@.row_for(id)
                && col == place_of(self@.sections[row as int].games, id) && col
                < self@.sections[row as int].games.len(),
            r is None ==> self@.row_for(id) == self@.sections.len(),
    {
        proof {
            lemma_row_found(self@.sections, id, 0);
        }
        if self.row < self.sections.len() {
            if let Some(col) = find_id(&self.sections[self.row].games, id) {
                return Some((self.row, col));
            }
        }
        let mut row: usize = 0;
        while row < self.sections.len()
            invariant
                row <= self.sections@.len(),
                self.row < self.sections@.len() ==> !self@.sections[self.row as int].games.contains(id),
                row_of(self@.sections, id, row as int) == row_of(self@.sections, id, 0),
            decreases self.sections@.len() - row,
        {
            if let Some(col) = find_id(&self.sections[row].games, id) {
                return Some((row, col));
            }
            row += 1;
        }
        None
    }

    /// Focuses a game by id, preferring the current row.
    pub fn focus_game(&mut self, id: i64)
        requires
            old(self)@.wf(),
        ensures
            final(self)@ == old(self)@.with_game(id),
            final(self)@.wf(),
    {
        if let Some((row, col)) = self.tile_for(id) {
            self.focus_tile(row, col);
            self.follow = true;
        }
    }

    /// Replaces the rows. The focus stays on the game it was on, where a row still shows it.
    pub fn set_sections(&mut self, sections: Vec<Section>)
        requires
            old(self)@.wf(),
        ensures
            final(self)@ == old(self)@.with_sections(section_views(sections@)),
            final(self)@.wf(),
    {
        if same_sections(&sections, &self.sections) {
            return;
        }
        let ghost before = self@;
        let ghost views = section_views(sections@);
        let focused = self.focused_game();
        let mut cols: Vec<usize> = Vec::new();
        let mut r: usize = 0;
        while r < sections.len()
            invariant
                r <= sections@.len(),
                self@ == before,
                views == section_views(sections@),
                cols@ == before.reshaped(views).cols.take(r as int),
            decreases sections@.len() - r,
        {
            let count = sections[r].games.len();
            let last: usize = if count == 0 {
                0
            } else {
                count - 1
            };
            let col: usize = if r < self.cols.len() {
                self.cols[r]
            } else {
                0
            };
            cols.push(if col < last {
                col
            } else {
                last
            });
            r += 1;
        }
        let last: usize = if sections.len() == 0 {
            0
        } else {
            sections.len() - 1
        };
        if self.row > last {
            self.row = last;
        }
        self.sections = sections;
        self.cols = cols;
        proof {
            assert(self@ =~= before.reshaped(views));
            assert forall|r: int| 0 <= r < self@.sections.len() implies (
            #[trigger] self@.sections[r]).games.len() <= usize::MAX by {
                let count = self.sections@[r].games.len();
                assert(self@.sections[r].games == self.sections@[r].games@);
            }
        }
        if let Some(id) = focused {
            let still = match self.focused_game() {
                Some(now) => now == id,
                None => false,
            };
            if !still {
                self.focus_game(id);
            }
        }
    }

    /// One step of the controller.
    pub fn move_focus(&mut self, direction: Direction)
        requires
            old(self)@.wf(),
        ensures
            final(self)@ == old(self)@.moved(direction),
            final(self)@.wf(),
    {
        if self.sections.len() == 0 {
            return;
        }
        let ghost before = self@;
        let row = self.row;
        let col = self.col();
        let count = self.sections[row].games.len();
        let last: usize = if count == 0 {
            0
        } else {
            count - 1
        };
        match direction {
            Direction::Left => {
                self.cols[row] = if col == 0 {
                    0
                } else {
                    col - 1
                };
            },
            Direction::Right => {
                self.cols[row] = if col < last {
                    col + 1
                } else {
                    last
                };
            },
            Direction::Home => {
                self.cols[row] = 0;
            },
            Direction::End => {
                self.cols[row] = last;
            },
            Direction::Up => {
                self.row = if row == 0 {
                    0
                } else {
                    row - 1
                };
            },
            Direction::Down => {
                self.row = if row < self.sections.len() - 1 {
                    row + 1
                } else {
                    self.sections.len() - 1
                };
            },
        }
        self.follow = true;
        assert(self@ =~= before.moved(direction));
    }

    /// Whether there is no tile to focus in any row, and none to fetch.
    pub fn no_tiles(&self) -> (r: bool)
        ensures
            r == self@.without_tiles(),
    {
        let mut i: usize = 0;
        while i < self.sections.len()
            invariant
                i <= self.sections@.len(),
                forall|r: int|
                    0 <= r < i ==> (#[trigger] self@.sections[r]).games.len() == 0
                        && !self@.sections[r].more,
            decreases self.sections@.len() - i,
        {
            assert(self@.sections[i as int] == self.sections@[i as int]@);
            if self.sections[i].games.len() > 0 || self.sections[i].more {
                return false;
            }
            i += 1;
        }
        true
    }
}

impl RowsView {
    /// No row has a tile, and none has more to fetch.
    pub open spec fn without_tiles(self) -> bool {
        forall|r: int|
            0 <= r < self.sections.len() ==> (#[trigger] self.sections[r]).games.len() == 0
                && !self.sections[r].more
    }
}

// ---------------------------------------------------------------------------
// What holds of the rows as a whole
// ---------------------------------------------------------------------------

/// Focusing a game that some row shows puts the focus on it; focusing one that none shows
/// changes nothing.
pub proof fn focusing_a_game_finds_it(rows: RowsView, id: i64)
    requires
        rows.wf(),
    ensures
        rows.shows(id) ==> rows.with_game(id).focused() == Some(id) && rows.with_game(id).follow,
        !rows.shows(id) ==> rows.with_game(id) == rows,
        rows.with_game(id).sections == rows.sections,
{
    lemma_row_found(rows.sections, id, 0);
    let row = rows.row_for(id);
    if row < rows.sections.len() {
        lemma_place_found(rows.sections[row].games, id);
        assert(rows.sections[row].games.contains(id));
    }
}

/// When the rows are replaced, the focus stays on its game as long as some row still
/// shows it.
pub proof fn new_sections_keep_the_focused_game(rows: RowsView, sections: Seq<SectionView>, id: i64)
    requires
        rows.wf(),
        rows.focused() == Some(id),
        rows.reshaped(sections).wf(),
        rows.reshaped(sections).shows(id),
    ensures
        rows.with_sections(sections).focused() == Some(id),
        rows.with_sections(sections).sections == sections,
{
    focusing_a_game_finds_it(rows.reshaped(sections), id);
}

/// Replacing the rows by the same rows changes nothing, and replacing them twice by the
/// same ones is replacing them once.
pub proof fn same_sections_change_nothing(rows: RowsView, sections: Seq<SectionView>)
    requires
        rows.wf(),
    ensures
        rows.with_sections(rows.sections) == rows,
        rows.with_sections(sections).with_sections(sections) == rows.with_sections(sections),
{
    let next = rows.reshaped(sections);
    if let Some(id) = rows.focused() {
        assert(next.with_game(id).sections == sections);
    }
}

/// Moving down and back up, or up and back down, returns to the same tile.
pub proof fn down_and_up_return_to_the_tile(rows: RowsView)
    requires
        rows.wf(),
    ensures
        rows.row + 1 < rows.sections.len() ==> rows.moved(Direction::Down).moved(
            Direction::Up,
        ).focused() == rows.focused(),
        rows.row > 0 ==> rows.moved(Direction::Up).moved(Direction::Down).focused()
            == rows.focused(),
{
}

/// A step sideways stays in its row and leaves the other rows as they are; a step up or
/// down moves no column.
pub proof fn steps_keep_to_their_axis(rows: RowsView, direction: Direction)
    requires
        rows.wf(),
    ensures
        rows.moved(direction).sections == rows.sections,
        direction == Direction::Up || direction == Direction::Down ==> rows.moved(direction).cols
            == rows.cols,
        direction != Direction::Up && direction != Direction::Down ==> rows.moved(direction).row
            == rows.row && forall|r: int|
            0 <= r < rows.cols.len() && r != rows.row ==> rows.moved(direction).cols[r]
                == rows.cols[r],
{
}

/// A step to the left puts the focus on the tile to the left in the same row, a step to the
/// right on the tile to the right; at either end of the row the focus stays where it is.
pub proof fn sideways_steps_go_to_the_next_tile(rows: RowsView)
    requires
        rows.wf(),
        rows.row < rows.sections.len(),
        rows.sections[rows.row as int].games.len() > 0,
    ensures
        ({
            let games = rows.sections[rows.row as int].games;
            let at = rows.cols[rows.row as int] as int;
            let left = rows.moved(Direction::Left);
            let right = rows.moved(Direction::Right);
            &&& rows.focused() == Some(games[at])
            &&& left.row == rows.row && right.row == rows.row
            &&& at > 0 ==> left.focused() == Some(games[at - 1]) && left.cols[rows.row as int] == at - 1
            &&& at == 0 ==> left.focused() == Some(games[0])
            &&& at + 1 < games.len() ==> right.focused() == Some(games[at + 1])
                && right.cols[rows.row as int] == at + 1
            &&& at + 1 == games.len() ==> right.focused() == Some(games[at])
        }),
{
}

/// A step to the left undoes a step to the right that moved the focus, and the other way
/// round.
pub proof fn left_and_right_undo_each_other(rows: RowsView)
    requires
        rows.wf(),
        rows.row < rows.sections.len(),
    ensures
        rows.cols[rows.row as int] + 1 < rows.sections[rows.row as int].games.len()
            ==> rows.moved(Direction::Right).moved(Direction::Left).focused() == rows.focused()
            && rows.moved(Direction::Right).moved(Direction::Left).cols == rows.cols
            && rows.moved(Direction::Right).focused() == Some(
            rows.sections[rows.row as int].games[rows.cols[rows.row as int] + 1],
        ),
        rows.cols[rows.row as int] > 0 ==> rows.moved(Direction::Left).moved(
            Direction::Right,
        ).focused() == rows.focused() && rows.moved(Direction::Left).moved(Direction::Right).cols
            == rows.cols && rows.moved(Direction::Left).focused() == Some(
            rows.sections[rows.row as int].games[rows.cols[rows.row as int] - 1],
        ),
{
    assert(rows.cols[rows.row as int] <= last_index(rows.sections[rows.row as int].games.len()));
    if rows.cols[rows.row as int] + 1 < rows.sections[rows.row as int].games.len() {
        assert(rows.moved(Direction::Right).moved(Direction::Left).cols =~= rows.cols);
    }
    if rows.cols[rows.row as int] > 0 {
        assert(rows.moved(Direction::Left).moved(Direction::Right).cols =~= rows.cols);
    }
}

/// Home goes to the first tile of the row and End to the last.
pub proof fn home_and_end_reach_the_ends_of_the_row(rows: RowsView)
    requires
        rows.wf(),
        rows.row < rows.sections.len(),
        rows.sections[rows.row as int].games.len() > 0,
    ensures
        rows.moved(Direction::Home).focused() == Some(rows.sections[rows.row as int].games[0]),
        rows.moved(Direction::Home).cols[rows.row as int] == 0,
        rows.moved(Direction::End).focused() == Some(rows.sections[rows.row as int].games.last()),
        rows.moved(Direction::End).cols[rows.row as int] + 1
            == rows.sections[rows.row as int].games.len(),
        rows.moved(Direction::Home).row == rows.row && rows.moved(Direction::End).row == rows.row,
{
}

/// A step up goes to the row above and a step down to the one below, onto the tile that had
/// the focus there last; from the first row there is no way up and from the last none down.
pub proof fn steps_up_and_down_go_to_the_next_row(rows: RowsView)
    requires
        rows.wf(),
        rows.sections.len() > 0,
    ensures
        rows.row > 0 ==> rows.moved(Direction::Up).row == rows.row - 1 && (
        rows.sections[rows.row - 1].games.len() > 0 ==> rows.moved(Direction::Up).focused() == Some(
            rows.sections[rows.row - 1].games[rows.cols[rows.row - 1] as int],
        )),
        rows.row + 1 < rows.sections.len() ==> rows.moved(Direction::Down).row == rows.row + 1 && (
        rows.sections[rows.row + 1].games.len() > 0 ==> rows.moved(Direction::Down).focused()
            == Some(rows.sections[rows.row + 1].games[rows.cols[rows.row + 1] as int])),
        rows.row == 0 ==> rows.moved(Direction::Up).row == 0,
        rows.row + 1 == rows.sections.len() ==> rows.moved(Direction::Down).row == rows.row,
        rows.moved(Direction::Up).focused() is None ==> (if rows.row > 0 {
            rows.sections[rows.row - 1].games.len() == 0
        } else {
            rows.sections[0].games.len() == 0
        }),
{
    if rows.row > 0 {
        assert(rows.cols[rows.row - 1] <= last_index(rows.sections[rows.row - 1].games.len()));
    }
    if rows.row + 1 < rows.sections.len() {
        assert(rows.cols[rows.row + 1] <= last_index(rows.sections[rows.row + 1].games.len()));
    }
    assert(rows.cols[rows.row as int] <= last_index(rows.sections[rows.row as int].games.len()));
}

/// Every step of the controller scrolls the focused tile into view.
pub proof fn steps_scroll_into_view(rows: RowsView, direction: Direction)
    requires
        rows.wf(),
        rows.sections.len() > 0,
    ensures
        rows.moved(direction).follow,
{
}

/// A tile that is pointed at gets the focus; where there is no such tile nothing changes. The
/// other rows keep their places.
pub proof fn pointing_at_a_tile_focuses_it(rows: RowsView, row: int, col: int)
    requires
        rows.wf(),
    ensures
        0 <= row < rows.sections.len() && 0 <= col < rows.sections[row].games.len() ==> {
            &&& rows.with_tile(row, col).focused() == Some(rows.sections[row].games[col])
            &&& rows.with_tile(row, col).row == row
            &&& rows.with_tile(row, col).cols[row] == col
            &&& forall|r: int|
                0 <= r < rows.cols.len() && r != row ==> rows.with_tile(row, col).cols[r]
                    == rows.cols[r]
        },
        !(0 <= row < rows.sections.len() && 0 <= col < rows.sections[row].games.len())
            ==> rows.with_tile(row, col) == rows,
        rows.with_tile(row, col).sections == rows.sections,
{
}

/// A game that the focused row shows is found there, and no row is left for another; the
/// first row that shows it is taken otherwise. Within a row its first tile is taken.
pub proof fn games_are_found_near_the_focus(rows: RowsView, id: i64)
    requires
        rows.wf(),
        rows.shows(id),
    ensures
        ({
            let found = rows.with_game(id);
            &&& found.row < rows.sections.len()
            &&& rows.sections[found.row as int].games.contains(id)
            &&& rows.sections[rows.row as int].games.contains(id) ==> found.row == rows.row
            &&& !rows.sections[rows.row as int].games.contains(id) ==> forall|r: int|
                0 <= r < found.row ==> !(#[trigger] rows.sections[r]).games.contains(id)
            &&& forall|c: int|
                0 <= c < found.cols[found.row as int] ==> rows.sections[found.row as int].games[c]
                    != id
        }),
{
    focusing_a_game_finds_it(rows, id);
    lemma_row_found(rows.sections, id, 0);
    lemma_first_row(rows.sections, id, 0);
    let row = rows.row_for(id);
    lemma_place_found(rows.sections[row].games, id);
    lemma_first_place(rows.sections[row].games, id);
}

proof fn lemma_first_row(sections: Seq<SectionView>, id: i64, from: int)
    requires
        0 <= from <= sections.len(),
    ensures
        forall|r: int|
            from <= r < row_of(sections, id, from) ==> !(#[trigger] sections[r]).games.contains(id),
    decreases sections.len() - from,
{
    if from < sections.len() && !sections[from].games.contains(id) {
        lemma_first_row(sections, id, from + 1);
    }
}

proof fn lemma_first_place(games: Seq<i64>, id: i64)
    ensures
        forall|c: int| 0 <= c < place_of(games, id) && c < games.len() ==> games[c] != id,
    decreases games.len(),
{
    if games.len() > 0 && games[0] != id {
        lemma_first_place(games.skip(1), id);
        assert forall|c: int| 0 <= c < place_of(games, id) && c < games.len() implies games[c]
            != id by {
            if c > 0 {
                assert(games.skip(1)[c - 1] == games[c]);
            }
        }
    }
}

/// When the focused game is gone from the rows, the focus stays at its place, or at the
/// nearest that is left: the same row, or the last one where there are fewer, and in each row
/// the same column, or the last tile where there are fewer.
pub proof fn gone_games_leave_the_focus_in_place(rows: RowsView, sections: Seq<SectionView>, r: int)
    requires
        rows.wf(),
        sections.len() <= usize::MAX,
        forall|k: int| 0 <= k < sections.len() ==> (#[trigger] sections[k]).games.len() <= usize::MAX,
        rows.focused() matches Some(id) ==> forall|k: int|
            0 <= k < sections.len() ==> !(#[trigger] sections[k]).games.contains(id),
        0 <= r < sections.len(),
    ensures
        ({
            let next = rows.with_sections(sections);
            &&& next.sections == sections
            &&& rows.row < sections.len() ==> next.row == rows.row
            &&& rows.row >= sections.len() ==> next.row + 1 == sections.len()
            &&& r < rows.cols.len() && rows.cols[r] < sections[r].games.len() ==> next.cols[r]
                == rows.cols[r]
            &&& r < rows.cols.len() && 0 < sections[r].games.len() <= rows.cols[r]
                ==> next.cols[r] + 1 == sections[r].games.len()
            &&& r >= rows.cols.len() ==> next.cols[r] == 0
        }),
{
    let next = rows.reshaped(sections);
    if sections != rows.sections {
        if let Some(id) = rows.focused() {
            lemma_row_found(sections, id, 0);
            assert(!next.shows(id));
            if next.row < sections.len() {
                assert(!sections[next.row as int].games.contains(id));
            }
        }
    }
}

/// Rows that are given other sections show those, and nothing that they showed before.
pub proof fn rows_show_the_sections_they_are_given(rows: RowsView, sections: Seq<SectionView>)
    ensures
        rows.with_sections(sections).sections == sections,
{
}

/// There is nothing to point at exactly where no row has a tile or more to fetch.
pub proof fn rows_without_tiles_have_nothing_to_point_at(rows: RowsView, r: int)
    requires
        rows.wf(),
    ensures
        rows.without_tiles() ==> rows.focused() is None,
        0 <= r < rows.sections.len() && rows.sections[r].games.len() > 0 ==> !rows.without_tiles(),
        0 <= r < rows.sections.len() && rows.sections[r].more ==> !rows.without_tiles(),
        rows.sections.len() == 0 ==> rows.without_tiles(),
{
}

} // verus!
