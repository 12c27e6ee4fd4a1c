//! The grid and its step function.

use vstd::prelude::*;
use crate::cell::State;

verus! {

/// A grid of cells, stored row by row: `raw[y][x]` is the cell in column `x`
/// of row `y`.
///
/// [`Field::new`] makes every row the same length, but nothing here depends
/// on that: a cell is stored exactly when its row exists and is long enough,
/// and every other coordinate is outside the grid.
pub struct Field {
    pub raw: Vec<Vec<State>>,
}

impl View for Field {
    type V = Seq<Seq<State>>;

    /// The rows of the grid, each as a sequence of states.
    open spec fn view(&self) -> Seq<Seq<State>> {
        Seq::new(self.raw@.len(), |y: int| self.raw@[y]@)
    }
}

impl Field {
    /// Whether `(x, y)` names a stored cell.
    pub open spec fn contains(&self, x: int, y: int) -> bool {
        0 <= y < self@.len() && 0 <= x < self@[y].len()
    }

    /// The state at `(x, y)`: the stored state inside the grid, `S2`
    /// everywhere else.
    pub open spec fn cell(&self, x: int, y: int) -> State {
        if self.contains(x, y) {
            self@[y][x]
        } else {
            State::S2
        }
    }

    /// Whether the grid has exactly `height` rows of `width` cells each.
    pub open spec fn has_shape(&self, width: nat, height: nat) -> bool {
        &&& self@.len() == height
        &&& forall|y: int| 0 <= y < height ==> (#[trigger] self@[y]).len() == width
    }

    /// Whether no stored cell is in state `S2`, so that `S2` is seen only
    /// outside the grid.
    pub open spec fn boundary_free(&self) -> bool {
        forall|x: int, y: int| self.contains(x, y) ==> self.cell(x, y) != State::S2
    }

    /// Creates a grid of `max_y` rows of `max_x` cells, every cell in state
    /// `default`. Any dimensions are accepted, including zero.
    pub fn new(max_x: usize, max_y: usize, default: State) -> (field: Field)
        ensures
            field.has_shape(max_x as nat, max_y as nat),
            forall|x: int, y: int| field.contains(x, y) ==> field.cell(x, y) == default,
            default != State::S2 ==> field.boundary_free(),
    {
        let mut vec_y: Vec<Vec<State>> = Vec::new();
        let mut y: usize = 0;
        while y < max_y
            invariant
                y <= max_y,
                vec_y@.len() == y,
                forall|j: int| 0 <= j < y ==> (#[trigger] vec_y@[j])@.len() == max_x,
                forall|j: int, i: int| 0 <= j < y && 0 <= i < max_x ==> vec_y@[j]@[i] == default,
            decreases max_y - y,
        {
            let mut vec_x: Vec<State> = Vec::new();
            let mut x: usize = 0;
            while x < max_x
                invariant
                    x <= max_x,
                    vec_x@.len() == x,
                    forall|i: int| 0 <= i < x ==> vec_x@[i] == default,
                decreases max_x - x,
            {
                vec_x.push(default);
                x += 1;
            }
            vec_y.push(vec_x);
            y += 1;
        }
        Field { raw: vec_y }
    }

    /// The eight cells around `(x, y)`, in a fixed order: the row above from
    /// left to right, then the right and the left neighbour, then the row
    /// below from right to left. "Above" is the row `y + 1`.
    pub open spec fn around(&self, x: int, y: int) -> Seq<State> {
        seq![
            self.cell(x - 1, y + 1),
            self.cell(x, y + 1),
            self.cell(x + 1, y + 1),
            self.cell(x + 1, y),
            self.cell(x - 1, y),
            self.cell(x + 1, y - 1),
            self.cell(x, y - 1),
            self.cell(x - 1, y - 1),
        ]
    }

    /// How many of the eight cells around `(x, y)` are alive.
    pub open spec fn alive_around(&self, x: int, y: int) -> nat {
        alive_count(self.around(x, y))
    }

    /// The state of `(x, y)` one generation later.
    pub open spec fn next(&self, x: int, y: int) -> State {
        next_state(self.cell(x, y), self.alive_around(x, y))
    }

    /// The grid one generation later: the same shape, with every stored cell
    /// replaced by its next state.
    pub open spec fn next_generation(&self) -> Seq<Seq<State>> {
        Seq::new(self@.len(), |y: int| Seq::new(self@[y].len(), |x: int| self.next(x, y)))
    }

    /// Returns the state at `(x, y)`. A coordinate outside the grid is not an
    /// error: it yields `S2`.
    pub fn get_cell(&self, x: i32, y: i32) -> (state: &State)
        ensures
            *state == self.cell(x as int, y as int),
            !self.contains(x as int, y as int) ==> *state == State::S2,
    {
        self.cell_at(x as i128, y as i128)
    }

    /// Returns the eight cells around `(x, y)`. Neighbours outside the grid
    /// are reported as `S2`, whatever `x` and `y` are.
    pub fn get_around_cells(&self, x: i32, y: i32) -> (cells: Vec<State>)
        ensures
            cells@ == self.around(x as int, y as int),
            cells@.len() == 8,
    {
        self.around_at(x as i128, y as i128)
    }

    /// Returns the state of `(x, y)` one generation later.
    ///
    /// A dead cell comes alive exactly when three of its neighbours are
    /// alive. A live cell stays alive exactly when two or three of them are.
    /// A coordinate outside the grid stays `S2`.
    pub fn tick(&self, x: i32, y: i32) -> (next: State)
        ensures
            next == self.next(x as int, y as int),
            match self.cell(x as int, y as int) {
                State::S0 => next == if self.alive_around(x as int, y as int) == 3 {
                    State::S1
                } else {
                    State::S0
                },
                State::S1 => next == if 2 <= self.alive_around(x as int, y as int) <= 3 {
                    State::S1
                } else {
                    State::S0
                },
                State::S2 => next == State::S2,
            },
    {
        self.tick_at(x as i128, y as i128)
    }

    /// Moves the whole grid forward by one generation.
    ///
    /// Every cell's new state is computed from the grid as it was before the
    /// call, never from cells already updated, and the shape of the grid does
    /// not change.
    pub fn tick_all(&mut self)
        ensures
            final(self)@ == old(self).next_generation(),
            forall|x: int, y: int| #[trigger] final(self).contains(x, y) == old(self).contains(x, y),
            forall|x: int, y: int| #[trigger] final(self).cell(x, y) == old(self).next(x, y),
            old(self).boundary_free() ==> final(self).boundary_free(),
    {
        let mut new: Vec<Vec<State>> = Vec::new();
        let mut y: usize = 0;
        while y < self.raw.len()
            invariant
                *self == *old(self),
                y <= self.raw@.len(),
                new@.len() == y,
                forall|j: int| 0 <= j < y ==> (#[trigger] new@[j])@.len() == self@[j].len(),
                forall|i: int, j: int|
                    0 <= j < y && 0 <= i < self@[j].len() ==> new@[j]@[i] == self.next(i, j),
            decreases self.raw@.len() - y,
        {
            let width = self.raw[y].len();
            let mut row: Vec<State> = Vec::new();
            let mut x: usize = 0;
            while x < width
                invariant
                    y < self.raw@.len(),
                    width == self@[y as int].len(),
                    x <= width,
                    row@.len() == x,
                    forall|i: int| 0 <= i < x ==> row@[i] == self.next(i, y as int),
                decreases width - x,
            {
                row.push(self.tick_at(x as i128, y as i128));
                x += 1;
            }
            new.push(row);
            y += 1;
        }
        self.raw = new;
        proof {
            assert(self@ =~~= old(self).next_generation());
            if old(self).boundary_free() {
                assert forall|x: int, y: int| self.contains(x, y) implies self.cell(x, y)
                    != State::S2 by {
                    assert(old(self).contains(x, y));
                    assert(self.cell(x, y) == old(self).next(x, y));
                }
            }
        }
    }

    /// Never more than eight neighbours are alive.
    pub proof fn lemma_alive_around_bounded(&self, x: int, y: int)
        ensures
            self.alive_around(x, y) <= 8,
    {
        lemma_alive_count_bounded(self.around(x, y));
    }

    /// `S2` is fixed: a position is in state `S2` after a step exactly when
    /// it was before. In particular everything outside the grid stays `S2`.
    pub proof fn lemma_boundary_is_fixed(&self, x: int, y: int)
        ensures
            self.next(x, y) == State::S2 <==> self.cell(x, y) == State::S2,
            !self.contains(x, y) ==> self.next(x, y) == State::S2,
    {
    }

    /// Looks up `(x, y)` in coordinates wide enough to name every index of a
    /// vector and the positions one step beyond either end.
    fn cell_at(&self, x: i128, y: i128) -> (state: &State)
        ensures
            *state == self.cell(x as int, y as int),
    {
        if y < 0 || x < 0 {
            return &State::S2;
        }
        if y >= self.raw.len() as i128 {
            return &State::S2;
        }
        let row = &self.raw[y as usize];
        if x >= row.len() as i128 {
            return &State::S2;
        }
        &row[x as usize]
    }

    /// Collects the eight cells around `(x, y)`.
    fn around_at(&self, x: i128, y: i128) -> (cells: Vec<State>)
        requires
            i128::MIN < x < i128::MAX,
            i128::MIN < y < i128::MAX,
        ensures
            cells@ == self.around(x as int, y as int),
    {
        let mut ret: Vec<State> = Vec::new();
        ret.push(*self.cell_at(x - 1, y + 1));
        ret.push(*self.cell_at(x, y + 1));
        ret.push(*self.cell_at(x + 1, y + 1));

        ret.push(*self.cell_at(x + 1, y));
        ret.push(*self.cell_at(x - 1, y));

        ret.push(*self.cell_at(x + 1, y - 1));
        ret.push(*self.cell_at(x, y - 1));
        ret.push(*self.cell_at(x - 1, y - 1));
        ret
    }

    /// Applies the rule to `(x, y)`.
    fn tick_at(&self, x: i128, y: i128) -> (next: State)
        requires
            i128::MIN < x < i128::MAX,
            i128::MIN < y < i128::MAX,
        ensures
            next == self.next(x as int, y as int),
    {
        match *self.cell_at(x, y) {
            State::S0 => {
                if count_alive(&self.around_at(x, y)) == 3 {
                    State::S1
                } else {
                    State::S0
                }
            },
            State::S1 => {
                let alive = count_alive(&self.around_at(x, y));
                if alive == 2 || alive == 3 {
                    State::S1
                } else {
                    State::S0
                }
            },
            State::S2 => State::S2,
        }
    }
}

/// The number of `S1` entries in `cells`.
pub open spec fn alive_count(cells: Seq<State>) -> nat
    decreases cells.len(),
{
    if cells.len() == 0 {
        0
    } else {
        alive_count(cells.drop_last()) + if cells.last() == State::S1 {
            1nat
        } else {
            0nat
        }
    }
}

/// The rule of the automaton: the state a cell takes next, given its current
/// state and the number of live cells among its neighbours.
pub open spec fn next_state(current: State, alive: nat) -> State {
    match current {
        State::S0 => if alive == 3 {
            State::S1
        } else {
            State::S0
        },
        State::S1 => if alive == 2 || alive == 3 {
            State::S1
        } else {
            State::S0
        },
        State::S2 => State::S2,
    }
}

/// No more cells are alive than there are cells.
pub proof fn lemma_alive_count_bounded(cells: Seq<State>)
    ensures
        alive_count(cells) <= cells.len(),
    decreases cells.len(),
{
    if cells.len() > 0 {
        lemma_alive_count_bounded(cells.drop_last());
    }
}

/// The count is the number of times `S1` occurs, so it does not depend on
/// the order in which the cells are listed.
pub proof fn lemma_alive_count_ignores_order(a: Seq<State>, b: Seq<State>)
    requires
        a.to_multiset() == b.to_multiset(),
    ensures
        alive_count(a) == alive_count(b),
{
    lemma_alive_count_is_multiplicity(a);
    lemma_alive_count_is_multiplicity(b);
}

proof fn lemma_alive_count_is_multiplicity(cells: Seq<State>)
    ensures
        alive_count(cells) == cells.to_multiset().count(State::S1),
    decreases cells.len(),
{
    broadcast use vstd::seq_lib::group_to_multiset_ensures;

    if cells.len() > 0 {
        lemma_alive_count_is_multiplicity(cells.drop_last());
        assert(cells == cells.drop_last().push(cells.last()));
    }
}

/// Counts the live cells in `cells`.
fn count_alive(cells: &Vec<State>) -> (alive: usize)
    ensures
        alive == alive_count(cells@),
{
    let mut alive: usize = 0;
    let mut i: usize = 0;
    while i < cells.len()
        invariant
            i <= cells.len(),
            alive <= i,
            alive == alive_count(cells@.take(i as int)),
        decreases cells.len() - i,
    {
        assert(cells@.take(i + 1).drop_last() == cells@.take(i as int));
        if cells[i] == State::S1 {
            alive += 1;
        }
        i += 1;
    }
    assert(cells@.take(i as int) == cells@);
    alive
}

} // verus!
