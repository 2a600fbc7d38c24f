//! The board engine: a 3x3 grid of cells, move placement, and win/draw
//! detection.
//!
//! A board is an array of 9 cells in row-major order (index = row * 3 + col).
//! A cell is `Blank` or holds one of the two sides, `Circle` or `Cross`.
//! The only mutation is `play_at`, which fills one `Blank` cell.

use vstd::prelude::*;

verus! {

broadcast use vstd::array::group_array_axioms;

/// A cell state: one of the two sides, or `Blank` for an empty cell.
/// `Blank` is not a side; it never plays and cannot be negated.
#[derive(Clone, Copy, Debug, PartialEq, Eq, Structural)]
pub enum Team {
    Circle,
    Cross,
    Blank,
}

/// Why a placement was rejected. Both errors leave the board unchanged.
#[derive(Clone, Copy, Debug, PartialEq, Eq, Structural)]
pub enum PlacementError {
    OutOfRange,
    CellAlreadyOccupied,
}

/// The side that moves after `t`. For `Blank`, which never moves,
/// the value is `Blank` itself; `Team::not` excludes that input.
pub open spec fn opposite(t: Team) -> Team {
    match t {
        Team::Circle => Team::Cross,
        Team::Cross => Team::Circle,
        Team::Blank => Team::Blank,
    }
}

impl Team {
    /// The opposing side. Negating `Blank` is a programming error,
    /// so that input is excluded.
    pub fn not(self) -> (r: Team)
        requires
            self != Team::Blank,
        ensures
            r == opposite(self),
            r != Team::Blank,
    {
        match self {
            Team::Circle => Team::Cross,
            Team::Cross => Team::Circle,
            Team::Blank => Team::Circle,
        }
    }
}

/// The character a cell is drawn with: space, `O` or `X`.
pub fn in_pion(c: Team) -> (r: char)
    ensures
        c == Team::Blank ==> r == ' ',
        c == Team::Circle ==> r == 'O',
        c == Team::Cross ==> r == 'X',
{
    match c {
        Team::Blank => ' ',
        Team::Circle => 'O',
        Team::Cross => 'X',
    }
}

/// The cells of the `k`-th win pattern: the 3 rows, the 3 columns and the
/// 2 diagonals, in that fixed order. Exactly these 8 triples define a win.
pub open spec fn win_pattern(k: int) -> (int, int, int) {
    if k == 0 {
        (0, 1, 2)
    } else if k == 1 {
        (3, 4, 5)
    } else if k == 2 {
        (6, 7, 8)
    } else if k == 3 {
        (0, 3, 6)
    } else if k == 4 {
        (1, 4, 7)
    } else if k == 5 {
        (2, 5, 8)
    } else if k == 6 {
        (0, 4, 8)
    } else {
        (2, 4, 6)
    }
}

/// Pattern `k` is filled by a single side on board `s`.
pub open spec fn pattern_won(s: Seq<Team>, k: int) -> bool {
    let (a, b, c) = win_pattern(k);
    s[a] == s[b] && s[b] == s[c] && s[a] != Team::Blank
}

/// Every cell of `s` is occupied.
pub open spec fn board_full(s: Seq<Team>) -> bool {
    forall|i: int| 0 <= i < 9 ==> s[i] != Team::Blank
}

/// The outcome found by scanning the win patterns from `k` on:
/// the owner of the first satisfied pattern, else `Some(Blank)` for a
/// draw on a full board, else `None` for a game still running.
pub open spec fn check_from(s: Seq<Team>, k: int) -> Option<Team>
    decreases 8 - k,
{
    if k < 0 || k >= 8 {
        if board_full(s) {
            Some(Team::Blank)
        } else {
            None
        }
    } else if pattern_won(s, k) {
        Some(s[win_pattern(k).0])
    } else {
        check_from(s, k + 1)
    }
}

/// The terminal outcome of a board: `Some(Circle)` or `Some(Cross)` for a
/// win, `Some(Blank)` for a draw, `None` while the game is running.
pub open spec fn spec_check_win(s: Seq<Team>) -> Option<Team> {
    check_from(s, 0)
}

/// How many cells of `s` at indices `k..9` are `Blank`.
pub open spec fn blanks_from(s: Seq<Team>, k: int) -> nat
    decreases 9 - k,
{
    if k < 0 || k >= 9 {
        0
    } else {
        (if s[k] == Team::Blank {
            1nat
        } else {
            0nat
        }) + blanks_from(s, k + 1)
    }
}

/// How many of the 9 cells are `Blank`.
pub open spec fn count_blank(s: Seq<Team>) -> nat {
    blanks_from(s, 0)
}

/// How many of the 9 cells are occupied.
pub open spec fn count_filled(s: Seq<Team>) -> int {
    9 - count_blank(s)
}

/// A suffix of the board holds no more blanks than it has cells.
pub proof fn lemma_blanks_from_le(s: Seq<Team>, k: int)
    requires
        0 <= k <= 9,
    ensures
        blanks_from(s, k) <= 9 - k,
    decreases 9 - k,
{
    if k < 9 {
        lemma_blanks_from_le(s, k + 1);
    }
}

/// Filling the blank cell `i` with a side removes exactly one blank from
/// every suffix count that covers `i`, and no other.
pub proof fn lemma_blanks_from_update(s: Seq<Team>, i: int, t: Team, k: int)
    requires
        s.len() == 9,
        0 <= i < 9,
        s[i] == Team::Blank,
        t != Team::Blank,
        0 <= k <= 9,
    ensures
        blanks_from(s, k) == blanks_from(s.update(i, t), k) + (if k <= i {
            1nat
        } else {
            0nat
        }),
    decreases 9 - k,
{
    if k < 9 {
        lemma_blanks_from_update(s, i, t, k + 1);
    }
}

/// The law behind the occupancy invariant: a successful placement turns
/// exactly one `Blank` cell into a side, so after any run of successful
/// placements the number of occupied cells equals the number of those
/// placements (each one raises `count_filled` by exactly one from the
/// all-blank starting board, whose `count_filled` is zero).
pub proof fn lemma_place_fills_one(s: Seq<Team>, idx: int, turn: Team)
    requires
        s.len() == 9,
        0 <= idx < 9,
        s[idx] == Team::Blank,
        turn != Team::Blank,
    ensures
        count_blank(s.update(idx, turn)) + 1 == count_blank(s),
        count_filled(s.update(idx, turn)) == count_filled(s) + 1,
{
    lemma_blanks_from_update(s, idx, turn, 0);
}

proof fn lemma_blanks_from_pos(s: Seq<Team>, k: int)
    requires
        0 <= k <= 9,
        blanks_from(s, k) >= 1,
    ensures
        exists|j: int| k <= j < 9 && s[j] == Team::Blank,
    decreases 9 - k,
{
    if s[k] != Team::Blank {
        lemma_blanks_from_pos(s, k + 1);
    }
}

/// A board with at least one blank cell has a blank index, and conversely.
pub proof fn lemma_count_blank_pos(s: Seq<Team>)
    requires
        count_blank(s) >= 1,
    ensures
        exists|j: int| 0 <= j < 9 && s[j] == Team::Blank,
{
    lemma_blanks_from_pos(s, 0);
}

proof fn lemma_blank_counted(s: Seq<Team>, k: int, j: int)
    requires
        0 <= k <= j < 9,
        s[j] == Team::Blank,
    ensures
        blanks_from(s, k) >= 1,
    decreases j - k,
{
    if k < j {
        lemma_blank_counted(s, k + 1, j);
    }
}

/// A board that is not full has at least one blank cell in the count.
pub proof fn lemma_not_full_count(s: Seq<Team>)
    requires
        !board_full(s),
    ensures
        count_blank(s) >= 1,
{
    assert(exists|w: int| 0 <= w < 9 && s[w] == Team::Blank);
    let w = choose|w: int| 0 <= w < 9 && s[w] == Team::Blank;
    lemma_blank_counted(s, 0, w);
}

proof fn lemma_check_from_cases(s: Seq<Team>, k: int)
    requires
        0 <= k <= 8,
    ensures
        check_from(s, k) == Some(Team::Blank) ==> board_full(s) && (forall|j: int|
            k <= j < 8 ==> !pattern_won(s, j)),
        check_from(s, k) is None ==> !board_full(s) && (forall|j: int|
            k <= j < 8 ==> !pattern_won(s, j)),
        (check_from(s, k) == Some(Team::Circle) || check_from(s, k) == Some(Team::Cross))
            ==> exists|j: int|
            k <= j < 8 && pattern_won(s, j) && s[win_pattern(j).0] == check_from(s, k)->Some_0,
    decreases 8 - k,
{
    if k < 8 {
        if !pattern_won(s, k) {
            lemma_check_from_cases(s, k + 1);
        }
    }
}

/// The law of terminal outcomes: the scan returns exactly one of a win for
/// a side, a draw, or "not terminal". A draw is reported only on a full
/// board with no satisfied win pattern (never both a win and a draw); "not
/// terminal" only on a board with a blank cell and no satisfied pattern;
/// and a win only when some pattern is filled by the winning side.
pub proof fn lemma_check_win_cases(s: Seq<Team>)
    ensures
        spec_check_win(s) == Some(Team::Blank) ==> board_full(s) && (forall|j: int|
            0 <= j < 8 ==> !pattern_won(s, j)),
        spec_check_win(s) is None ==> !board_full(s) && (forall|j: int|
            0 <= j < 8 ==> !pattern_won(s, j)),
        (spec_check_win(s) == Some(Team::Circle) || spec_check_win(s) == Some(Team::Cross))
            ==> exists|j: int|
            0 <= j < 8 && pattern_won(s, j) && s[win_pattern(j).0] == spec_check_win(s)->Some_0,
{
    lemma_check_from_cases(s, 0);
}

/// The cells of the `k`-th win pattern, as the fixed table has them.
fn win_pattern_cells(k: usize) -> (r: (usize, usize, usize))
    requires
        k < 8,
    ensures
        (r.0 as int, r.1 as int, r.2 as int) == win_pattern(k as int),
        r.0 < 9 && r.1 < 9 && r.2 < 9,
{
    match k {
        0 => (0, 1, 2),
        1 => (3, 4, 5),
        2 => (6, 7, 8),
        3 => (0, 3, 6),
        4 => (1, 4, 7),
        5 => (2, 5, 8),
        6 => (0, 4, 8),
        _ => (2, 4, 6),
    }
}

/// Scan the 8 win patterns in table order and report the first decided
/// one; on a full board with no winner report a draw, else "not terminal".
pub fn check_win(grid: [Team; 9]) -> (r: Option<Team>)
    ensures
        r == spec_check_win(grid@),
{
    let mut k: usize = 0;
    while k < 8
        invariant
            k <= 8,
            check_from(grid@, 0) == check_from(grid@, k as int),
        decreases 8 - k,
    {
        let (a, b, c) = win_pattern_cells(k);
        if grid[a] == grid[b] && grid[b] == grid[c] && grid[a] != Team::Blank {
            return Some(grid[a]);
        }
        k = k + 1;
    }
    let mut i: usize = 0;
    while i < 9
        invariant
            i <= 9,
            forall|j: int| 0 <= j < i ==> grid@[j] != Team::Blank,
            check_from(grid@, 0) == check_from(grid@, 8),
        decreases 9 - i,
    {
        if grid[i] == Team::Blank {
            return None;
        }
        i = i + 1;
    }
    Some(Team::Blank)
}

/// The textual front end's input rule: a number 1 to 9 names a cell 0 to
/// 8; anything else names no cell and is rejected.
pub fn user_index(n: usize) -> (r: Option<usize>)
    ensures
        1 <= n <= 9 ==> r == Some((n - 1) as usize),
        !(1 <= n <= 9) ==> r is None,
{
    if 1 <= n && n <= 9 {
        Some(n - 1)
    } else {
        None
    }
}

/// A board, created empty and filled one cell per successful placement.
pub struct Morpion {
    pub grid: [Team; 9],
}

impl Morpion {
    /// The empty board: all 9 cells `Blank`.
    pub fn new() -> (r: Morpion)
        ensures
            forall|i: int| 0 <= i < 9 ==> r.grid@[i] == Team::Blank,
    {
        Morpion { grid: [Team::Blank; 9] }
    }

    /// Place `turn` at cell `idx`. Succeeds exactly when `idx` is in range
    /// and the cell is blank, and then fills that one cell; each error
    /// names its own cause and leaves the board untouched.
    pub fn play_at(&mut self, idx: usize, turn: Team) -> (r: Result<(), PlacementError>)
        requires
            turn != Team::Blank,
        ensures
            idx >= 9 ==> r == Err::<(), PlacementError>(PlacementError::OutOfRange) && *final(self)
                == *old(self),
            idx < 9 && old(self).grid@[idx as int] != Team::Blank ==> r == Err::<
                (),
                PlacementError,
            >(PlacementError::CellAlreadyOccupied) && *final(self) == *old(self),
            idx < 9 && old(self).grid@[idx as int] == Team::Blank ==> r == Ok::<
                (),
                PlacementError,
            >(()) && final(self).grid@ == old(self).grid@.update(idx as int, turn),
    {
        if idx >= 9 {
            return Err(PlacementError::OutOfRange);
        }
        match self.grid[idx] {
            Team::Circle | Team::Cross => Err(PlacementError::CellAlreadyOccupied),
            Team::Blank => {
                self.grid[idx] = turn;
                Ok(())
            },
        }
    }

    /// The terminal outcome of this board, as `check_win` reports it.
    pub fn check_win(&self) -> (r: Option<Team>)
        ensures
            r == spec_check_win(self.grid@),
    {
        check_win(self.grid)
    }
}

/// The indices of the blank cells, in ascending order: exactly the cells a
/// move may still fill.
pub fn indexes_empty_cell(grid: [Team; 9]) -> (r: Vec<usize>)
    ensures
        r@.len() == count_blank(grid@),
        forall|j: int| 0 <= j < r@.len() ==> r@[j] < 9 && grid@[r@[j] as int] == Team::Blank,
        forall|j1: int, j2: int| 0 <= j1 < j2 < r@.len() ==> r@[j1] < r@[j2],
        forall|i: int|
            0 <= i < 9 && grid@[i] == Team::Blank ==> exists|j: int|
                0 <= j < r@.len() && r@[j] == i,
{
    let mut r: Vec<usize> = Vec::new();
    let mut k: usize = 0;
    while k < 9
        invariant
            k <= 9,
            r@.len() + blanks_from(grid@, k as int) == count_blank(grid@),
            forall|j: int| 0 <= j < r@.len() ==> r@[j] < k && grid@[r@[j] as int] == Team::Blank,
            forall|j1: int, j2: int| 0 <= j1 < j2 < r@.len() ==> r@[j1] < r@[j2],
            forall|i: int|
                0 <= i < k && grid@[i] == Team::Blank ==> exists|j: int|
                    0 <= j < r@.len() && r@[j] == i,
        decreases 9 - k,
    {
        if grid[k] == Team::Blank {
            let ghost prev = r@;
            r.push(k);
            proof {
                assert forall|i: int| 0 <= i < k + 1 && grid@[i] == Team::Blank implies exists|
                    j: int,
                |
                    0 <= j < r@.len() && r@[j] == i by {
                    if i == k {
                        assert(r@[r@.len() - 1] == i);
                    } else {
                        let j = choose|j: int| 0 <= j < prev.len() && prev[j] == i;
                        assert(r@[j] == i);
                    }
                }
            }
        }
        k = k + 1;
    }
    r
}

} // verus!
