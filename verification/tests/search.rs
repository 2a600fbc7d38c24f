use morpion::board::Morpion;
use morpion::board::Team;
use morpion::search::win_proba;

const O: Team = Team::Circle;
const X: Team = Team::Cross;
const E: Team = Team::Blank;

fn as_probability((num, den): (u64, u64)) -> f64 {
    num as f64 / den as f64
}

#[test]
fn chance_is_one_where_cross_has_won() {
    let grid = [X, X, X, O, O, E, E, E, E];
    let (num, den) = win_proba(grid, Team::Circle);
    assert_eq!(num, den);
    assert_eq!(as_probability((num, den)), 1.0);
}

#[test]
fn chance_is_zero_where_circle_has_won() {
    let grid = [O, O, O, X, X, E, E, E, E];
    let (num, den) = win_proba(grid, Team::Cross);
    assert_eq!(num, 0);
    assert_eq!(as_probability((num, den)), 0.0);
}

#[test]
fn chance_is_half_on_a_draw() {
    let grid = [O, X, O, O, X, X, X, O, O];
    let (num, den) = win_proba(grid, Team::Circle);
    assert_eq!(2 * num, den);
    assert_eq!(as_probability((num, den)), 0.5);
}

#[test]
fn one_open_cell_leading_to_a_draw_gives_half() {
    // Circle's only move fills the board with no line: a sure draw.
    let grid = [O, X, O, O, X, X, X, O, E];
    assert_eq!(win_proba(grid, Team::Circle), (1, 2));
}

#[test]
fn two_open_cells_average_win_and_loss() {
    // Cross to move: cell 2 completes the top row now; cell 5 lets Circle
    // take the anti-diagonal next. One sure win, one sure loss: one half.
    let grid = [X, X, E, O, O, E, O, X, X];
    assert_eq!(win_proba(grid, Team::Cross), (2, 4));
}

#[test]
fn chance_stays_between_zero_and_one() {
    let boards = [
        [E; 9],
        [O, X, E, E, X, E, E, O, E],
        [X, X, E, O, O, E, O, X, X],
        [O, O, O, X, X, E, E, E, E],
        [O, X, O, O, X, X, X, O, O],
    ];
    for grid in boards {
        for turn in [Team::Circle, Team::Cross] {
            let (num, den) = win_proba(grid, turn);
            assert!(num <= den);
            assert!(den >= 2);
            let p = as_probability((num, den));
            assert!((0.0..=1.0).contains(&p));
        }
    }
}

#[test]
fn bot_takes_the_winning_cell() {
    // Of the two open cells, only cell 2 wins for Cross; the other loses.
    let mut mpn = Morpion {
        grid: [X, X, E, O, O, E, O, X, X],
    };
    mpn.bot_plays();
    assert_eq!(mpn.grid[2], Team::Cross);
    assert_eq!(mpn.grid[5], Team::Blank);
    assert_eq!(mpn.check_win(), Some(Team::Cross));
}

#[test]
fn bot_takes_the_last_cell_and_wins_for_sure() {
    // Only cell 8 is open, and taking it completes the right column for
    // Cross: the bot must play it, with a computed chance of exactly 1.
    let grid = [O, X, X, X, O, X, O, O, E];
    let mut mpn = Morpion { grid };
    assert_eq!(mpn.check_win(), None);

    let mut after = grid;
    after[8] = X;
    let (num, den) = win_proba(after, Team::Circle);
    assert_eq!(num, den);
    assert_eq!(as_probability((num, den)), 1.0);

    mpn.bot_plays();
    assert_eq!(mpn.grid[8], Team::Cross);
    assert_eq!(mpn.check_win(), Some(Team::Cross));
}

#[test]
fn bot_takes_the_first_of_two_sure_wins() {
    // Cross holds cells 2 and 4. Cell 6 wins at once on the diagonal, and
    // cell 5 wins for sure one move later by threatening the middle row,
    // the right column and the diagonal together: whatever Circle blocks,
    // a winning reply remains. Both chances are exactly 1, so the smaller
    // index, 5, must be chosen.
    let grid = [O, O, X, E, X, E, E, O, E];
    let sure = |i: usize| {
        let mut next = grid;
        next[i] = X;
        let (num, den) = win_proba(next, Team::Circle);
        num == den
    };
    assert!(!sure(3));
    assert!(sure(5));
    assert!(sure(6));
    let mut mpn = Morpion { grid };
    mpn.bot_plays();
    assert_eq!(mpn.grid[5], Team::Cross);
    assert_eq!(mpn.grid[6], Team::Blank);
}

#[test]
fn bot_prefers_the_first_cell_among_equal_chances() {
    // Circle holds only the center, so by symmetry all four corners give
    // Cross one chance and all four edges another; the bot must take the
    // first cell of the better class in index order.
    let grid = [E, E, E, E, O, E, E, E, E];
    let cand = |i: usize| {
        let mut next = grid;
        next[i] = X;
        win_proba(next, Team::Circle)
    };
    assert_eq!(cand(0), cand(2));
    assert_eq!(cand(0), cand(6));
    assert_eq!(cand(0), cand(8));
    assert_eq!(cand(1), cand(3));
    assert_eq!(cand(1), cand(5));
    assert_eq!(cand(1), cand(7));
    // every candidate shares one denominator, so numerators decide
    let mut expect = 0usize;
    for i in 1..9 {
        if grid[i] == E && cand(i).0 > cand(expect).0 {
            expect = i;
        }
    }
    let mut mpn = Morpion { grid };
    mpn.bot_plays();
    assert_eq!(mpn.grid[expect], Team::Cross);
}
