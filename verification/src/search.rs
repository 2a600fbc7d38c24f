//! The opponent search: exhaustive enumeration of all continuations under
//! uniformly random play, and selection of the empty cell that maximizes
//! the computer's (Cross's) win chance.
//!
//! Probabilities are kept exact, as a fraction `num / den` of two
//! integers with `den == 2 * fact(count_blank(board))`: every candidate
//! move of one board shares the same denominator, so comparing chances is
//! comparing numerators.

use vstd::prelude::*;

use crate::board::Morpion;
use crate::board::Team;
use crate::board::blanks_from;
use crate::board::count_blank;
use crate::board::lemma_blanks_from_le;
use crate::board::lemma_blanks_from_update;
use crate::board::lemma_not_full_count;
use crate::board::opposite;
use crate::board::spec_check_win;

verus! {

broadcast use vstd::array::group_array_axioms;

/// The factorial, the denominator scale of the exact win chance.
pub open spec fn fact(n: nat) -> nat
    decreases n,
{
    if n == 0 {
        1
    } else {
        n * fact((n - 1) as nat)
    }
}

/// Factorials are positive, so no denominator is zero.
pub proof fn lemma_fact_pos(n: nat)
    ensures
        fact(n) >= 1,
    decreases n,
{
    if n > 0 {
        lemma_fact_pos((n - 1) as nat);
        assert(n * fact((n - 1) as nat) >= 1) by (nonlinear_arith)
            requires
                n >= 1,
                fact((n - 1) as nat) >= 1,
        ;
    }
}

/// The factorial grows with its argument.
pub proof fn lemma_fact_mono(a: nat, b: nat)
    requires
        a <= b,
    ensures
        fact(a) <= fact(b),
    decreases b,
{
    if a < b {
        lemma_fact_mono(a, (b - 1) as nat);
        lemma_fact_pos((b - 1) as nat);
        assert(b * fact((b - 1) as nat) >= fact((b - 1) as nat)) by (nonlinear_arith)
            requires
                b >= 1,
                fact((b - 1) as nat) >= 1,
        ;
    }
}

/// No board has more than 9 blank cells, so no denominator outgrows
/// `2 * fact(9)`.
pub proof fn lemma_fact_le_9(n: nat)
    requires
        n <= 9,
    ensures
        fact(n) <= 362880,
{
    lemma_fact_mono(n, 9);
    assert(fact(0) == 1);
    assert(fact(1) == 1);
    assert(fact(2) == 2);
    assert(fact(3) == 6);
    assert(fact(4) == 24);
    assert(fact(5) == 120);
    assert(fact(6) == 720);
    assert(fact(7) == 5040);
    assert(fact(8) == 40320);
    assert(fact(9) == 362880);
}

/// The numerator of the exact chance that Cross wins from board `s` with
/// `turn` to move, when both sides pick uniformly among the blank cells
/// until the game ends; the denominator is `win_den(s)`. On a decided
/// board the chance is 1 for a Cross win, 0 for a Circle win and 1/2 for
/// a draw; otherwise it is the average of the chances after each possible
/// move, all of which share the denominator `win_den` of their own board.
pub open spec fn win_num(s: Seq<Team>, turn: Team) -> nat
    decreases count_blank(s), 10int,
        when s.len() == 9 && turn != Team::Blank
{
    match spec_check_win(s) {
        Some(t) => if t == Team::Cross {
            win_den(s)
        } else if t == Team::Circle {
            0
        } else {
            fact(count_blank(s))
        },
        None => win_num_from(s, turn, 0),
    }
}

/// The denominator of the exact win chance of board `s`: twice the
/// factorial of the number of blank cells.
pub open spec fn win_den(s: Seq<Team>) -> nat {
    2 * fact(count_blank(s))
}

/// The sum, over the blank cells of `s` at indices `i..9`, of the win
/// numerators of the boards reached by placing `turn` there.
pub open spec fn win_num_from(s: Seq<Team>, turn: Team, i: int) -> nat
    decreases count_blank(s), 9 - i,
        when s.len() == 9 && turn != Team::Blank
{
    if 0 <= i < 9 {
        if s[i] == Team::Blank {
            (proof {
                lemma_blanks_from_update(s, i, turn, 0);
            });
            win_num(s.update(i, turn), opposite(turn)) + win_num_from(s, turn, i + 1)
        } else {
            win_num_from(s, turn, i + 1)
        }
    } else {
        0
    }
}

/// The law of the chance's range: the exact win chance lies in [0, 1]
/// (the numerator never exceeds the positive denominator), and on a
/// decided board it is exactly 1 for a Cross win, exactly 0 for a Circle
/// win and exactly 1/2 for a draw.
pub proof fn lemma_win_proba_bounds(s: Seq<Team>, turn: Team)
    requires
        s.len() == 9,
        turn != Team::Blank,
    ensures
        win_den(s) >= 2,
        win_num(s, turn) <= win_den(s),
        spec_check_win(s) == Some(Team::Cross) ==> win_num(s, turn) == win_den(s),
        spec_check_win(s) == Some(Team::Circle) ==> win_num(s, turn) == 0,
        spec_check_win(s) == Some(Team::Blank) ==> 2 * win_num(s, turn) == win_den(s),
    decreases count_blank(s), 10int,
{
    lemma_fact_pos(count_blank(s));
    if spec_check_win(s) is None {
        crate::board::lemma_check_win_cases(s);
        lemma_not_full_count(s);
        let k = count_blank(s);
        lemma_win_num_from_le(s, turn, 0);
        assert(fact(k) == k * fact((k - 1) as nat));
        assert(k * (2 * fact((k - 1) as nat)) == 2 * (k * fact((k - 1) as nat)))
            by (nonlinear_arith);
    }
}

proof fn lemma_win_num_from_le(s: Seq<Team>, turn: Team, i: int)
    requires
        s.len() == 9,
        turn != Team::Blank,
        0 <= i <= 9,
        count_blank(s) >= 1,
    ensures
        win_num_from(s, turn, i) <= blanks_from(s, i) * (2 * fact((count_blank(s) - 1) as nat)),
    decreases count_blank(s), 9 - i,
{
    let d = 2 * fact((count_blank(s) - 1) as nat);
    if i < 9 {
        lemma_win_num_from_le(s, turn, i + 1);
        if s[i] == Team::Blank {
            let s2 = s.update(i, turn);
            lemma_blanks_from_update(s, i, turn, 0);
            lemma_win_proba_bounds(s2, opposite(turn));
            assert((1 + blanks_from(s, i + 1)) * d == d + blanks_from(s, i + 1) * d)
                by (nonlinear_arith);
        }
    } else {
        assert(blanks_from(s, i) * d == 0) by (nonlinear_arith)
            requires
                blanks_from(s, i) == 0,
        ;
    }
}

/// Count the blank cells of the board.
fn count_empty(grid: &[Team; 9]) -> (n: u64)
    ensures
        n == count_blank(grid@),
        n <= 9,
{
    let mut n: u64 = 0;
    let mut k: usize = 0;
    while k < 9
        invariant
            k <= 9,
            n <= k,
            n + blanks_from(grid@, k as int) == count_blank(grid@),
        decreases 9 - k,
    {
        if grid[k] == Team::Blank {
            n = n + 1;
        }
        k = k + 1;
    }
    n
}

/// The factorial of a blank-cell count; at most `fact(9)`.
fn factorial9(n: u64) -> (r: u64)
    requires
        n <= 9,
    ensures
        r == fact(n as nat),
    decreases n,
{
    proof {
        lemma_fact_le_9(n as nat);
    }
    if n == 0 {
        1
    } else {
        let r2 = factorial9(n - 1);
        n * r2
    }
}

/// The exact chance that Cross wins from `grid` with `turn` to move, under
/// uniformly random play, as the fraction `r.0 / r.1` with denominator
/// `r.1 == 2 * fact(count_blank(grid))`. Recursion over all continuations.
pub fn win_proba(grid: [Team; 9], turn: Team) -> (r: (u64, u64))
    requires
        turn != Team::Blank,
    ensures
        r.0 == win_num(grid@, turn),
        r.1 == win_den(grid@),
        r.0 <= r.1,
        2 <= r.1 <= 725760,
    decreases count_blank(grid@),
{
    proof {
        lemma_win_proba_bounds(grid@, turn);
        lemma_blanks_from_le(grid@, 0);
        lemma_fact_le_9(count_blank(grid@));
        lemma_fact_pos(count_blank(grid@));
    }
    let k = count_empty(&grid);
    let f = factorial9(k);
    let den = 2 * f;
    match crate::board::check_win(grid) {
        Some(Team::Cross) => (den, den),
        Some(Team::Circle) => (0, den),
        Some(Team::Blank) => (f, den),
        None => {
            let mut acc: u64 = 0;
            let mut i: usize = 0;
            while i < 9
                invariant
                    i <= 9,
                    turn != Team::Blank,
                    grid@.len() == 9,
                    spec_check_win(grid@) is None,
                    acc + win_num_from(grid@, turn, i as int) == win_num_from(grid@, turn, 0),
                    win_num_from(grid@, turn, 0) <= win_den(grid@),
                    den == win_den(grid@),
                    den <= 725760,
                decreases 9 - i,
            {
                if grid[i] == Team::Blank {
                    let mut next = grid;
                    next[i] = turn;
                    proof {
                        lemma_blanks_from_update(grid@, i as int, turn, 0);
                    }
                    let (cn, _cd) = win_proba(next, turn.not());
                    acc = acc + cn;
                }
                i = i + 1;
            }
            (acc, den)
        },
    }
}

/// The numerator of Cross's win chance after a candidate Cross move at
/// cell `i`; every candidate of one board shares the same denominator, so
/// these numerators order the candidates as the chances do.
pub open spec fn cand_num(s: Seq<Team>, i: int) -> nat {
    win_num(s.update(i, Team::Cross), opposite(Team::Cross))
}

/// Cell `c` is the opponent's choice on board `s`: a blank cell whose win
/// chance no blank cell beats, and that strictly beats every earlier blank
/// cell (the first maximum in ascending index order).
pub open spec fn is_bot_choice(s: Seq<Team>, c: int) -> bool {
    &&& 0 <= c < 9
    &&& s[c] == Team::Blank
    &&& forall|j: int| 0 <= j < 9 && s[j] == Team::Blank ==> cand_num(s, j) <= cand_num(s, c)
    &&& forall|j: int| 0 <= j < c && s[j] == Team::Blank ==> cand_num(s, j) < cand_num(s, c)
}

/// The law that the choice is pinned down: no two cells can both be the
/// opponent's choice on one board.
pub proof fn lemma_bot_choice_unique(s: Seq<Team>, c1: int, c2: int)
    requires
        is_bot_choice(s, c1),
        is_bot_choice(s, c2),
    ensures
        c1 == c2,
{
}

impl Morpion {
    /// The cell the opponent plays: among the blank cells, the first one
    /// with the greatest exact win chance for Cross.
    pub fn bot_choose(&self) -> (c: usize)
        requires
            count_blank(self.grid@) >= 1,
        ensures
            is_bot_choice(self.grid@, c as int),
    {
        let mut best: usize = 9;
        let mut best_num: u64 = 0;
        let mut i: usize = 0;
        while i < 9
            invariant
                i <= 9,
                best <= 9,
                self.grid@.len() == 9,
                best == 9 ==> forall|j: int| 0 <= j < i ==> self.grid@[j] != Team::Blank,
                best < 9 ==> (best as int) < i && self.grid@[best as int] == Team::Blank,
                best < 9 ==> best_num == cand_num(self.grid@, best as int),
                best < 9 ==> (forall|j: int|
                    0 <= j < i && self.grid@[j] == Team::Blank ==> cand_num(self.grid@, j)
                        <= cand_num(self.grid@, best as int)),
                best < 9 ==> (forall|j: int|
                    0 <= j < best && self.grid@[j] == Team::Blank ==> cand_num(self.grid@, j)
                        < cand_num(self.grid@, best as int)),
            decreases 9 - i,
        {
            if self.grid[i] == Team::Blank {
                let mut next = self.grid;
                next[i] = Team::Cross;
                let (num, _den) = win_proba(next, Team::Circle);
                if best == 9 || num > best_num {
                    best = i;
                    best_num = num;
                }
            }
            i = i + 1;
        }
        proof {
            if best == 9 {
                crate::board::lemma_count_blank_pos(self.grid@);
            }
        }
        best
    }

    /// Make the opponent's move: place Cross at the chosen cell. The
    /// board must still have a blank cell.
    pub fn bot_plays(&mut self)
        requires
            count_blank(old(self).grid@) >= 1,
        ensures
            exists|c: int|
                #[trigger] is_bot_choice(old(self).grid@, c) && final(self).grid@ == old(
                    self,
                ).grid@.update(c, Team::Cross),
    {
        let c = self.bot_choose();
        let _ = self.play_at(c, Team::Cross);
    }
}

} // verus!
