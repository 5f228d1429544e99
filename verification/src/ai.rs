//! Game-outcome search: terminal-state evaluation and minimax.
//!
//! A board is an array of 9 cells in row-major order; a cell holds 0
//! (empty), 1 (mark X, the maximizer) or 2 (mark O, the minimizer).

use vstd::prelude::*;

verus! {

/// Cells `a`, `c` and `e` all hold mark `p`.
pub open spec fn three_in_line(b: Seq<u8>, a: int, c: int, e: int, p: u8) -> bool {
    b[a] == p && b[c] == p && b[e] == p
}

/// Mark `p` owns a completed row, column or diagonal.
pub open spec fn wins(b: Seq<u8>, p: u8) -> bool {
    ||| three_in_line(b, 0, 1, 2, p)
    ||| three_in_line(b, 3, 4, 5, p)
    ||| three_in_line(b, 6, 7, 8, p)
    ||| three_in_line(b, 0, 3, 6, p)
    ||| three_in_line(b, 1, 4, 7, p)
    ||| three_in_line(b, 2, 5, 8, p)
    ||| three_in_line(b, 0, 4, 8, p)
    ||| three_in_line(b, 2, 4, 6, p)
}

/// Cells `a`, `c` and `e` are equal and hold one of the two marks, so
/// the line settles the game.
pub open spec fn line_decides(b: Seq<u8>, a: int, c: int, e: int) -> bool {
    b[a] == b[c] && b[a] == b[e] && (b[a] == 1 || b[a] == 2)
}

/// The score of a decided line whose first cell is `a`: +10 for X, -10 for O.
pub open spec fn line_score(b: Seq<u8>, a: int) -> int {
    if b[a] == 1 { 10 } else { -10 }
}

/// Outcome of a board: the score of the first decided line in check
/// order (rows and columns interleaved, then the diagonals), else 0
/// (draw) once `depth` says the board is full, else 3 (ongoing).
///
/// On any board where at most one mark owns a line - every position that
/// arises in play - the check order is irrelevant and the outcome is
/// +10, -10, 0 or 3 as `wins` dictates.
pub open spec fn evaluation(b: Seq<u8>, depth: int) -> int {
    if line_decides(b, 0, 1, 2) {
        line_score(b, 0)
    } else if line_decides(b, 0, 3, 6) {
        line_score(b, 0)
    } else if line_decides(b, 3, 4, 5) {
        line_score(b, 3)
    } else if line_decides(b, 1, 4, 7) {
        line_score(b, 1)
    } else if line_decides(b, 6, 7, 8) {
        line_score(b, 6)
    } else if line_decides(b, 2, 5, 8) {
        line_score(b, 2)
    } else if line_decides(b, 0, 4, 8) {
        line_score(b, 0)
    } else if line_decides(b, 2, 4, 6) {
        line_score(b, 2)
    } else if depth >= 8 {
        0
    } else {
        3
    }
}

/// 1 if cell `i` is empty, else 0.
pub open spec fn empty_at(b: Seq<u8>, i: int) -> int {
    if b[i] == 0 {
        1
    } else {
        0
    }
}

/// How many of the 9 cells are empty.
pub open spec fn num_empty(b: Seq<u8>) -> int {
    empty_at(b, 0) + empty_at(b, 1) + empty_at(b, 2) + empty_at(b, 3) + empty_at(b, 4)
        + empty_at(b, 5) + empty_at(b, 6) + empty_at(b, 7) + empty_at(b, 8)
}

/// Filling an empty cell with a mark removes exactly one empty cell.
pub proof fn lemma_num_empty_update(b: Seq<u8>, j: int, m: u8)
    requires
        b.len() == 9,
        0 <= j < 9,
        b[j] == 0,
        m != 0,
    ensures
        num_empty(b.update(j, m)) == num_empty(b) - 1,
{
}

/// The mark the side to move would place: 1 for X, 2 for O.
pub open spec fn mark_of(x_turn: bool) -> u8 {
    if x_turn {
        1
    } else {
        2
    }
}

/// The game-theoretic value of a board under optimal play by both
/// sides, with a deliberate depth bias: a terminal board is worth its
/// outcome score plus the depth at which it was reached, so the raw
/// outcome is shifted towards terminals that lie deeper in the tree.
pub open spec fn minimax_spec(b: Seq<u8>, x_turn: bool, depth: int) -> int
    decreases num_empty(b), 10int,
    when b.len() == 9
{
    if evaluation(b, depth) != 3 {
        evaluation(b, depth) + depth
    } else {
        best_prefix(b, x_turn, depth, 9)
    }
}

/// The best score the side to move can reach by playing one of the
/// empty cells with index below `i`; the fold starts from the sentinel
/// -100 (maximizer) or 100 (minimizer), which survives only when no
/// empty cell is in range.
pub open spec fn best_prefix(b: Seq<u8>, x_turn: bool, depth: int, i: int) -> int
    decreases num_empty(b), i,
    when b.len() == 9 && 0 <= i <= 9
{
    if i <= 0 {
        if x_turn {
            -100
        } else {
            100
        }
    } else if b[i - 1] == 0 {
        let prev = best_prefix(b, x_turn, depth, i - 1);
        let v = minimax_spec(b.update(i - 1, mark_of(x_turn)), !x_turn, depth + 1);
        if x_turn {
            if v > prev {
                v
            } else {
                prev
            }
        } else {
            if v < prev {
                v
            } else {
                prev
            }
        }
    } else {
        best_prefix(b, x_turn, depth, i - 1)
    }
}

/// Classify a board: +10 when X owns a line, -10 when O owns one, 0 for
/// a draw once `depth` reaches 8 (a full board when `depth` counts the
/// marks placed), and the sentinel 3 for a game still in progress.
pub fn check_state(gamestate: [u8; 9], depth: i8) -> (r: i8)
    ensures
        r as int == evaluation(gamestate@, depth as int),
        wins(gamestate@, 1) && !wins(gamestate@, 2) ==> r == 10,
        wins(gamestate@, 2) && !wins(gamestate@, 1) ==> r == -10,
        !wins(gamestate@, 1) && !wins(gamestate@, 2) ==> r == (if depth >= 8 {
            0i8
        } else {
            3i8
        }),
{
    let mut i: usize = 0;
    while i < 3
        invariant
            0 <= i <= 3,
            i >= 1 ==> !line_decides(gamestate@, 0, 1, 2) && !line_decides(gamestate@, 0, 3, 6),
            i >= 2 ==> !line_decides(gamestate@, 3, 4, 5) && !line_decides(gamestate@, 1, 4, 7),
            i >= 3 ==> !line_decides(gamestate@, 6, 7, 8) && !line_decides(gamestate@, 2, 5, 8),
        decreases 3 - i,
    {
        let n = i * 3;

        if gamestate[n] == gamestate[n + 1] && gamestate[n] == gamestate[n + 2]
            && gamestate[n] != 0 {
            if gamestate[n] == 1 {
                return 10;
            } else if gamestate[n] == 2 {
                return -10;
            }
        }

        if gamestate[i] == gamestate[i + 3] && gamestate[i] == gamestate[i + 6]
            && gamestate[i] != 0 {
            if gamestate[i] == 1 {
                return 10;
            } else if gamestate[i] == 2 {
                return -10;
            }
        }

        i = i + 1;
    }

    if gamestate[0] == gamestate[4] && gamestate[0] == gamestate[8] && gamestate[0] != 0 {
        if gamestate[0] == 1 {
            return 10;
        } else if gamestate[0] == 2 {
            return -10;
        }
    }
    if gamestate[2] == gamestate[4] && gamestate[2] == gamestate[6] && gamestate[2] != 0 {
        if gamestate[2] == 1 {
            return 10;
        } else if gamestate[2] == 2 {
            return -10;
        }
    }

    if depth >= 8 {
        return 0;
    }

    3
}

/// Full adversarial search: the exact game-theoretic value of the
/// board for the side to move, scores biased by depth as `minimax_spec`
/// states. `depth` counts plies and must leave the biased scores inside
/// the result type: 117 keeps every terminal score at most 127.
pub fn minimax(gamestate: [u8; 9], x_turn: bool, depth: i8) -> (value: i8)
    requires
        0 <= depth,
        depth as int + num_empty(gamestate@) <= 117,
    ensures
        value as int == minimax_spec(gamestate@, x_turn, depth as int),
    decreases num_empty(gamestate@),
{
    let state = check_state(gamestate, depth);
    if state != 3 {
        return state + depth;
    }

    let mut value: i8;

    if x_turn {
        // maximizer
        value = -100;

        let mut i: usize = 0;
        while i < 9
            invariant
                0 <= i <= 9,
                gamestate@.len() == 9,
                evaluation(gamestate@, depth as int) == 3,
                0 <= depth,
                depth as int + num_empty(gamestate@) <= 117,
                value as int == best_prefix(gamestate@, true, depth as int, i as int),
            decreases 9 - i,
        {
            // discard positions not empty
            if gamestate[i] == 0 {
                // the value of the next board if the move at cell i is played
                let mut next_gamestate = gamestate;
                next_gamestate[i] = 1;
                proof {
                    lemma_num_empty_update(gamestate@, i as int, 1);
                }
                let next_value = minimax(next_gamestate, false, depth + 1);

                if next_value > value {
                    value = next_value;
                }
            }
            i = i + 1;
        }
    } else {
        // minimizer
        value = 100;

        let mut i: usize = 0;
        while i < 9
            invariant
                0 <= i <= 9,
                gamestate@.len() == 9,
                evaluation(gamestate@, depth as int) == 3,
                0 <= depth,
                depth as int + num_empty(gamestate@) <= 117,
                value as int == best_prefix(gamestate@, false, depth as int, i as int),
            decreases 9 - i,
        {
            if gamestate[i] == 0 {
                let mut next_gamestate = gamestate;
                next_gamestate[i] = 2;
                proof {
                    lemma_num_empty_update(gamestate@, i as int, 2);
                }
                let next_value = minimax(next_gamestate, true, depth + 1);

                if next_value < value {
                    value = next_value;
                }
            }
            i = i + 1;
        }
    }

    value
}

proof fn lemma_best_prefix_bounds(b: Seq<u8>, x_turn: bool, depth: int, i: int)
    requires
        b.len() == 9,
        0 <= i <= 9,
        0 <= depth,
    ensures
        -100 <= best_prefix(b, x_turn, depth, i),
        best_prefix(b, x_turn, depth, i) <= 100 || best_prefix(b, x_turn, depth, i) <= depth
            + num_empty(b) + 10,
    decreases num_empty(b), i,
{
    if i > 0 {
        lemma_best_prefix_bounds(b, x_turn, depth, i - 1);
        if b[i - 1] == 0 {
            lemma_num_empty_update(b, i - 1, mark_of(x_turn));
            lemma_minimax_spec_bounds(b.update(i - 1, mark_of(x_turn)), !x_turn, depth + 1);
        }
    }
}

/// Every search value lies between the minimizer's sentinel and the
/// largest biased terminal score the remaining plies can produce.
pub proof fn lemma_minimax_spec_bounds(b: Seq<u8>, x_turn: bool, depth: int)
    requires
        b.len() == 9,
        0 <= depth,
    ensures
        -100 <= minimax_spec(b, x_turn, depth),
        minimax_spec(b, x_turn, depth) <= 100 || minimax_spec(b, x_turn, depth) <= depth
            + num_empty(b) + 10,
    decreases num_empty(b), 10int,
{
    if evaluation(b, depth) == 3 {
        lemma_best_prefix_bounds(b, x_turn, depth, 9);
    }
}

/// A board with an empty cell and no completed line for either mark is
/// still ongoing, at every depth below the full-board threshold. (At
/// depth 8 or more the evaluator declares a draw even when a cell is
/// still empty: the draw check is depth-gated, not occupancy-gated.)
pub proof fn lemma_evaluation_ongoing(b: Seq<u8>, depth: int)
    requires
        !wins(b, 1),
        !wins(b, 2),
        num_empty(b) >= 1,
        depth < 8,
    ensures
        evaluation(b, depth) == 3,
{
}

proof fn lemma_best_prefix_min(b: Seq<u8>, depth: int, k: int)
    requires
        b.len() == 9,
        0 <= k <= 9,
    ensures
        forall|i: int|
            0 <= i < k && b[i] == 0 ==> best_prefix(b, false, depth, k) <= minimax_spec(
                b.update(i, 2),
                true,
                depth + 1,
            ),
        best_prefix(b, false, depth, k) == 100 || exists|i: int|
            0 <= i < k && b[i] == 0 && minimax_spec(b.update(i, 2), true, depth + 1)
                == best_prefix(b, false, depth, k),
    decreases k,
{
    if k > 0 {
        lemma_best_prefix_min(b, depth, k - 1);
    }
}

/// Round trip for the minimizer: on a non-terminal board with O to
/// move, every legal reply scores at least the searched value, and the
/// move the search prefers scores exactly that value - the prediction
/// is a tight lower bound on what playing it yields.
pub proof fn lemma_minimizer_roundtrip(b: Seq<u8>, depth: int)
    requires
        b.len() == 9,
        evaluation(b, depth) == 3,
        num_empty(b) >= 1,
        0 <= depth,
        depth + num_empty(b) <= 90,
    ensures
        forall|i: int|
            0 <= i < 9 && b[i] == 0 ==> minimax_spec(b, false, depth) <= minimax_spec(
                b.update(i, 2),
                true,
                depth + 1,
            ),
        exists|i: int|
            0 <= i < 9 && b[i] == 0 && minimax_spec(b.update(i, 2), true, depth + 1)
                == minimax_spec(b, false, depth),
{
    lemma_best_prefix_min(b, depth, 9);
    if best_prefix(b, false, depth, 9) == 100 {
        // the fold kept the sentinel, so every child scored at least 100;
        // pick one child and squeeze its score to exactly 100
        assert(b[0] == 0 || b[1] == 0 || b[2] == 0 || b[3] == 0 || b[4] == 0 || b[5] == 0 || b[6]
            == 0 || b[7] == 0 || b[8] == 0);
        let j = choose|j: int| 0 <= j < 9 && b[j] == 0;
        lemma_num_empty_update(b, j, 2);
        lemma_minimax_spec_bounds(b.update(j, 2), true, depth + 1);
        assert(minimax_spec(b.update(j, 2), true, depth + 1) == 100);
    }
}

} // verus!
