//! The turn-based game state machine behind the user interface.
//!
//! `App` holds the authoritative board, whose turn it is and where the
//! cursor stands; the interface layer feeds it key presses and asks it
//! to detect wins and to play the computer's move. Every transition is
//! pure state mutation, specified field by field.

use vstd::prelude::*;

use crate::ai::lemma_num_empty_update;
use crate::ai::mark_of;
use crate::ai::minimax;
use crate::ai::minimax_spec;
use crate::ai::num_empty;

verus! {

/// The whole game state the interface works on. Cells hold 0 (empty),
/// 1 (X) or 2 (O); `won` holds 0 while the game runs, the winning mark
/// once there is one, or 3 for a draw.
pub struct App {
    pub gamestate: [u8; 9],
    pub cursor_pos: u8,
    pub x_turn: bool,
    pub exit: bool,
    pub turn: u8,
    pub won: u8,
    pub ai_mode: bool,
    pub start: bool,
}

/// Where the cursor lands when asked to move: 0 is up, 1 left, 2 down,
/// 3 right; a move off the board is ignored, as is any other direction.
pub open spec fn moved_cursor(cur: u8, direction: u8) -> u8
    recommends
        cur < 9,
{
    if direction == 0 {
        if cur < 3 {
            cur
        } else {
            (cur - 3) as u8
        }
    } else if direction == 1 {
        if cur % 3 == 0 {
            cur
        } else {
            (cur - 1) as u8
        }
    } else if direction == 2 {
        if cur > 5 {
            cur
        } else {
            (cur + 3) as u8
        }
    } else if direction == 3 {
        if cur % 3 == 2 {
            cur
        } else {
            (cur + 1) as u8
        }
    } else {
        cur
    }
}

/// Cells `a`, `c` and `e` hold the same value, empty or not.
pub open spec fn line_equal(b: Seq<u8>, a: int, c: int, e: int) -> bool {
    b[a] == b[c] && b[a] == b[e]
}

/// What the win detector leaves in `won`: the first all-equal row or
/// column settles it with its cell value (so a row of empties masks
/// everything after it); otherwise a full board at `turn` above 8 is a
/// draw, taking precedence over an all-equal diagonal, of which the
/// second checked wins. Before turn 4 nothing is examined.
pub open spec fn updated_won(b: Seq<u8>, turn: int, won: u8) -> u8 {
    if turn < 4 {
        won
    } else if line_equal(b, 0, 1, 2) {
        b[0]
    } else if line_equal(b, 0, 3, 6) {
        b[0]
    } else if line_equal(b, 3, 4, 5) {
        b[3]
    } else if line_equal(b, 1, 4, 7) {
        b[1]
    } else if line_equal(b, 6, 7, 8) {
        b[6]
    } else if line_equal(b, 2, 5, 8) {
        b[2]
    } else if turn > 8 {
        3
    } else if line_equal(b, 2, 4, 6) {
        b[2]
    } else if line_equal(b, 0, 4, 8) {
        b[0]
    } else {
        won
    }
}

/// The computer's choice for O among the empty cells with index below
/// `i`: the first cell whose searched score is strictly the lowest so
/// far, starting from a bar of 10 and the no-move sentinel cell 9.
pub open spec fn o_choice(b: Seq<u8>, depth: int, i: int) -> (int, int)
    decreases i,
    when b.len() == 9 && 0 <= i <= 9
{
    if i <= 0 {
        (10, 9)
    } else {
        let prev = o_choice(b, depth, i - 1);
        if b[i - 1] == 0 && minimax_spec(b.update(i - 1, 2), true, depth) < prev.0 {
            (minimax_spec(b.update(i - 1, 2), true, depth), i - 1)
        } else {
            prev
        }
    }
}

impl App {
    /// The cursor is on the board and the turn counter agrees with the
    /// number of marks placed.
    pub open spec fn wf(self) -> bool {
        self.cursor_pos < 9 && self.turn as int + num_empty(self.gamestate@) == 9
    }

    pub fn start_game(&mut self, ai_on: bool)
        ensures
            *final (self) == (App {
                start: true,
                ai_mode: old(self).ai_mode || ai_on,
                ..*old(self)
            }),
    {
        if ai_on {
            self.ai_mode = true;
        }
        self.start = true;
    }

    pub fn move_cursor(&mut self, direction: u8)
        requires
            old(self).cursor_pos < 9,
        ensures
            *final (self) == (App {
                cursor_pos: moved_cursor(old(self).cursor_pos, direction),
                ..*old(self)
            }),
            final (self).cursor_pos < 9,
    {
        match direction {
            0 => self.cursor_pos = if self.cursor_pos < 3 {
                self.cursor_pos
            } else {
                self.cursor_pos - 3
            },
            1 => self.cursor_pos = if self.cursor_pos % 3 == 0 {
                self.cursor_pos
            } else {
                self.cursor_pos - 1
            },
            2 => self.cursor_pos = if self.cursor_pos > 5 {
                self.cursor_pos
            } else {
                self.cursor_pos + 3
            },
            3 => self.cursor_pos = if self.cursor_pos % 3 == 2 {
                self.cursor_pos
            } else {
                self.cursor_pos + 1
            },
            _ => {},
        }
    }

    /// Place `player`'s mark on the empty cell `pos` and pass the turn.
    pub fn play_move(&mut self, pos: usize, player: u8)
        requires
            old(self).wf(),
            pos < 9,
            old(self).gamestate@[pos as int] == 0,
            player == 1 || player == 2,
        ensures
            final (self).wf(),
            final (self).gamestate@ == old(self).gamestate@.update(pos as int, player),
            final (self).x_turn == !old(self).x_turn,
            final (self).turn as int == old(self).turn as int + 1,
            final (self).cursor_pos == old(self).cursor_pos,
            final (self).exit == old(self).exit,
            final (self).won == old(self).won,
            final (self).ai_mode == old(self).ai_mode,
            final (self).start == old(self).start,
    {
        proof {
            lemma_num_empty_update(self.gamestate@, pos as int, player);
        }
        self.gamestate[pos] = player;
        self.x_turn = !self.x_turn;
        self.turn = self.turn + 1;
    }

    /// Play the current side's mark on the cell under the cursor, if
    /// that cell is still empty; otherwise do nothing.
    pub fn select(&mut self)
        requires
            old(self).wf(),
        ensures
            final (self).wf(),
            ({
                let a = *old(self);
                let z = *final (self);
                if a.gamestate@[a.cursor_pos as int] == 0 {
                    &&& z.gamestate@ == a.gamestate@.update(a.cursor_pos as int, mark_of(a.x_turn))
                    &&& z.x_turn == !a.x_turn
                    &&& z.turn as int == a.turn as int + 1
                    &&& z.cursor_pos == a.cursor_pos
                    &&& z.exit == a.exit
                    &&& z.won == a.won
                    &&& z.ai_mode == a.ai_mode
                    &&& z.start == a.start
                } else {
                    z == a
                }
            }),
    {
        let pos = self.cursor_pos as usize;
        if self.gamestate[pos] == 0 {
            let player: u8 = if self.x_turn {
                1
            } else {
                2
            };
            self.play_move(pos, player);
        }
    }

    pub fn exit(&mut self)
        ensures
            *final (self) == (App { exit: true, ..*old(self) }),
    {
        self.exit = true;
    }

    /// Decide a single key press: q quits, wasd move the cursor, space
    /// plays the cell under the cursor, 1 and 2 leave the start screen
    /// (2 with the computer opponent switched on).
    pub fn handle_key_event(&mut self, key: char)
        requires
            old(self).wf(),
        ensures
            final (self).wf(),
            key == 'q' ==> *final (self) == (App { exit: true, ..*old(self) }),
            key == 'w' ==> *final (self) == (App {
                cursor_pos: moved_cursor(old(self).cursor_pos, 0),
                ..*old(self)
            }),
            key == 'a' ==> *final (self) == (App {
                cursor_pos: moved_cursor(old(self).cursor_pos, 1),
                ..*old(self)
            }),
            key == 's' ==> *final (self) == (App {
                cursor_pos: moved_cursor(old(self).cursor_pos, 2),
                ..*old(self)
            }),
            key == 'd' ==> *final (self) == (App {
                cursor_pos: moved_cursor(old(self).cursor_pos, 3),
                ..*old(self)
            }),
            key == ' ' ==> ({
                let a = *old(self);
                let z = *final (self);
                if a.gamestate@[a.cursor_pos as int] == 0 {
                    &&& z.gamestate@ == a.gamestate@.update(a.cursor_pos as int, mark_of(a.x_turn))
                    &&& z.x_turn == !a.x_turn
                    &&& z.turn as int == a.turn as int + 1
                    &&& z.cursor_pos == a.cursor_pos
                } else {
                    z == a
                }
            }),
            key == '2' ==> *final (self) == (App { start: true, ai_mode: true, ..*old(self) }),
            key == '1' ==> *final (self) == (App { start: true, ..*old(self) }),
            !(key == 'q' || key == 'w' || key == 'a' || key == 's' || key == 'd' || key == ' '
                || key == '2' || key == '1') ==> *final (self) == *old(self),
    {
        match key {
            'q' => self.exit(),
            'w' => self.move_cursor(0),
            'a' => self.move_cursor(1),
            's' => self.move_cursor(2),
            'd' => self.move_cursor(3),
            ' ' => self.select(),
            '2' => self.start_game(true),
            '1' => self.start_game(false),
            _ => {},
        }
    }

    /// Record in `won` what the board shows, exactly as `updated_won`
    /// describes; nothing else changes.
    pub fn check_state(&mut self)
        ensures
            *final (self) == (App {
                won: updated_won(old(self).gamestate@, old(self).turn as int, old(self).won),
                ..*old(self)
            }),
    {
        // on turns 1-3 no side can have three marks yet
        if self.turn < 4 {
            return ;
        }
        let mut i: usize = 0;
        while i < 3
            invariant
                0 <= i <= 3,
                *self == *old(self),
                self.turn >= 4,
                i >= 1 ==> !line_equal(self.gamestate@, 0, 1, 2) && !line_equal(
                    self.gamestate@,
                    0,
                    3,
                    6,
                ),
                i >= 2 ==> !line_equal(self.gamestate@, 3, 4, 5) && !line_equal(
                    self.gamestate@,
                    1,
                    4,
                    7,
                ),
                i >= 3 ==> !line_equal(self.gamestate@, 6, 7, 8) && !line_equal(
                    self.gamestate@,
                    2,
                    5,
                    8,
                ),
            decreases 3 - i,
        {
            let n = i * 3;
            if self.gamestate[n] == self.gamestate[n + 1] && self.gamestate[n] == self.gamestate[n
                + 2] {
                self.won = self.gamestate[n];
                return ;
            }
            if self.gamestate[i] == self.gamestate[i + 3] && self.gamestate[i] == self.gamestate[i
                + 6] {
                self.won = self.gamestate[i];
                return ;
            }
            i = i + 1;
        }

        if self.gamestate[0] == self.gamestate[4] && self.gamestate[0] == self.gamestate[8] {
            self.won = self.gamestate[0];
        }
        if self.gamestate[2] == self.gamestate[4] && self.gamestate[2] == self.gamestate[6] {
            self.won = self.gamestate[2];
        }

        // once all 9 turns are played and no line returned above, a draw
        if self.turn > 8 {
            self.won = 3;
            return ;
        }
    }

    /// When it is O's turn, search every empty cell and play the one
    /// `o_choice` names; with no cell scoring below the bar, play none.
    pub fn run_ai_player(&mut self)
        requires
            old(self).wf(),
        ensures
            final (self).wf(),
            ({
                let a = *old(self);
                let z = *final (self);
                let choice = o_choice(a.gamestate@, a.turn as int, 9);
                if a.x_turn || choice.1 == 9 {
                    z == a
                } else {
                    &&& z.gamestate@ == a.gamestate@.update(choice.1, 2)
                    &&& z.x_turn == true
                    &&& z.turn as int == a.turn as int + 1
                    &&& z.cursor_pos == a.cursor_pos
                    &&& z.exit == a.exit
                    &&& z.won == a.won
                    &&& z.ai_mode == a.ai_mode
                    &&& z.start == a.start
                }
            }),
    {
        if self.x_turn {
            return ;
        }
        let mut best_value: i8 = 10;
        let mut best_move: usize = 9;

        let mut i: usize = 0;
        while i < 9
            invariant
                0 <= i <= 9,
                *self == *old(self),
                old(self).wf(),
                !self.x_turn,
                best_value as int == o_choice(self.gamestate@, self.turn as int, i as int).0,
                best_move as int == o_choice(self.gamestate@, self.turn as int, i as int).1,
                best_move == 9 || (best_move < 9 && self.gamestate@[best_move as int] == 0),
            decreases 9 - i,
        {
            if self.gamestate[i] == 0 {
                let mut next_gamestate = self.gamestate;
                next_gamestate[i] = 2;
                proof {
                    lemma_num_empty_update(self.gamestate@, i as int, 2);
                }
                let next_value = minimax(next_gamestate, true, self.turn as i8);
                if next_value < best_value {
                    best_move = i;
                    best_value = next_value;
                }
            }
            i = i + 1;
        }

        if best_move == 9 {
            return ;
        }
        self.play_move(best_move, 2);
    }
}

proof fn lemma_o_choice_prefix(b: Seq<u8>, depth: int, k: int)
    requires
        b.len() == 9,
        0 <= k <= 9,
    ensures
        ({
            let c = o_choice(b, depth, k);
            &&& c.0 <= 10
            &&& c.1 == 9 ==> c.0 == 10
            &&& c.1 != 9 ==> 0 <= c.1 < k && b[c.1] == 0 && minimax_spec(b.update(c.1, 2), true, depth) == c.0
            &&& forall|i: int|
                0 <= i < k && b[i] == 0 ==> c.0 <= minimax_spec(b.update(i, 2), true, depth)
        }),
    decreases k,
{
    if k > 0 {
        lemma_o_choice_prefix(b, depth, k - 1);
    }
}

/// The move the computer selects for O is optimal under the search: no
/// empty cell scores lower than the chosen one, the chosen cell scores
/// exactly the value the search reported, and when no cell is chosen
/// every candidate scores at least the bar of 10.
pub proof fn lemma_ai_choice_optimal(b: Seq<u8>, depth: int)
    requires
        b.len() == 9,
    ensures
        ({
            let c = o_choice(b, depth, 9);
            &&& c.0 <= 10
            &&& c.1 == 9 ==> c.0 == 10
            &&& c.1 != 9 ==> 0 <= c.1 < 9 && b[c.1] == 0 && minimax_spec(b.update(c.1, 2), true, depth) == c.0
            &&& forall|i: int|
                0 <= i < 9 && b[i] == 0 ==> c.0 <= minimax_spec(b.update(i, 2), true, depth)
        }),
{
    lemma_o_choice_prefix(b, depth, 9);
}

impl Default for App {
    /// A fresh game: empty board, cursor on the first cell, nothing
    /// started, nobody's turn assigned yet.
    fn default() -> (app: App)
        ensures
            app.wf(),
            forall|i: int| 0 <= i < 9 ==> app.gamestate@[i] == 0,
            app.cursor_pos == 0,
            app.x_turn == false,
            app.exit == false,
            app.turn == 0,
            app.won == 0,
            app.ai_mode == false,
            app.start == false,
    {
        App {
            gamestate: [0u8;9],
            cursor_pos: 0,
            x_turn: false,
            exit: false,
            turn: 0,
            won: 0,
            ai_mode: false,
            start: false,
        }
    }
}

} // verus!
