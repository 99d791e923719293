use vstd::prelude::*;

use crate::game::EndState;

verus! {

/// The empty cell.
pub const EMPTY: char = ' ';

/// The team that moves first, and the first joiner's team.
pub const FIRST_TEAM: char = 'X';

/// The team that moves second.
pub const SECOND_TEAM: char = 'O';

pub open spec fn is_team(c: char) -> bool {
    c == FIRST_TEAM || c == SECOND_TEAM
}

pub open spec fn other_team(c: char) -> char {
    if c == FIRST_TEAM {
        SECOND_TEAM
    } else {
        FIRST_TEAM
    }
}

pub open spec fn is_cell(c: char) -> bool {
    c == EMPTY || is_team(c)
}

/// The eight lines of three cells: rows, then columns, then diagonals.
pub open spec fn line(k: int) -> (int, int, int) {
    if k == 0 {
        (0, 1, 2)
    } else if k == 1 {
        (3, 4, 5)
    } else if k == 2 {
        (6, 7, 8)
    } else if k == 3 {
        (0, 3, 6)
    } else if k == 4 {
        (1, 4, 7)
    } else if k == 5 {
        (2, 5, 8)
    } else if k == 6 {
        (0, 4, 8)
    } else {
        (2, 4, 6)
    }
}

/// Line `k` holds three equal marks of a team.
pub open spec fn line_won(b: Seq<char>, k: int) -> bool {
    let (p, q, s) = line(k);
    b[p] != EMPTY && b[p] == b[q] && b[p] == b[s]
}

/// The mark on the first completed line from line `k` on.
pub open spec fn first_win(b: Seq<char>, k: int) -> Option<char>
    decreases 8 - k,
{
    if k >= 8 {
        None
    } else if line_won(b, k) {
        Some(b[line(k).0])
    } else {
        first_win(b, k + 1)
    }
}

/// The team that has completed a line, taking the lines in their fixed order.
pub open spec fn winner_of(b: Seq<char>) -> Option<char> {
    first_win(b, 0)
}

/// No cell of the board is empty.
pub open spec fn is_full(b: Seq<char>) -> bool {
    forall|i: int| 0 <= i < b.len() ==> b[i] != EMPTY
}

/// The end that a board has reached, if any.
pub open spec fn end_of(b: Seq<char>) -> Option<EndState> {
    match winner_of(b) {
        Some(t) => Some(EndState::Win(t)),
        None => if is_full(b) {
            Some(EndState::Draw)
        } else {
            None
        },
    }
}

pub open spec fn empty_board() -> Seq<char> {
    Seq::new(9, |i: int| EMPTY)
}

/// The empty board has no winner and is not full.
pub(crate) proof fn lemma_empty_board_open()
    ensures
        winner_of(empty_board()) == None::<char>,
        !is_full(empty_board()),
        end_of(empty_board()) == None::<EndState>,
{
    reveal_with_fuel(first_win, 9);
    assert(empty_board()[0] == EMPTY);
}

/// The cells of line `k`.
fn line_cells(k: usize) -> (r: (usize, usize, usize))
    requires
        k < 8,
    ensures
        r.0 as int == line(k as int).0,
        r.1 as int == line(k as int).1,
        r.2 as int == line(k as int).2,
        r.0 < 9 && r.1 < 9 && r.2 < 9,
{
    if k == 0 {
        (0, 1, 2)
    } else if k == 1 {
        (3, 4, 5)
    } else if k == 2 {
        (6, 7, 8)
    } else if k == 3 {
        (0, 3, 6)
    } else if k == 4 {
        (1, 4, 7)
    } else if k == 5 {
        (2, 5, 8)
    } else if k == 6 {
        (0, 4, 8)
    } else {
        (2, 4, 6)
    }
}

/// The team that has completed a line of `board`, lines taken in their fixed order.
pub fn detect_win(board: &Vec<char>) -> (r: Option<char>)
    requires
        board@.len() == 9,
    ensures
        r == winner_of(board@),
{
    let mut k: usize = 0;
    while k < 8
        invariant
            k <= 8,
            board@.len() == 9,
            first_win(board@, 0) == first_win(board@, k as int),
        decreases 8 - k,
    {
        let (p, q, s) = line_cells(k);
        let c = board[p];
        if c != EMPTY && c == board[q] && c == board[s] {
            return Some(c);
        }
        k = k + 1;
    }
    None
}

/// Whether every cell of `board` is taken.
pub fn detect_draw(board: &Vec<char>) -> (r: bool)
    ensures
        r == is_full(board@),
{
    let mut i: usize = 0;
    while i < board.len()
        invariant
            i <= board@.len(),
            forall|j: int| 0 <= j < i ==> board@[j] != EMPTY,
        decreases board@.len() - i,
    {
        if board[i] == EMPTY {
            return false;
        }
        i = i + 1;
    }
    true
}


/// A completed line of a board of marks holds a team's mark.
pub(crate) proof fn lemma_winner_is_team(b: Seq<char>, k: int)
    requires
        b.len() == 9,
        forall|i: int| 0 <= i < 9 ==> is_cell(b[i]),
    ensures
        first_win(b, k) matches Some(w) ==> is_team(w),
    decreases 8 - k,
{
    if k < 8 && !line_won(b, k) {
        lemma_winner_is_team(b, k + 1);
    }
}

/// A board of marks on which team `t` holds all three cells of line `k`,
/// and on which the other team completes no line, is won by `t`.
pub proof fn lemma_line_wins(b: Seq<char>, k: int, t: char)
    requires
        b.len() == 9,
        forall|i: int| 0 <= i < 9 ==> is_cell(b[i]),
        0 <= k < 8,
        is_team(t),
        b[line(k).0] == t && b[line(k).1] == t && b[line(k).2] == t,
        forall|j: int|
            0 <= j < 8 ==> !(b[line(j).0] == other_team(t) && b[line(j).1] == other_team(t)
                && b[line(j).2] == other_team(t)),
    ensures
        winner_of(b) == Some(t),
{
    lemma_first_win_from(b, 0, k, t);
}

proof fn lemma_first_win_from(b: Seq<char>, j: int, k: int, t: char)
    requires
        b.len() == 9,
        forall|i: int| 0 <= i < 9 ==> is_cell(b[i]),
        0 <= j <= k < 8,
        is_team(t),
        b[line(k).0] == t && b[line(k).1] == t && b[line(k).2] == t,
        forall|m: int|
            0 <= m < 8 ==> !(b[line(m).0] == other_team(t) && b[line(m).1] == other_team(t)
                && b[line(m).2] == other_team(t)),
    ensures
        first_win(b, j) == Some(t),
    decreases k - j,
{
    if j < k && !line_won(b, j) {
        lemma_first_win_from(b, j + 1, k, t);
    }
    if j < k && line_won(b, j) {
        let c = b[line(j).0];
        assert(is_cell(b[line(j).0]));
        if c != t {
            assert(c == other_team(t));
        }
    }
}

proof fn lemma_no_line_from(b: Seq<char>, j: int)
    requires
        0 <= j <= 8,
        forall|k: int| 0 <= k < 8 ==> !line_won(b, k),
    ensures
        first_win(b, j) == None::<char>,
    decreases 8 - j,
{
    if j < 8 {
        lemma_no_line_from(b, j + 1);
    }
}

/// A full board on which no line is completed has no winner and is a draw.
pub proof fn lemma_full_board_draw(b: Seq<char>)
    requires
        b.len() == 9,
        forall|i: int| 0 <= i < 9 ==> b[i] != EMPTY,
        forall|k: int| 0 <= k < 8 ==> !line_won(b, k),
    ensures
        is_full(b),
        winner_of(b) == None::<char>,
        end_of(b) == Some(EndState::Draw),
{
    lemma_no_line_from(b, 0);
}

} // verus!
