//! Tic-tac-toe against the bot: the board, the win check, the bot's moves and the
//! game that waits for the player's reactions.

use vstd::prelude::*;
use crate::actions::{Action, ActionView, actions_view, emit};
use crate::random::{random_i32, random_usize};
use crate::text::{push_u64, dec, push_char, parse_u32, parsed_in_range, opt_text};

verus! {

/// A tile of the board: a cross, a nought, or empty.
#[derive(Clone, Copy, PartialEq, Eq, Debug, Structural)]
pub enum Tile {
    X,
    O,
    E,
}

/// Three tiles hold `t`.
pub open spec fn three(b: Seq<Tile>, t: Tile, i: int, j: int, k: int) -> bool {
    b[i] == t && b[j] == t && b[k] == t
}

/// `t` fills a row, a column or a diagonal.
pub open spec fn has_line(b: Seq<Tile>, t: Tile) -> bool {
    ||| three(b, t, 0, 1, 2)
    ||| three(b, t, 3, 4, 5)
    ||| three(b, t, 6, 7, 8)
    ||| three(b, t, 0, 3, 6)
    ||| three(b, t, 1, 4, 7)
    ||| three(b, t, 2, 5, 8)
    ||| three(b, t, 0, 4, 8)
    ||| three(b, t, 2, 4, 6)
}

/// No tile is empty.
pub open spec fn full(b: Seq<Tile>) -> bool {
    forall|i: int| 0 <= i < 9 ==> b[i] != Tile::E
}

/// The result of the win check: 1 when someone has a line, 2 when the board is full
/// without one, 0 otherwise.
pub open spec fn win_state(b: Seq<Tile>) -> i32 {
    if has_line(b, Tile::X) || has_line(b, Tile::O) { 1 } else if full(b) { 2 } else { 0 }
}

/// Checks the board: 1 when X or O has a line, 2 for a full board without one (a
/// tie), 0 while the game goes on.
pub fn win_check(board: &[Tile; 9]) -> (r: i32)
    ensures
        r == win_state(board@),
{
    if (board[0] == Tile::X && board[1] == Tile::X && board[2] == Tile::X)
        || (board[3] == Tile::X && board[4] == Tile::X && board[5] == Tile::X)
        || (board[6] == Tile::X && board[7] == Tile::X && board[8] == Tile::X)
        || (board[0] == Tile::X && board[3] == Tile::X && board[6] == Tile::X)
        || (board[1] == Tile::X && board[4] == Tile::X && board[7] == Tile::X)
        || (board[2] == Tile::X && board[5] == Tile::X && board[8] == Tile::X)
        || (board[0] == Tile::X && board[4] == Tile::X && board[8] == Tile::X)
        || (board[2] == Tile::X && board[4] == Tile::X && board[6] == Tile::X)
    {
        return 1;
    }
    if (board[0] == Tile::O && board[1] == Tile::O && board[2] == Tile::O)
        || (board[3] == Tile::O && board[4] == Tile::O && board[5] == Tile::O)
        || (board[6] == Tile::O && board[7] == Tile::O && board[8] == Tile::O)
        || (board[0] == Tile::O && board[3] == Tile::O && board[6] == Tile::O)
        || (board[1] == Tile::O && board[4] == Tile::O && board[7] == Tile::O)
        || (board[2] == Tile::O && board[5] == Tile::O && board[8] == Tile::O)
        || (board[0] == Tile::O && board[4] == Tile::O && board[8] == Tile::O)
        || (board[2] == Tile::O && board[4] == Tile::O && board[6] == Tile::O)
    {
        return 1;
    }
    assert(!has_line(board@, Tile::X) && !has_line(board@, Tile::O));
    let mut i: usize = 0;
    while i < 9
        invariant
            i <= 9,
            !has_line(board@, Tile::X) && !has_line(board@, Tile::O),
            forall|j: int| 0 <= j < i ==> board@[j] != Tile::E,
        decreases 9 - i,
    {
        if board[i] == Tile::E {
            assert(!full(board@)) by {
                assert(board@[i as int] == Tile::E);
            }
            return 0;
        }
        i = i + 1;
    }
    2
}

/// Two tiles hold `t`.
pub open spec fn pair(b: Seq<Tile>, t: Tile, i: int, j: int) -> bool {
    b[i] == t && b[j] == t
}

/// Putting `t` on the empty tile `i` completes a line of `t` through it.
pub open spec fn completes(b: Seq<Tile>, t: Tile, i: int) -> bool {
    b[i] == Tile::E && if i == 0 {
        pair(b, t, 1, 2) || pair(b, t, 3, 6) || pair(b, t, 4, 8)
    } else if i == 1 {
        pair(b, t, 0, 2) || pair(b, t, 4, 7)
    } else if i == 2 {
        pair(b, t, 0, 1) || pair(b, t, 5, 8) || pair(b, t, 4, 6)
    } else if i == 3 {
        pair(b, t, 0, 6) || pair(b, t, 4, 5)
    } else if i == 4 {
        pair(b, t, 0, 8) || pair(b, t, 1, 7) || pair(b, t, 2, 6) || pair(b, t, 3, 5)
    } else if i == 5 {
        pair(b, t, 3, 4) || pair(b, t, 2, 8)
    } else if i == 6 {
        pair(b, t, 7, 8) || pair(b, t, 0, 3) || pair(b, t, 2, 4)
    } else if i == 7 {
        pair(b, t, 6, 8) || pair(b, t, 1, 4)
    } else if i == 8 {
        pair(b, t, 6, 7) || pair(b, t, 2, 5) || pair(b, t, 0, 4)
    } else {
        false
    }
}

/// The tile `i` lies on a line that `t` fills.
pub open spec fn line_through(b: Seq<Tile>, t: Tile, i: int) -> bool {
    ||| three(b, t, 0, 1, 2) && (i == 0 || i == 1 || i == 2)
    ||| three(b, t, 3, 4, 5) && (i == 3 || i == 4 || i == 5)
    ||| three(b, t, 6, 7, 8) && (i == 6 || i == 7 || i == 8)
    ||| three(b, t, 0, 3, 6) && (i == 0 || i == 3 || i == 6)
    ||| three(b, t, 1, 4, 7) && (i == 1 || i == 4 || i == 7)
    ||| three(b, t, 2, 5, 8) && (i == 2 || i == 5 || i == 8)
    ||| three(b, t, 0, 4, 8) && (i == 0 || i == 4 || i == 8)
    ||| three(b, t, 2, 4, 6) && (i == 2 || i == 4 || i == 6)
}

/// The moves that the bot looks for are exactly the winning ones: a tile completes
/// a line of `t` when it is empty and putting `t` there fills a line through it.
pub proof fn lemma_completes_wins(b: Seq<Tile>, t: Tile, i: int)
    requires
        b.len() == 9,
        0 <= i < 9,
        t != Tile::E,
    ensures
        completes(b, t, i) <==> (b[i] == Tile::E && line_through(b.update(i, t), t, i)),
        completes(b, t, i) ==> has_line(b.update(i, t), t),
{
}

/// The first tile from `k` on, in the order up to 8, that completes a line of `t`.
pub open spec fn first_from(b: Seq<Tile>, t: Tile, k: int) -> Option<int>
    decreases 9 - k,
{
    if k >= 9 {
        None
    } else if completes(b, t, k) {
        Some(k)
    } else {
        first_from(b, t, k + 1)
    }
}

/// A tile found from `k` on lies between `k` and 8 and completes a line, and no
/// tile before it from `k` on does.
pub proof fn lemma_first_from(b: Seq<Tile>, t: Tile, k: int)
    requires
        0 <= k,
    ensures
        first_from(b, t, k) matches Some(i) ==> k <= i < 9 && completes(b, t, i)
            && forall|j: int| k <= j < i ==> !completes(b, t, j),
        first_from(b, t, k) is None ==> forall|j: int| k <= j < 9 ==> !completes(b, t, j),
    decreases 9 - k,
{
    if k < 9 {
        lemma_first_from(b, t, k + 1);
    }
}

/// The first tile, in the order 0 to 8, that completes a line of `t`.
pub open spec fn first_completing(b: Seq<Tile>, t: Tile) -> Option<int> {
    first_from(b, t, 0)
}

/// Whether putting `t` on the empty tile `i` completes a line of `t` through it.
pub fn completes_at(board: &[Tile; 9], t: Tile, i: usize) -> (c: bool)
    requires
        i < 9,
    ensures
        c == completes(board@, t, i as int),
{
    if board[i] != Tile::E {
        return false;
    }
    if i == 0 {
        (board[1] == t && board[2] == t) || (board[3] == t && board[6] == t) || (board[4] == t && board[8] == t)
    } else if i == 1 {
        (board[0] == t && board[2] == t) || (board[4] == t && board[7] == t)
    } else if i == 2 {
        (board[0] == t && board[1] == t) || (board[5] == t && board[8] == t) || (board[4] == t && board[6] == t)
    } else if i == 3 {
        (board[0] == t && board[6] == t) || (board[4] == t && board[5] == t)
    } else if i == 4 {
        (board[0] == t && board[8] == t) || (board[1] == t && board[7] == t) || (board[2] == t && board[6] == t)
            || (board[3] == t && board[5] == t)
    } else if i == 5 {
        (board[3] == t && board[4] == t) || (board[2] == t && board[8] == t)
    } else if i == 6 {
        (board[7] == t && board[8] == t) || (board[0] == t && board[3] == t) || (board[2] == t && board[4] == t)
    } else if i == 7 {
        (board[6] == t && board[8] == t) || (board[1] == t && board[4] == t)
    } else {
        (board[6] == t && board[7] == t) || (board[2] == t && board[5] == t) || (board[0] == t && board[4] == t)
    }
}

/// The first tile that completes a line of `t`, as `(tile, true)`, or `(0, false)`.
fn first_completing_move(board: &[Tile; 9], t: Tile) -> (r: (usize, bool))
    ensures
        r == as_move(first_completing(board@, t)),
{
    let mut i: usize = 0;
    while i < 9
        invariant
            i <= 9,
            first_completing(board@, t) == first_from(board@, t, i as int),
        decreases 9 - i,
    {
        if completes_at(board, t, i) {
            return (i, true);
        }
        i = i + 1;
    }
    (0, false)
}

/// The answer of a move finder: `(tile, true)`, or `(0, false)` when there is none.
pub open spec fn as_move(o: Option<int>) -> (usize, bool) {
    match o {
        Some(i) => (i as usize, true),
        None => (0, false),
    }
}

/// The first tile that wins for O (the bot), as `(tile, true)`, or `(0, false)`.
pub fn go_two_os(board: &[Tile; 9]) -> (r: (usize, bool))
    ensures
        r == as_move(first_completing(board@, Tile::O)),
{
    first_completing_move(board, Tile::O)
}

/// The first tile that would win for X (the player), which the bot blocks, as
/// `(tile, true)`, or `(0, false)`.
pub fn go_two_xs(board: &[Tile; 9]) -> (r: (usize, bool))
    ensures
        r == as_move(first_completing(board@, Tile::X)),
{
    first_completing_move(board, Tile::X)
}

/// The middle tile, when it is empty.
pub fn go_middle(board: &[Tile; 9]) -> (r: (usize, bool))
    ensures
        r == (if board@[4] == Tile::E { (4usize, true) } else { (0usize, false) }),
{
    if board[4] == Tile::E {
        return (4, true);
    }
    (0, false)
}


/// The edge (or the middle) that `go_rand_norm_edge` tries for a roll from 1 to 5.
pub open spec fn norm_edge_tile(roll: i32) -> int {
    if roll == 1 { 1 } else if roll == 2 { 3 } else if roll == 3 { 4 } else if roll == 4 { 5 } else { 7 }
}

/// One try of `go_rand_norm_edge`: the tile for the roll if it is empty.
pub open spec fn norm_edge_pick(b: Seq<Tile>, roll: i32) -> (usize, bool) {
    let t = norm_edge_tile(roll);
    if b[t] == Tile::E { (t as usize, true) } else { (0, false) }
}

/// The corner that `go_rand_norm_corner` tries for a roll from 1 to 4.
pub open spec fn corner_tile(roll: i32) -> int {
    if roll == 1 { 0 } else if roll == 2 { 2 } else if roll == 3 { 6 } else { 8 }
}

/// One try of `go_rand_norm_corner`: the corner for the roll if it is empty.
pub open spec fn norm_corner_pick(b: Seq<Tile>, roll: i32) -> (usize, bool) {
    let t = corner_tile(roll);
    if b[t] == Tile::E { (t as usize, true) } else { (0, false) }
}

/// One try of `go_randcorner_w_bordering_edge`: the corner for the roll if it is
/// empty and both edges beside it hold X. For the bottom right corner the answer is
/// the tile number 9, one past the board.
pub open spec fn bordering_edge_pick(b: Seq<Tile>, roll: i32) -> (usize, bool) {
    if roll == 1 {
        if b[0] == Tile::E && b[3] == Tile::X && b[1] == Tile::X { (0, true) } else { (0, false) }
    } else if roll == 2 {
        if b[2] == Tile::E && b[1] == Tile::X && b[5] == Tile::X { (2, true) } else { (0, false) }
    } else if roll == 3 {
        if b[6] == Tile::E && b[3] == Tile::X && b[7] == Tile::X { (6, true) } else { (0, false) }
    } else {
        if b[8] == Tile::E && b[5] == Tile::X && b[7] == Tile::X { (9, true) } else { (0, false) }
    }
}

/// One try of `go_rand_corner_w_bordering_corner`: the corner for the roll if it is
/// empty and a corner beside it holds X.
pub open spec fn bordering_corner_pick(b: Seq<Tile>, roll: i32) -> (usize, bool) {
    if roll == 1 {
        if (b[2] == Tile::X && b[0] == Tile::E) || (b[6] == Tile::X && b[0] == Tile::E) { (0, true) } else { (0, false) }
    } else if roll == 2 {
        if (b[0] == Tile::X && b[2] == Tile::E) || (b[8] == Tile::X && b[2] == Tile::E) { (2, true) } else { (0, false) }
    } else if roll == 3 {
        if (b[0] == Tile::X && b[6] == Tile::E) || (b[8] == Tile::X && b[6] == Tile::E) { (6, true) } else { (0, false) }
    } else {
        if (b[2] == Tile::X && b[8] == Tile::E) || (b[6] == Tile::X && b[8] == Tile::E) { (8, true) } else { (0, false) }
    }
}

/// One try of `go_complete_random`: the tile of the roll if it is empty.
pub open spec fn any_pick(b: Seq<Tile>, roll: i32) -> (usize, bool) {
    if b[roll as int] == Tile::E { (roll as usize, true) } else { (0, false) }
}

/// The board shape on which the bot answers with an edge: X on two tiles of the
/// listed pairs and O in the middle.
pub open spec fn xs_apart(b: Seq<Tile>) -> bool {
    ||| b[0] == Tile::X && b[8] == Tile::X && b[4] == Tile::O
    ||| b[2] == Tile::X && b[6] == Tile::X && b[4] == Tile::O
    ||| b[0] == Tile::X && b[6] == Tile::X && b[4] == Tile::O
    ||| b[8] == Tile::X && b[7] == Tile::X && b[4] == Tile::O
    ||| b[2] == Tile::X && b[0] == Tile::X && b[4] == Tile::O
    ||| b[2] == Tile::X && b[8] == Tile::X && b[4] == Tile::O
}

/// One try at an edge for a roll from 1 to 5.
pub fn norm_edge_for_roll(board: &[Tile; 9], roll: i32) -> (r: (usize, bool))
    requires
        1 <= roll <= 5,
    ensures
        r == norm_edge_pick(board@, roll),
{
    if roll == 1 {
        if board[1] == Tile::E { return (1, true); }
    } else if roll == 2 {
        if board[3] == Tile::E { return (3, true); }
    } else if roll == 3 {
        if board[4] == Tile::E { return (4, true); }
    } else if roll == 4 {
        if board[5] == Tile::E { return (5, true); }
    } else {
        if board[7] == Tile::E { return (7, true); }
    }
    (0, false)
}

/// Tries one random edge (or the middle): the tile if it is empty, else `(0, false)`.
pub fn go_rand_norm_edge(board: &[Tile; 9]) -> (r: (usize, bool))
    ensures
        exists|roll: i32| 1 <= roll <= 5 && r == #[trigger] norm_edge_pick(board@, roll),
{
    let roll = random_i32(1, 6);
    norm_edge_for_roll(board, roll)
}

/// When X holds two tiles apart with O in the middle, up to a hundred tries at a
/// random edge.
pub fn go_two_xs_nonconsecutive(board: &[Tile; 9]) -> (r: (usize, bool))
    ensures
        r.1 ==> xs_apart(board@) && exists|roll: i32| 1 <= roll <= 5 && r == #[trigger] norm_edge_pick(board@, roll),
        !r.1 ==> r == (0usize, false),
        !r.1 ==> !xs_apart(board@) || edge_missed(board@),
{
    let mut k: usize = 1;
    while k < 101
        invariant
            1 <= k <= 101,
            k > 1 ==> !xs_apart(board@) || edge_missed(board@),
        decreases 101 - k,
    {
        if (board[0] == Tile::X && board[8] == Tile::X && board[4] == Tile::O)
            || (board[2] == Tile::X && board[6] == Tile::X && board[4] == Tile::O)
            || (board[0] == Tile::X && board[6] == Tile::X && board[4] == Tile::O)
            || (board[8] == Tile::X && board[7] == Tile::X && board[4] == Tile::O)
            || (board[2] == Tile::X && board[0] == Tile::X && board[4] == Tile::O)
            || (board[2] == Tile::X && board[8] == Tile::X && board[4] == Tile::O)
        {
            let norm_edge = go_rand_norm_edge(board);
            if norm_edge.1 {
                return (norm_edge.0, true);
            }
        }
        k = k + 1;
    }
    (0, false)
}

/// Up to a hundred tries at a random corner whose two neighbouring edges hold X.
pub fn go_randcorner_w_bordering_edge(board: &[Tile; 9]) -> (r: (usize, bool))
    ensures
        r.1 ==> exists|roll: i32| 1 <= roll <= 4 && r == #[trigger] bordering_edge_pick(board@, roll),
        !r.1 ==> r == (0usize, false),
        exists|roll: i32| 1 <= roll <= 4 && r == #[trigger] bordering_edge_pick(board@, roll),
{
    let mut k: usize = 1;
    let ghost mut last: i32 = 1;
    while k < 101
        invariant
            1 <= k <= 101,
            k > 1 ==> 1 <= last <= 4 && bordering_edge_pick(board@, last) == (0usize, false),
        decreases 101 - k,
    {
        let roll = random_i32(1, 5);
        proof {
            last = roll;
        }
        if roll == 1 {
            if board[0] == Tile::E && board[3] == Tile::X && board[1] == Tile::X {
                assert(bordering_edge_pick(board@, roll) == (0usize, true));
                return (0, true);
            }
        } else if roll == 2 {
            if board[2] == Tile::E && board[1] == Tile::X && board[5] == Tile::X {
                assert(bordering_edge_pick(board@, roll) == (2usize, true));
                return (2, true);
            }
        } else if roll == 3 {
            if board[6] == Tile::E && board[3] == Tile::X && board[7] == Tile::X {
                assert(bordering_edge_pick(board@, roll) == (6usize, true));
                return (6, true);
            }
        } else {
            if board[8] == Tile::E && board[5] == Tile::X && board[7] == Tile::X {
                assert(bordering_edge_pick(board@, roll) == (9usize, true));
                return (9, true);
            }
        }
        k = k + 1;
    }
    assert(bordering_edge_pick(board@, last) == (0usize, false));
    (0, false)
}

/// Up to a hundred tries at a random corner.
pub fn go_rand_norm_corner(board: &[Tile; 9]) -> (r: (usize, bool))
    ensures
        r.1 ==> exists|roll: i32| 1 <= roll <= 4 && r == #[trigger] norm_corner_pick(board@, roll),
        !r.1 ==> r == (0usize, false),
        exists|roll: i32| 1 <= roll <= 4 && r == #[trigger] norm_corner_pick(board@, roll),
{
    let mut k: usize = 1;
    let ghost mut last: i32 = 1;
    while k < 101
        invariant
            1 <= k <= 101,
            k > 1 ==> 1 <= last <= 4 && norm_corner_pick(board@, last) == (0usize, false),
        decreases 101 - k,
    {
        let roll = random_i32(1, 5);
        proof {
            last = roll;
        }
        if roll == 1 {
            if board[0] == Tile::E { assert(norm_corner_pick(board@, roll) == (0usize, true)); return (0, true); }
        } else if roll == 2 {
            if board[2] == Tile::E { assert(norm_corner_pick(board@, roll) == (2usize, true)); return (2, true); }
        } else if roll == 3 {
            if board[6] == Tile::E { assert(norm_corner_pick(board@, roll) == (6usize, true)); return (6, true); }
        } else {
            if board[8] == Tile::E {
                assert(norm_corner_pick(board@, roll) == (8usize, true));
                return (8, true);
            }
        }
        k = k + 1;
    }
    assert(norm_corner_pick(board@, last) == (0usize, false));
    (0, false)
}

/// Up to a hundred tries at a random corner next to a corner that holds X.
pub fn go_rand_corner_w_bordering_corner(board: &[Tile; 9]) -> (r: (usize, bool))
    ensures
        r.1 ==> exists|roll: i32| 1 <= roll <= 4 && r == #[trigger] bordering_corner_pick(board@, roll),
        !r.1 ==> r == (0usize, false),
        exists|roll: i32| 1 <= roll <= 4 && r == #[trigger] bordering_corner_pick(board@, roll),
{
    let mut k: usize = 1;
    let ghost mut last: i32 = 1;
    while k < 101
        invariant
            1 <= k <= 101,
            k > 1 ==> 1 <= last <= 4 && bordering_corner_pick(board@, last) == (0usize, false),
        decreases 101 - k,
    {
        let roll = random_i32(1, 5);
        proof {
            last = roll;
        }
        if roll == 1 {
            if (board[2] == Tile::X && board[0] == Tile::E) || (board[6] == Tile::X && board[0] == Tile::E) {
                assert(bordering_corner_pick(board@, roll) == (0usize, true));
                return (0, true);
            }
        } else if roll == 2 {
            if (board[0] == Tile::X && board[2] == Tile::E) || (board[8] == Tile::X && board[2] == Tile::E) {
                assert(bordering_corner_pick(board@, roll) == (2usize, true));
                return (2, true);
            }
        } else if roll == 3 {
            if (board[0] == Tile::X && board[6] == Tile::E) || (board[8] == Tile::X && board[6] == Tile::E) {
                assert(bordering_corner_pick(board@, roll) == (6usize, true));
                return (6, true);
            }
        } else {
            if (board[2] == Tile::X && board[8] == Tile::E) || (board[6] == Tile::X && board[8] == Tile::E) {
                assert(bordering_corner_pick(board@, roll) == (8usize, true));
                return (8, true);
            }
        }
        k = k + 1;
    }
    assert(bordering_corner_pick(board@, last) == (0usize, false));
    (0, false)
}

/// Up to a hundred tries at a random tile.
pub fn go_complete_random(board: &[Tile; 9]) -> (r: (usize, bool))
    ensures
        r.1 ==> exists|roll: i32| 0 <= roll <= 8 && r == #[trigger] any_pick(board@, roll),
        !r.1 ==> r == (0usize, false),
        exists|roll: i32| 0 <= roll <= 8 && r == #[trigger] any_pick(board@, roll),
{
    let mut k: usize = 1;
    let ghost mut last: i32 = 0;
    while k < 101
        invariant
            1 <= k <= 101,
            k > 1 ==> 0 <= last <= 8 && any_pick(board@, last) == (0usize, false),
        decreases 101 - k,
    {
        let roll = random_i32(0, 9);
        proof {
            last = roll;
        }
        let t = roll as usize;
        if board[t] == Tile::E {
            assert(any_pick(board@, roll) == (t, true));
            return (t, true);
        }
        k = k + 1;
    }
    assert(any_pick(board@, last) == (0usize, false));
    (0, false)
}

/// Whether the bot plays well this turn for a roll from 0 to 100: always at
/// difficulty 100, otherwise when the roll is below the difficulty.
pub open spec fn plays_well(diffgen: i32, roll: i32) -> bool {
    diffgen == 100 || roll < diffgen
}

/// The difficulty is the bot's chance in 101 of playing well: below 100, exactly
/// the rolls from 0 to the difficulty less one give a good turn, so between 1 and
/// 99 both a good and a bad turn can be drawn; at 100 or more every roll gives a
/// good turn, and at 0 or less none does.
pub proof fn lemma_difficulty_chance(d: i32)
    ensures
        d != 100 ==> forall|roll: i32| #[trigger] plays_well(d, roll) <==> roll < d,
        0 < d < 100 ==> plays_well(d, 0) && !plays_well(d, 100),
        d >= 100 ==> forall|roll: i32| 0 <= roll <= 100 ==> #[trigger] plays_well(d, roll),
        d <= 0 ==> forall|roll: i32| 0 <= roll <= 100 ==> !#[trigger] plays_well(d, roll),
{
}

/// Draws whether the bot plays well this turn; the difficulty is the chance in
/// percent, and 100 means always.
pub fn computer_diff_gen(diffgen: i32) -> (b: bool)
    ensures
        exists|roll: i32| 0 <= roll <= 100 && b == #[trigger] plays_well(diffgen, roll),
{
    if diffgen == 100 {
        assert(plays_well(diffgen, 0));
        true
    } else {
        let roll = random_i32(0, 101);
        assert(plays_well(diffgen, roll) == (roll < diffgen));
        if roll >= diffgen {
            false
        } else {
            true
        }
    }
}

/// Some roll from 1 to 5 gives `r` as a found edge (or the middle).
pub open spec fn edge_hit(b: Seq<Tile>, r: (usize, bool)) -> bool {
    exists|roll: i32| 1 <= roll <= 5 && r == #[trigger] norm_edge_pick(b, roll) && r.1
}

/// Some roll from 1 to 5 finds its edge taken.
pub open spec fn edge_missed(b: Seq<Tile>) -> bool {
    exists|roll: i32| 1 <= roll <= 5 && #[trigger] norm_edge_pick(b, roll) == (0usize, false)
}

/// Some roll from 1 to 4 gives `r` as a found corner between two X edges.
pub open spec fn bordering_edge_hit(b: Seq<Tile>, r: (usize, bool)) -> bool {
    exists|roll: i32| 1 <= roll <= 4 && r == #[trigger] bordering_edge_pick(b, roll) && r.1
}

/// Some roll from 1 to 4 finds no corner between two X edges.
pub open spec fn bordering_edge_missed(b: Seq<Tile>) -> bool {
    exists|roll: i32| 1 <= roll <= 4 && #[trigger] bordering_edge_pick(b, roll) == (0usize, false)
}

/// Some roll from 1 to 4 gives `r` as a found empty corner.
pub open spec fn corner_hit(b: Seq<Tile>, r: (usize, bool)) -> bool {
    exists|roll: i32| 1 <= roll <= 4 && r == #[trigger] norm_corner_pick(b, roll) && r.1
}

/// Some roll from 1 to 4 finds its corner taken.
pub open spec fn corner_missed(b: Seq<Tile>) -> bool {
    exists|roll: i32| 1 <= roll <= 4 && #[trigger] norm_corner_pick(b, roll) == (0usize, false)
}

/// Some roll from 1 to 4 gives `r` as a found corner next to an X corner.
pub open spec fn bordering_corner_hit(b: Seq<Tile>, r: (usize, bool)) -> bool {
    exists|roll: i32| 1 <= roll <= 4 && r == #[trigger] bordering_corner_pick(b, roll) && r.1
}

/// Some roll from 1 to 4 finds no corner next to an X corner.
pub open spec fn bordering_corner_missed(b: Seq<Tile>) -> bool {
    exists|roll: i32| 1 <= roll <= 4 && #[trigger] bordering_corner_pick(b, roll) == (0usize, false)
}

/// `r` is what some roll from 0 to 8 gives as a random tile (a miss included).
pub open spec fn any_result(b: Seq<Tile>, r: (usize, bool)) -> bool {
    exists|roll: i32| 0 <= roll <= 8 && r == #[trigger] any_pick(b, roll)
}

/// From the corner next to an X corner on: that corner, or, after a roll that
/// missed it, any tile.
pub open spec fn from_bordering_corner(b: Seq<Tile>, r: (usize, bool)) -> bool {
    bordering_corner_hit(b, r) || (bordering_corner_missed(b) && any_result(b, r))
}

/// From any edge on: an edge, or, after a roll that missed, what follows.
pub open spec fn from_any_edge(b: Seq<Tile>, r: (usize, bool)) -> bool {
    edge_hit(b, r) || (edge_missed(b) && from_bordering_corner(b, r))
}

/// From any corner on: a corner, or, after a roll that missed, what follows.
pub open spec fn from_any_corner(b: Seq<Tile>, r: (usize, bool)) -> bool {
    corner_hit(b, r) || (corner_missed(b) && from_any_edge(b, r))
}

/// From the corner between two X edges on: that corner, or, after a roll that
/// missed it, what follows.
pub open spec fn from_bordering_edge(b: Seq<Tile>, r: (usize, bool)) -> bool {
    bordering_edge_hit(b, r) || (bordering_edge_missed(b) && from_any_corner(b, r))
}

/// From the middle on: the middle if it is empty, else what follows.
pub open spec fn from_middle(b: Seq<Tile>, r: (usize, bool)) -> bool {
    if b[4] == Tile::E { r == (4usize, true) } else { from_bordering_edge(b, r) }
}

/// The bot's move when it plays well and neither side can win at once: the first
/// strategy that succeeded, in order: an edge against two X apart, the middle, a
/// corner between two X edges, any corner, any edge, a corner next to an X
/// corner, any tile. Each later strategy comes only after every earlier one missed
/// on some roll (or did not apply).
pub open spec fn fallback_move(b: Seq<Tile>, r: (usize, bool)) -> bool {
    (xs_apart(b) && edge_hit(b, r)) || ((!xs_apart(b) || edge_missed(b)) && from_middle(b, r))
}

/// The bot's move on a board: playing badly, a random tile; playing well, the
/// winning tile if there is one, else the tile that blocks X, else
/// `fallback_move`.
pub open spec fn bot_move(b: Seq<Tile>, well: bool, r: (usize, bool)) -> bool {
    if !well {
        any_result(b, r)
    } else if first_completing(b, Tile::O) is Some {
        r == as_move(first_completing(b, Tile::O))
    } else if first_completing(b, Tile::X) is Some {
        r == as_move(first_completing(b, Tile::X))
    } else {
        fallback_move(b, r)
    }
}

/// A move of the bot is `(tile, true)` on an empty tile, or the tile number 9 of
/// the bordering-edge move, or `(0, false)` for no move.
pub open spec fn sound_move(b: Seq<Tile>, r: (usize, bool)) -> bool {
    &&& r.1 ==> (r.0 < 9 && b[r.0 as int] == Tile::E) || (r.0 == 9 && b[8] == Tile::E && b[5] == Tile::X && b[7] == Tile::X)
    &&& !r.1 ==> r == (0usize, false)
}

/// The bot's move. Playing well, it wins when it can (the first winning tile), else
/// blocks the player (the first tile where X would win), else tries, in order, an
/// edge against two X apart, the middle, a corner between two X edges, any corner,
/// any edge, a corner next to an X corner, and any tile. Playing badly, it tries
/// any tile.
pub fn computer_move(board: &[Tile; 9], plays_well: bool) -> (r: (usize, bool))
    ensures
        sound_move(board@, r),
        plays_well && first_completing(board@, Tile::O) is Some ==> r == as_move(first_completing(board@, Tile::O)),
        plays_well && first_completing(board@, Tile::O) is None && first_completing(board@, Tile::X) is Some
            ==> r == as_move(first_completing(board@, Tile::X)),
        plays_well && first_completing(board@, Tile::O) is None && first_completing(board@, Tile::X) is None
            && board@[4] == Tile::E && !xs_apart(board@) ==> r == (4usize, true),
        plays_well && first_completing(board@, Tile::O) is None && first_completing(board@, Tile::X) is None
            && board@[4] == Tile::E ==> r == (4usize, true) || (xs_apart(board@)
            && exists|roll: i32| 1 <= roll <= 5 && r == #[trigger] norm_edge_pick(board@, roll)),
        !plays_well ==> exists|roll: i32| 0 <= roll <= 8 && r == #[trigger] any_pick(board@, roll),
        !r.1 ==> exists|roll: i32| 0 <= roll <= 8 && r == #[trigger] any_pick(board@, roll),
        bot_move(board@, plays_well, r),
{
    proof {
        lemma_first_from(board@, Tile::O, 0);
        lemma_first_from(board@, Tile::X, 0);
    }
    if plays_well {
        let two_os = go_two_os(board);
        if two_os.1 {
            return (two_os.0, true);
        }
        let two_xs = go_two_xs(board);
        if two_xs.1 {
            return (two_xs.0, true);
        }
        let two_xs_nonconsecutive = go_two_xs_nonconsecutive(board);
        if two_xs_nonconsecutive.1 {
            return (two_xs_nonconsecutive.0, true);
        }
        let middle = go_middle(board);
        if middle.1 {
            return (middle.0, true);
        }
        let randcorner_w_bordering_edge = go_randcorner_w_bordering_edge(board);
        if randcorner_w_bordering_edge.1 {
            return (randcorner_w_bordering_edge.0, true);
        }
        let rand_norm_corner = go_rand_norm_corner(board);
        if rand_norm_corner.1 {
            return (rand_norm_corner.0, true);
        }
        let rand_norm_edge = go_rand_norm_edge(board);
        if rand_norm_edge.1 {
            return (rand_norm_edge.0, true);
        }
        let rand_corner_w_bordering_corner = go_rand_corner_w_bordering_corner(board);
        if rand_corner_w_bordering_corner.1 {
            return (rand_corner_w_bordering_corner.0, true);
        }
        let complete_random = go_complete_random(board);
        if complete_random.1 {
            return (complete_random.0, true);
        }
    } else {
        let complete_random = go_complete_random(board);
        if complete_random.1 {
            return (complete_random.0, true);
        }
    }
    (0, false)
}

/// The bot's turn at a difficulty: draws whether it plays well, then moves.
pub fn computer_turn(board: &[Tile; 9], diffcomp: i32) -> (r: (usize, bool))
    ensures
        sound_move(board@, r),
        diffcomp >= 100 && first_completing(board@, Tile::O) is Some ==> r == as_move(first_completing(board@, Tile::O)),
        diffcomp >= 100 && first_completing(board@, Tile::O) is None && first_completing(board@, Tile::X) is Some
            ==> r == as_move(first_completing(board@, Tile::X)),
        !r.1 ==> exists|roll: i32| 0 <= roll <= 8 && r == #[trigger] any_pick(board@, roll),
        diffcomp <= 0 ==> exists|roll: i32| 0 <= roll <= 8 && r == #[trigger] any_pick(board@, roll),
        exists|roll: i32| 0 <= roll <= 100 && #[trigger] bot_move(board@, plays_well(diffcomp, roll), r),
        (forall|i: int| 0 <= i < 9 ==> board@[i] == Tile::E) ==> r.1,
{
    let well = computer_diff_gen(diffcomp);
    let r = computer_move(board, well);
    proof {
        let roll = choose|roll: i32| 0 <= roll <= 100 && well == #[trigger] plays_well(diffcomp, roll);
        assert(bot_move(board@, plays_well(diffcomp, roll), r));
    }
    r
}


/// How a tile is shown.
pub open spec fn tile_char(t: Tile) -> char {
    match t {
        Tile::X => 'X',
        Tile::O => 'O',
        Tile::E => '-',
    }
}

/// The character of a tile: X, O, or - for an empty one.
pub fn print_tile(t: Tile) -> (c: char)
    ensures
        c == tile_char(t),
{
    match t {
        Tile::X => 'X',
        Tile::O => 'O',
        _ => '-',
    }
}

/// A row of the board as shown: three tiles separated by " | ".
pub open spec fn row_text(b: Seq<Tile>, i: int) -> Seq<char> {
    seq![tile_char(b[i])] + " | "@ + seq![tile_char(b[i + 1])] + " | "@ + seq![tile_char(b[i + 2])]
}

/// The board in a code block, followed by the key to the tile numbers.
pub open spec fn board_text(b: Seq<Tile>) -> Seq<char> {
    "```"@ + row_text(b, 0) + "\n"@ + row_text(b, 3) + "\n"@ + row_text(b, 6) + "```\n"@
        + "\n`Key:\n1 | 2 | 3\n4 | 5 | 6\n7 | 8 | 9`"@
}

fn push_row(out: &mut String, board: &[Tile; 9], i: usize)
    requires
        i <= 6,
    ensures
        final(out)@ == old(out)@ + row_text(board@, i as int),
{
    push_char(out, print_tile(board[i]));
    out.append(" | ");
    push_char(out, print_tile(board[i + 1]));
    out.append(" | ");
    push_char(out, print_tile(board[i + 2]));
    assert(out@ =~= old(out)@ + row_text(board@, i as int));
}

/// Formats the board with the key to the tile numbers.
pub fn format_board(board: &[Tile; 9]) -> (to_return: String)
    ensures
        to_return@ == board_text(board@),
{
    let mut to_return = String::new();
    to_return.append("```");
    push_row(&mut to_return, board, 0);
    to_return.append("\n");
    push_row(&mut to_return, board, 3);
    to_return.append("\n");
    push_row(&mut to_return, board, 6);
    to_return.append("```\n");
    to_return.append("\n`Key:\n1 | 2 | 3\n4 | 5 | 6\n7 | 8 | 9`");
    assert(to_return@ =~= board_text(board@));
    to_return
}

/// The tile that a reaction picks: 🎫 the first, 📈 the second, 🛑 the third.
pub open spec fn reaction_tile(emoji: Seq<char>) -> Option<usize> {
    if emoji == "🎫"@ { Some(0) } else if emoji == "📈"@ { Some(1) } else if emoji == "🛑"@ { Some(2) } else { None }
}

/// Reads the tile that a reaction picks.
pub fn tile_of_reaction(emoji: &str) -> (r: Option<usize>)
    ensures
        r == reaction_tile(emoji@),
{
    let e = emoji.to_string();
    if e == "🎫".to_string() {
        Some(0)
    } else if e == "📈".to_string() {
        Some(1)
    } else if e == "🛑".to_string() {
        Some(2)
    } else {
        None
    }
}

/// What the game waits for.
#[derive(Clone, Copy, PartialEq, Eq, Debug, Structural)]
pub enum Event {
    /// A reaction: the tile it picks, if any, and whether the player reacted.
    Reacted { tile: Option<usize>, by_player: bool },
    /// The time to react ran out.
    TimedOut,
}

/// A game as the contracts see it.
pub struct GameView {
    pub board: Seq<Tile>,
    pub difficulty: u32,
    pub bot_to_move: bool,
    pub over: bool,
}

/// A game of tic-tac-toe: the player has X, the bot O.
pub struct TicTacToe {
    board: [Tile; 9],
    difficulty: u32,
    bot_to_move: bool,
    over: bool,
}

impl View for TicTacToe {
    type V = GameView;

    closed spec fn view(&self) -> GameView {
        GameView { board: self.board@, difficulty: self.difficulty, bot_to_move: self.bot_to_move, over: self.over }
    }
}

/// The text under the title when the game ends: the difficulty, what it means for
/// the player (`outcome`), and the time taken.
pub open spec fn end_text(difficulty: u32, outcome: Seq<char>, secs: u64) -> Seq<char> {
    "Difficulty was: "@ + dec(difficulty as nat) + outcome + " monies.\nTime: "@ + dec(secs as nat) + " seconds"@
}

pub open spec fn won_words() -> Seq<char> { ", so you won WIP"@ }
pub open spec fn lost_words() -> Seq<char> { ", so you lost WIP"@ }
pub open spec fn tie_words() -> Seq<char> { ", but you didn't win any"@ }

pub open spec fn edit(title: Seq<char>, description: Seq<char>) -> ActionView {
    ActionView::Edit(title, Some(description))
}

/// The prompt that opens a game: the key to the tiles.
pub open spec fn board_key() -> Seq<char> {
    "1 | 2 | 3\n----------\n4 | 5 | 6\n----------\n7 | 8 | 9"@
}

/// How the game answers an event while it waits for the player.
pub open spec fn play_spec(g: GameView, e: Event, secs: u64) -> (GameView, Seq<ActionView>) {
    if g.over || g.bot_to_move {
        (g, Seq::empty())
    } else {
        match e {
            Event::TimedOut => (GameView { over: true, ..g }, seq![edit("Timed out."@,
                "Two minutes passed with no reactions, so the shop closed."@)]),
            Event::Reacted { tile, by_player } => if !by_player {
                (g, Seq::empty())
            } else {
                match tile {
                    None => (g, Seq::empty()),
                    Some(t) => if t >= 9 {
                        (g, Seq::empty())
                    } else if g.board[t as int] != Tile::E {
                        (g, seq![ActionView::Log("someone has already gone there!"@), ActionView::Pause(1000)])
                    } else {
                        let b = g.board.update(t as int, Tile::X);
                        let w = win_state(b);
                        if w == 1 {
                            (GameView { board: b, over: true, ..g }, seq![edit("You win!"@, end_text(g.difficulty, won_words(), secs))])
                        } else if w == 2 {
                            (GameView { board: b, over: true, ..g }, seq![edit("Tie."@, end_text(g.difficulty, tie_words(), secs))])
                        } else {
                            (GameView { board: b, bot_to_move: true, ..g }, seq![ActionView::Pause(1000)])
                        }
                    }
                }
            },
        }
    }
}

/// How the game answers the bot's move.
pub open spec fn bot_spec(g: GameView, mv: (usize, bool), secs: u64) -> (GameView, Seq<ActionView>) {
    let b = if mv.1 { g.board.update(mv.0 as int, Tile::O) } else { g.board };
    let a = seq![edit("playing"@, board_text(b))];
    let w = win_state(b);
    if w == 1 {
        (GameView { board: b, over: true, bot_to_move: false, ..g }, a.push(edit("You lose!"@, end_text(g.difficulty, lost_words(), secs))))
    } else if w == 2 {
        (GameView { board: b, over: true, bot_to_move: false, ..g }, a.push(edit("Tie."@, end_text(g.difficulty, tie_words(), secs))))
    } else {
        (GameView { board: b, bot_to_move: false, ..g }, a)
    }
}

fn end_description(difficulty: u32, outcome: &str, secs: u64) -> (s: String)
    ensures
        s@ == end_text(difficulty, outcome@, secs),
{
    let mut s = "Difficulty was: ".to_string();
    push_u64(&mut s, difficulty as u64);
    s.append(outcome);
    s.append(" monies.\nTime: ");
    push_u64(&mut s, secs);
    s.append(" seconds");
    s
}

impl TicTacToe {
    /// A new game at the difficulty the player chose, and the prompt for the first move.
    pub fn new(difficulty: u32) -> (r: (TicTacToe, Vec<Action>))
        ensures
            r.0@.board == Seq::new(9, |i: int| Tile::E),
            r.0@.difficulty == difficulty,
            !r.0@.bot_to_move,
            !r.0@.over,
            actions_view(r.1@) == seq![edit(board_key(), "What is your first move?"@)],
            game_ok(r.0@),
    {
        let g = TicTacToe {
            board: [Tile::E, Tile::E, Tile::E, Tile::E, Tile::E, Tile::E, Tile::E, Tile::E, Tile::E],
            difficulty,
            bot_to_move: false,
            over: false,
        };
        assert(g@.board =~= Seq::new(9, |i: int| Tile::E));
        assert(!full(g@.board)) by {
            assert(g@.board[0] == Tile::E);
        }
        let mut acts: Vec<Action> = Vec::new();
        emit(&mut acts, Action::Edit {
            title: "1 | 2 | 3\n----------\n4 | 5 | 6\n----------\n7 | 8 | 9".to_string(),
            description: Some("What is your first move?".to_string()),
        });
        assert(actions_view(acts@) =~= seq![edit(board_key(), "What is your first move?"@)]);
        (g, acts)
    }

    /// The board.
    pub fn board(&self) -> (b: &[Tile; 9])
        ensures
            b@ == self@.board,
    {
        &self.board
    }

    /// Whether the bot moves next.
    pub fn bot_to_move(&self) -> (b: bool)
        ensures
            b == self@.bot_to_move,
    {
        self.bot_to_move
    }

    /// Whether the game is over.
    pub fn is_over(&self) -> (b: bool)
        ensures
            b == self@.over,
    {
        self.over
    }

    /// The difficulty handed to the bot's turn: the chosen difficulty as an `i32`.
    pub fn bot_difficulty(&self) -> (d: i32)
        ensures
            d == self@.difficulty as i32,
    {
        self.difficulty as i32
    }

    /// The player's turn: answers a reaction (or the end of the time to react), `secs`
    /// being the seconds since the game began.
    pub fn play(&mut self, e: Event, secs: u64) -> (acts: Vec<Action>)
        ensures
            (final(self)@, actions_view(acts@)) == play_spec(old(self)@, e, secs),
    {
        let mut acts: Vec<Action> = Vec::new();
        let ghost g = self@;
        if self.over || self.bot_to_move {
            assert(actions_view(acts@) =~= Seq::<ActionView>::empty());
            return acts;
        }
        match e {
            Event::TimedOut => {
                emit(&mut acts, Action::Edit {
                    title: "Timed out.".to_string(),
                    description: Some("Two minutes passed with no reactions, so the shop closed.".to_string()),
                });
                self.over = true;
            },
            Event::Reacted { tile, by_player } => {
                if !by_player {
                    assert(actions_view(acts@) =~= Seq::<ActionView>::empty());
                    return acts;
                }
                match tile {
                    None => {},
                    Some(t) => {
                        if t >= 9 {
                            assert(actions_view(acts@) =~= Seq::<ActionView>::empty());
                            return acts;
                        }
                        if self.board[t] != Tile::E {
                            emit(&mut acts, Action::Log("someone has already gone there!".to_string()));
                            emit(&mut acts, Action::Pause(1000));
                        } else {
                            self.board[t] = Tile::X;
                            let win = win_check(&self.board);
                            if win == 1 {
                                let d = end_description(self.difficulty, ", so you won WIP", secs);
                                emit(&mut acts, Action::Edit { title: "You win!".to_string(), description: Some(d) });
                                self.over = true;
                            } else if win == 2 {
                                let d = end_description(self.difficulty, ", but you didn't win any", secs);
                                emit(&mut acts, Action::Edit { title: "Tie.".to_string(), description: Some(d) });
                                self.over = true;
                            } else {
                                emit(&mut acts, Action::Pause(1000));
                                self.bot_to_move = true;
                            }
                        }
                    },
                }
            },
        }
        proof {
            let r = play_spec(g, e, secs);
            assert(self@.board =~= r.0.board);
            assert(actions_view(acts@) =~= r.1);
        }
        acts
    }

    /// The bot's turn with the move from `computer_turn`, `secs` being the seconds
    /// since the game began. A move must lie on the board.
    pub fn bot_plays(&mut self, mv: (usize, bool), secs: u64) -> (acts: Vec<Action>)
        requires
            old(self)@.bot_to_move,
            mv.1 ==> mv.0 < 9,
        ensures
            (final(self)@, actions_view(acts@)) == bot_spec(old(self)@, mv, secs),
    {
        let ghost g = self@;
        let mut acts: Vec<Action> = Vec::new();
        if mv.1 {
            self.board[mv.0] = Tile::O;
        }
        let response = format_board(&self.board);
        emit(&mut acts, Action::Edit { title: "playing".to_string(), description: Some(response) });
        let win = win_check(&self.board);
        if win == 1 {
            let d = end_description(self.difficulty, ", so you lost WIP", secs);
            emit(&mut acts, Action::Edit { title: "You lose!".to_string(), description: Some(d) });
            self.over = true;
        } else if win == 2 {
            let d = end_description(self.difficulty, ", but you didn't win any", secs);
            emit(&mut acts, Action::Edit { title: "Tie.".to_string(), description: Some(d) });
            self.over = true;
        }
        self.bot_to_move = false;
        proof {
            let r = bot_spec(g, mv, secs);
            assert(self@.board =~= r.0.board);
            assert(actions_view(acts@) =~= r.1);
        }
        acts
    }
}

/// Marks stay: a tile that holds X or O keeps it, whoever moves next.
pub proof fn lemma_marks_stay(g: GameView, e: Event, secs: u64, mv: (usize, bool))
    requires
        g.board.len() == 9,
        sound_move(g.board, mv) && mv.0 < 9 || !mv.1,
    ensures
        forall|i: int| 0 <= i < 9 && g.board[i] != Tile::E ==> #[trigger] play_spec(g, e, secs).0.board[i] == g.board[i],
        forall|i: int| 0 <= i < 9 && g.board[i] != Tile::E ==> #[trigger] bot_spec(g, mv, secs).0.board[i] == g.board[i],
{
}

/// A board on which the game goes on: nine tiles, no line, a tile still empty.
pub open spec fn running_board(b: Seq<Tile>) -> bool {
    b.len() == 9 && !has_line(b, Tile::X) && !has_line(b, Tile::O) && !full(b)
}

/// A game as the engine leaves it: nine tiles; while it goes on, the board has no
/// line and an empty tile; the bot moves only in a game that goes on.
pub open spec fn game_ok(g: GameView) -> bool {
    &&& g.board.len() == 9
    &&& !g.over ==> running_board(g.board)
    &&& g.bot_to_move ==> !g.over
}

/// Whether the last action shows `title`.
pub open spec fn ends_with(acts: Seq<ActionView>, title: Seq<char>) -> bool {
    acts.len() > 0 && (acts.last() matches ActionView::Edit(t, _) && t == title)
}

proof fn lemma_place(b: Seq<Tile>, t: int, m: Tile, other: Tile)
    requires
        b.len() == 9,
        0 <= t < 9,
        b[t] == Tile::E,
        m != Tile::E,
        other != m,
        other != Tile::E,
    ensures
        has_line(b.update(t, m), other) == has_line(b, other),
        forall|i: int| 0 <= i < 9 && #[trigger] b.update(t, m)[i] != b[i] ==> i == t,
        b.update(t, m).len() == 9,
{
}

proof fn lemma_titles_differ()
    ensures
        "You win!"@ != "You lose!"@,
        "You win!"@ != "Tie."@,
        "You win!"@ != "Timed out."@,
        "You win!"@ != "playing"@,
        "You lose!"@ != "Tie."@,
        "You lose!"@ != "Timed out."@,
        "You lose!"@ != "playing"@,
        "Tie."@ != "Timed out."@,
        "Tie."@ != "playing"@,
{
    reveal_strlit("You win!");
    reveal_strlit("You lose!");
    reveal_strlit("Tie.");
    reveal_strlit("Timed out.");
    reveal_strlit("playing");
    assert("You win!"@.len() == 8);
    assert("You lose!"@.len() == 9);
    assert("Tie."@.len() == 4);
    assert("Timed out."@.len() == 10);
    assert("playing"@.len() == 7);
}

proof fn lemma_play_endings(g: GameView, e: Event, secs: u64)
    requires
        game_ok(g),
    ensures
        ({
            let p = play_spec(g, e, secs);
            &&& game_ok(p.0)
            &&& forall|i: int| 0 <= i < 9 && #[trigger] p.0.board[i] != g.board[i] ==> g.board[i] == Tile::E
                && p.0.board[i] == Tile::X
            &&& !g.over && !g.bot_to_move ==> {
                &&& ends_with(p.1, "You win!"@) <==> p.0.over && has_line(p.0.board, Tile::X)
                &&& ends_with(p.1, "You win!"@) ==> !has_line(p.0.board, Tile::O)
                &&& ends_with(p.1, "Tie."@) <==> p.0.over && full(p.0.board) && !has_line(p.0.board, Tile::X)
                    && !has_line(p.0.board, Tile::O)
            }
        }),
{
    lemma_titles_differ();
    let p = play_spec(g, e, secs);
    if !g.over && !g.bot_to_move {
        match e {
            Event::TimedOut => {
                assert(p.0.board == g.board);
                assert(ends_with(p.1, "Timed out."@));
            },
            Event::Reacted { tile, by_player } => {
                if by_player {
                    match tile {
                        None => {},
                        Some(t) => {
                            if t < 9 && g.board[t as int] == Tile::E {
                                let nb = g.board.update(t as int, Tile::X);
                                lemma_place(g.board, t as int, Tile::X, Tile::O);
                                assert(p.0.board == nb);
                                if win_state(nb) == 1 {
                                    assert(has_line(nb, Tile::X));
                                    assert(ends_with(p.1, "You win!"@));
                                } else if win_state(nb) == 2 {
                                    assert(ends_with(p.1, "Tie."@));
                                } else {
                                    assert(running_board(nb));
                                    assert(p.1 == seq![ActionView::Pause(1000)]);
                                }
                            }
                        },
                    }
                }
            },
        }
    }
}

proof fn lemma_bot_endings(g: GameView, secs: u64, mv: (usize, bool))
    requires
        game_ok(g),
        mv.1 ==> mv.0 < 9 && g.board[mv.0 as int] == Tile::E,
    ensures
        g.bot_to_move ==> ({
            let b = bot_spec(g, mv, secs);
            &&& game_ok(b.0)
            &&& forall|i: int| 0 <= i < 9 && #[trigger] b.0.board[i] != g.board[i] ==> g.board[i] == Tile::E
                && b.0.board[i] == Tile::O
            &&& ends_with(b.1, "You lose!"@) <==> has_line(b.0.board, Tile::O)
            &&& ends_with(b.1, "You lose!"@) ==> !has_line(b.0.board, Tile::X)
            &&& ends_with(b.1, "Tie."@) <==> full(b.0.board) && !has_line(b.0.board, Tile::X)
                && !has_line(b.0.board, Tile::O)
        }),
{
    lemma_titles_differ();
    if g.bot_to_move {
        let b = bot_spec(g, mv, secs);
        let nb = if mv.1 { g.board.update(mv.0 as int, Tile::O) } else { g.board };
        if mv.1 {
            lemma_place(g.board, mv.0 as int, Tile::O, Tile::X);
        }
        assert(b.0.board == nb);
        if win_state(nb) == 1 {
            assert(has_line(nb, Tile::O));
            assert(ends_with(b.1, "You lose!"@));
        } else if win_state(nb) == 2 {
            assert(ends_with(b.1, "Tie."@));
        } else {
            assert(ends_with(b.1, "playing"@));
            assert(running_board(nb));
        }
    }
}

/// The endings of tic-tac-toe. Every game that `new` starts is kept well formed by
/// both turns. A tile changes only from empty, to X on the player's turn and to O on
/// the bot's. The player's turn ends the game with "You win!" exactly when X then
/// holds a line (and O none), and with "Tie." exactly when the board is full without
/// a line; the bot's turn ends it with "You lose!" exactly when O then holds a line
/// (and X none), and with "Tie." exactly when the board is full without a line.
pub proof fn lemma_endings(g: GameView, e: Event, secs: u64, mv: (usize, bool))
    requires
        game_ok(g),
        mv.1 ==> mv.0 < 9 && g.board[mv.0 as int] == Tile::E,
    ensures
        ({
            let p = play_spec(g, e, secs);
            &&& game_ok(p.0)
            &&& forall|i: int| 0 <= i < 9 && #[trigger] p.0.board[i] != g.board[i] ==> g.board[i] == Tile::E
                && p.0.board[i] == Tile::X
            &&& !g.over && !g.bot_to_move ==> {
                &&& ends_with(p.1, "You win!"@) <==> p.0.over && has_line(p.0.board, Tile::X)
                &&& ends_with(p.1, "You win!"@) ==> !has_line(p.0.board, Tile::O)
                &&& ends_with(p.1, "Tie."@) <==> p.0.over && full(p.0.board) && !has_line(p.0.board, Tile::X)
                    && !has_line(p.0.board, Tile::O)
            }
        }),
        g.bot_to_move ==> ({
            let b = bot_spec(g, mv, secs);
            &&& game_ok(b.0)
            &&& forall|i: int| 0 <= i < 9 && #[trigger] b.0.board[i] != g.board[i] ==> g.board[i] == Tile::E
                && b.0.board[i] == Tile::O
            &&& ends_with(b.1, "You lose!"@) <==> has_line(b.0.board, Tile::O)
            &&& ends_with(b.1, "You lose!"@) ==> !has_line(b.0.board, Tile::X)
            &&& ends_with(b.1, "Tie."@) <==> full(b.0.board) && !has_line(b.0.board, Tile::X)
                && !has_line(b.0.board, Tile::O)
        }),
{
    lemma_play_endings(g, e, secs);
    lemma_bot_endings(g, secs, mv);
}

/// The difficulty that `^tictactoe [difficulty]` reads from its first word, or the
/// reply when there is no such number.
pub open spec fn ttt_args(diff: Option<Seq<char>>) -> Result<u32, Seq<char>> {
    match diff {
        Some(w) => match parsed_in_range(w, false, 0, u32::MAX as int) {
            Some(dv) => Ok(dv as u32),
            None => Err("Please [correct arguments]"@),
        },
        None => Err("Please [correct arguments]"@),
    }
}

/// Reads the difficulty of `^tictactoe [difficulty]`.
pub fn tictactoe_args(diff: Option<&str>) -> (r: Result<u32, String>)
    ensures
        match r {
            Ok(v) => ttt_args(opt_text(diff)) == Ok::<u32, Seq<char>>(v),
            Err(m) => ttt_args(opt_text(diff)) == Err::<u32, Seq<char>>(m@),
        },
{
    let d = match diff { Some(w) => parse_u32(w), None => None };
    match d {
        Some(v) => Ok(v),
        None => Err("Please [correct arguments]".to_string()),
    }
}

} // verus!
