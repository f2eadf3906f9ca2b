use vstd::prelude::*;
use vstd::string::StringExecFns;

verus! {

#[derive(Clone, Copy, Debug, PartialEq, Eq, Structural)]
pub enum Player {
    Cross,
    Circle,
}

/// The player whose turn comes next.
pub open spec fn other_player(p: Player) -> Player {
    match p {
        Player::Cross => Player::Circle,
        Player::Circle => Player::Cross,
    }
}

#[derive(Debug)]
pub enum GameError {
    /// A board size outside the supported ones was named.
    InvalidSize(String),
    /// The addressed field is already taken.
    FieldNotFree,
}

/// The supported board sizes.
pub enum BoardOpt {
    ThreeByThree,
    FourByFour,
}

impl BoardOpt {
    /// The number of fields of such a board.
    pub fn dim(self) -> (d: usize)
        ensures
            self is ThreeByThree ==> d == 9,
            self is FourByFour ==> d == 16,
    {
        match self {
            BoardOpt::ThreeByThree => 3 * 3,
            BoardOpt::FourByFour => 4 * 4,
        }
    }
}

#[derive(Debug)]
pub enum State {
    Running,
    Tie,
    Winner(Player),
}

/// A coordinate pair, row first.
pub struct Placement(pub usize, pub usize);

/// The side length of a board with this many fields.
pub open spec fn side_of(len: nat) -> int {
    if len == 9 {
        3
    } else {
        4
    }
}

/// The field at row `r`, column `c` of a row-major board.
pub open spec fn cell_at(b: Seq<Option<Player>>, size: int, r: int, c: int) -> Option<Player> {
    b[r * size + c]
}

/// The field at position `k` of the anti-diagonal scan, which visits
/// the indices `k * (size - 1)` for `k` from 1 to `size`.
pub open spec fn anti_at(b: Seq<Option<Player>>, size: int, k: int) -> Option<Player> {
    b[k * (size - 1)]
}

pub open spec fn row_won(b: Seq<Option<Player>>, size: int, r: int, p: Player) -> bool {
    forall|j: int| 0 <= j < size ==> cell_at(b, size, r, j) == Some(p)
}

pub open spec fn col_won(b: Seq<Option<Player>>, size: int, c: int, p: Player) -> bool {
    forall|i: int| 0 <= i < size ==> cell_at(b, size, i, c) == Some(p)
}

pub open spec fn diag_won(b: Seq<Option<Player>>, size: int, p: Player) -> bool {
    forall|i: int| 0 <= i < size ==> cell_at(b, size, i, i) == Some(p)
}

pub open spec fn anti_diag_won(b: Seq<Option<Player>>, size: int, p: Player) -> bool {
    forall|k: int| 1 <= k <= size ==> anti_at(b, size, k) == Some(p)
}

/// Whether `p` holds a full row, column or diagonal.
pub open spec fn winner_exists(b: Seq<Option<Player>>, size: int, p: Player) -> bool {
    ||| exists|r: int| 0 <= r < size && row_won(b, size, r, p)
    ||| exists|c: int| 0 <= c < size && col_won(b, size, c, p)
    ||| diag_won(b, size, p)
    ||| anti_diag_won(b, size, p)
}

/// Whether either player has won.
pub open spec fn any_winner(b: Seq<Option<Player>>, size: int) -> bool {
    winner_exists(b, size, Player::Cross) || winner_exists(b, size, Player::Circle)
}

/// The row-major index of a coordinate pair.
pub open spec fn flat_index(len: nat, x: int, y: int) -> int {
    if len == 9 {
        x * 3 + y
    } else {
        x * 4 + y
    }
}

/// A legal board: nine or sixteen fields.
pub open spec fn legal_len(len: nat) -> bool {
    len == 9 || len == 16
}

fn row_all(state: &Vec<Option<Player>>, size: usize, r: usize, p: Player) -> (w: bool)
    requires
        legal_len(state@.len()),
        size == side_of(state@.len()),
        r < size,
    ensures
        w == row_won(state@, size as int, r as int, p),
{
    let mut j: usize = 0;
    while j < size
        invariant
            0 <= j <= size,
            legal_len(state@.len()),
            size == side_of(state@.len()),
            r < size,
            forall|t: int| 0 <= t < j ==> cell_at(state@, size as int, r as int, t) == Some(p),
        decreases size - j,
    {
        proof {
            assert(r * size + j < state@.len()) by (nonlinear_arith)
                requires
                    r < size,
                    j < size,
                    legal_len(state@.len()),
                    size == side_of(state@.len()),
            ;
        }
        let idx = r * size + j;
        let held = match state[idx] {
            Some(q) => q == p,
            None => false,
        };
        if !held {
            proof {
                assert(cell_at(state@, size as int, r as int, j as int) != Some(p));
            }
            return false;
        }
        j = j + 1;
    }
    true
}

fn col_all(state: &Vec<Option<Player>>, size: usize, c: usize, p: Player) -> (w: bool)
    requires
        legal_len(state@.len()),
        size == side_of(state@.len()),
        c < size,
    ensures
        w == col_won(state@, size as int, c as int, p),
{
    let mut i: usize = 0;
    while i < size
        invariant
            0 <= i <= size,
            legal_len(state@.len()),
            size == side_of(state@.len()),
            c < size,
            forall|t: int| 0 <= t < i ==> cell_at(state@, size as int, t, c as int) == Some(p),
        decreases size - i,
    {
        proof {
            assert(i * size + c < state@.len()) by (nonlinear_arith)
                requires
                    i < size,
                    c < size,
                    legal_len(state@.len()),
                    size == side_of(state@.len()),
            ;
        }
        let idx = i * size + c;
        let held = match state[idx] {
            Some(q) => q == p,
            None => false,
        };
        if !held {
            proof {
                assert(cell_at(state@, size as int, i as int, c as int) != Some(p));
            }
            return false;
        }
        i = i + 1;
    }
    true
}

fn diag_all(state: &Vec<Option<Player>>, size: usize, p: Player) -> (w: bool)
    requires
        legal_len(state@.len()),
        size == side_of(state@.len()),
    ensures
        w == diag_won(state@, size as int, p),
{
    let mut i: usize = 0;
    while i < size
        invariant
            0 <= i <= size,
            legal_len(state@.len()),
            size == side_of(state@.len()),
            forall|t: int| 0 <= t < i ==> cell_at(state@, size as int, t, t) == Some(p),
        decreases size - i,
    {
        proof {
            assert(i * size + i < state@.len()) by (nonlinear_arith)
                requires
                    i < size,
                    legal_len(state@.len()),
                    size == side_of(state@.len()),
            ;
        }
        let idx = i * size + i;
        let held = match state[idx] {
            Some(q) => q == p,
            None => false,
        };
        if !held {
            proof {
                assert(cell_at(state@, size as int, i as int, i as int) != Some(p));
            }
            return false;
        }
        i = i + 1;
    }
    true
}

fn anti_all(state: &Vec<Option<Player>>, size: usize, p: Player) -> (w: bool)
    requires
        legal_len(state@.len()),
        size == side_of(state@.len()),
    ensures
        w == anti_diag_won(state@, size as int, p),
{
    let mut k: usize = 1;
    while k <= size
        invariant
            1 <= k <= size + 1,
            legal_len(state@.len()),
            size == side_of(state@.len()),
            forall|t: int| 1 <= t < k ==> anti_at(state@, size as int, t) == Some(p),
        decreases size + 1 - k,
    {
        proof {
            assert(k * (size - 1) < state@.len()) by (nonlinear_arith)
                requires
                    1 <= k <= size,
                    legal_len(state@.len()),
                    size == side_of(state@.len()),
            ;
        }
        let idx = k * (size - 1);
        let held = match state[idx] {
            Some(q) => q == p,
            None => false,
        };
        if !held {
            proof {
                assert(anti_at(state@, size as int, k as int) != Some(p));
            }
            return false;
        }
        k = k + 1;
    }
    true
}

/// The game: a row-major board and whose turn it is.
pub struct Game {
    pub state: Vec<Option<Player>>,
    pub turn: Player,
}

impl Game {
    /// A fresh, empty board; crosses move first.
    pub fn new(size: BoardOpt) -> (g: Game)
        ensures
            legal_len(g.state@.len()),
            forall|i: int| 0 <= i < g.state@.len() ==> g.state@[i] is None,
            g.turn is Cross,
    {
        let dim = size.dim();
        let mut state: Vec<Option<Player>> = Vec::new();
        while state.len() < dim
            invariant
                state@.len() <= dim,
                dim == 9 || dim == 16,
                forall|i: int| 0 <= i < state@.len() ==> state@[i] is None,
            decreases dim - state.len(),
        {
            state.push(None);
        }
        Game { state, turn: Player::Cross }
    }

    /// The row-major index of a coordinate pair on this board.
    pub fn to_1d_index(&self, x: usize, y: usize) -> (idx: usize)
        requires
            legal_len(self.state@.len()),
            flat_index(self.state@.len(), x as int, y as int) <= usize::MAX,
        ensures
            idx == flat_index(self.state@.len(), x as int, y as int),
    {
        if self.state.len() == 9 {
            x * 3 + y
        } else {
            x * 4 + y
        }
    }

    /// Scan the board for a full line: rows first, then columns, then
    /// the two diagonals. `None` promises that nobody has won.
    pub fn current_state(&self) -> (r: Option<State>)
        requires
            legal_len(self.state@.len()),
        ensures
            r is None ==> !any_winner(self.state@, side_of(self.state@.len())),
            r matches Some(s) ==> (s matches State::Winner(p) && winner_exists(
                self.state@,
                side_of(self.state@.len()),
                p,
            )),
            any_winner(self.state@, side_of(self.state@.len())) ==> r is Some,
    {
        let b = &self.state;
        let size: usize = if self.state.len() == 9 {
            3
        } else {
            4
        };
        let mut i: usize = 0;
        while i < size
            invariant
                0 <= i <= size,
                legal_len(b@.len()),
                size == side_of(b@.len()),
                b@ == self.state@,
                forall|rr: int, p: Player| 0 <= rr < i ==> !row_won(b@, size as int, rr, p),
            decreases size - i,
        {
            proof {
                assert(i * size < b@.len()) by (nonlinear_arith)
                    requires
                        i < size,
                        legal_len(b@.len()),
                        size == side_of(b@.len()),
                ;
            }
            let anchor = i * size;
            match b[anchor] {
                Some(p) => {
                    if row_all(b, size, i, p) {
                        return Some(State::Winner(p));
                    }
                    proof {
                        assert forall|q: Player| !row_won(b@, size as int, i as int, q) by {
                            if q == p {
                            } else {
                                assert(cell_at(b@, size as int, i as int, 0) == Some(p));
                            }
                        }
                    }
                },
                None => {
                    proof {
                        assert forall|q: Player| !row_won(b@, size as int, i as int, q) by {
                            assert(cell_at(b@, size as int, i as int, 0) is None);
                        }
                    }
                },
            }
            i = i + 1;
        }
        let mut c: usize = 0;
        while c < size
            invariant
                0 <= c <= size,
                legal_len(b@.len()),
                size == side_of(b@.len()),
                b@ == self.state@,
                forall|rr: int, p: Player| 0 <= rr < size ==> !row_won(b@, size as int, rr, p),
                forall|cc: int, p: Player| 0 <= cc < c ==> !col_won(b@, size as int, cc, p),
            decreases size - c,
        {
            let anchor = c;
            match b[anchor] {
                Some(p) => {
                    if col_all(b, size, c, p) {
                        return Some(State::Winner(p));
                    }
                    proof {
                        assert forall|q: Player| !col_won(b@, size as int, c as int, q) by {
                            if q == p {
                            } else {
                                assert(cell_at(b@, size as int, 0, c as int) == Some(p));
                            }
                        }
                    }
                },
                None => {
                    proof {
                        assert forall|q: Player| !col_won(b@, size as int, c as int, q) by {
                            assert(cell_at(b@, size as int, 0, c as int) is None);
                        }
                    }
                },
            }
            c = c + 1;
        }
        match b[0] {
            Some(p) => {
                if diag_all(b, size, p) {
                    return Some(State::Winner(p));
                }
                proof {
                    assert forall|q: Player| !diag_won(b@, size as int, q) by {
                        if q == p {
                        } else {
                            assert(cell_at(b@, size as int, 0, 0) == Some(p));
                        }
                    }
                }
            },
            None => {
                proof {
                    assert forall|q: Player| !diag_won(b@, size as int, q) by {
                        assert(cell_at(b@, size as int, 0, 0) is None);
                    }
                }
            },
        }
        match b[size - 1] {
            Some(p) => {
                if anti_all(b, size, p) {
                    return Some(State::Winner(p));
                }
                proof {
                    assert forall|q: Player| !anti_diag_won(b@, size as int, q) by {
                        if q == p {
                        } else {
                            assert(anti_at(b@, size as int, 1) == Some(p));
                        }
                    }
                }
            },
            None => {
                proof {
                    assert forall|q: Player| !anti_diag_won(b@, size as int, q) by {
                        assert(anti_at(b@, size as int, 1) is None);
                    }
                }
            },
        }
        None
    }

    /// Place the moving player's mark. A taken field is refused; a
    /// completed line ends the game with the mover still to name; an
    /// uneventful move hands the turn over.
    pub fn apply(&mut self, placement: Placement) -> (r: Result<State, GameError>)
        requires
            legal_len(old(self).state@.len()),
            flat_index(old(self).state@.len(), placement.0 as int, placement.1 as int)
                < old(self).state@.len(),
        ensures
            legal_len(final(self).state@.len()),
            ({
                let b = old(self).state@;
                let size = side_of(b.len());
                let idx = flat_index(b.len(), placement.0 as int, placement.1 as int);
                let nb = b.update(idx, Some(old(self).turn));
                if b[idx] is Some {
                    &&& r matches Err(e) && e is FieldNotFree
                    &&& *final(self) == *old(self)
                } else {
                    &&& final(self).state@ == nb
                    &&& (any_winner(nb, size) ==> (r matches Ok(s) && s matches State::Winner(p)
                        && winner_exists(nb, size, p) && final(self).turn == old(self).turn))
                    &&& (!any_winner(nb, size) ==> (r matches Ok(s) && s is Running
                        && final(self).turn == other_player(old(self).turn)))
                }
            }),
    {
        let index = self.to_1d_index(placement.0, placement.1);
        if self.state[index].is_some() {
            return Err(GameError::FieldNotFree);
        }
        self.state[index] = Some(self.turn);
        match self.current_state() {
            Some(State::Winner(player)) => {
                return Ok(State::Winner(player));
            },
            Some(State::Running) | Some(State::Tie) | None => (),
        };
        self.turn = match self.turn {
            Player::Circle => Player::Cross,
            Player::Cross => Player::Circle,
        };
        Ok(State::Running)
    }
}


/// A piece of text repeated a number of times.
pub open spec fn rep(s: Seq<char>, n: nat) -> Seq<char>
    decreases n,
{
    if n == 0 {
        Seq::empty()
    } else {
        rep(s, (n - 1) as nat) + s
    }
}

/// The horizontal rule between board rows.
pub open spec fn divider_text(size: nat) -> Seq<char> {
    "\n"@ + rep(" ---"@, size) + "\n"@
}

/// The three characters drawn for one field.
pub open spec fn mark_text(c: Option<Player>) -> Seq<char> {
    match c {
        Some(Player::Cross) => " X "@,
        Some(Player::Circle) => " O "@,
        None => "   "@,
    }
}

/// The first `j` fields of row `r`, each behind its left wall.
pub open spec fn row_cells_text(b: Seq<Option<Player>>, size: int, r: int, j: nat) -> Seq<char>
    decreases j,
{
    if j == 0 {
        Seq::empty()
    } else {
        row_cells_text(b, size, r, (j - 1) as nat) + "|"@ + mark_text(
            cell_at(b, size, r, j as int - 1),
        )
    }
}

/// The first `r` rows of the drawn board, each closed on the right
/// and followed by a rule.
pub open spec fn rows_text(b: Seq<Option<Player>>, size: int, r: nat) -> Seq<char>
    decreases r,
{
    if r == 0 {
        Seq::empty()
    } else {
        rows_text(b, size, (r - 1) as nat) + row_cells_text(b, size, r as int - 1, size as nat)
            + "|"@ + divider_text(size as nat)
    }
}

/// The whole drawn board: an opening rule, then every row.
pub open spec fn board_text(b: Seq<Option<Player>>, size: int) -> Seq<char> {
    divider_text(size as nat) + rows_text(b, size, size as nat)
}

fn push_divider(out: &mut String, size: usize)
    ensures
        final(out)@ == old(out)@ + divider_text(size as nat),
{
    out.append("\n");
    let mut k: usize = 0;
    while k < size
        invariant
            0 <= k <= size,
            out@ == old(out)@ + "\n"@ + rep(" ---"@, k as nat),
        decreases size - k,
    {
        out.append(" ---");
        k = k + 1;
    }
    out.append("\n");
    proof {
        assert(final(out)@ =~= old(out)@ + divider_text(size as nat));
    }
}

impl Game {
    /// Draw the board for the terminal, walls, marks and rules.
    pub fn render(&self) -> (s: String)
        requires
            legal_len(self.state@.len()),
        ensures
            s@ == board_text(self.state@, side_of(self.state@.len())),
    {
        let b = &self.state;
        let size: usize = if b.len() == 9 {
            3
        } else {
            4
        };
        let mut out = String::new();
        push_divider(&mut out, size);
        let mut r: usize = 0;
        while r < size
            invariant
                0 <= r <= size,
                legal_len(b@.len()),
                size == side_of(b@.len()),
                b@ == self.state@,
                out@ == divider_text(size as nat) + rows_text(b@, size as int, r as nat),
            decreases size - r,
        {
            let mut j: usize = 0;
            while j < size
                invariant
                    0 <= j <= size,
                    0 <= r < size,
                    legal_len(b@.len()),
                    size == side_of(b@.len()),
                    b@ == self.state@,
                    out@ == divider_text(size as nat) + rows_text(b@, size as int, r as nat)
                        + row_cells_text(b@, size as int, r as int, j as nat),
                decreases size - j,
            {
                proof {
                    assert(r * size + j < b@.len()) by (nonlinear_arith)
                        requires
                            r < size,
                            j < size,
                            legal_len(b@.len()),
                            size == side_of(b@.len()),
                    ;
                }
                let idx = r * size + j;
                let mark = match b[idx] {
                    Some(Player::Cross) => " X ",
                    Some(Player::Circle) => " O ",
                    None => "   ",
                };
                out.append("|");
                out.append(mark);
                proof {
                    assert(out@ =~= divider_text(size as nat) + rows_text(b@, size as int,
                        r as nat) + row_cells_text(b@, size as int, r as int, j as nat + 1));
                }
                j = j + 1;
            }
            out.append("|");
            push_divider(&mut out, size);
            proof {
                assert(out@ =~= divider_text(size as nat) + rows_text(b@, size as int,
                    r as nat + 1));
            }
            r = r + 1;
        }
        out
    }
}

} // verus!
