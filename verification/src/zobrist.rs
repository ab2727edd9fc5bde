//! The fingerprint of a position: the XOR of one random key for each piece
//! on its square, and of one more key when Black is to move.

use vstd::prelude::*;
use crate::pieces::{Color, Piece, PieceType, Position};
use crate::chess_board::ChessBoard;

verus! {

/// The seedable generator of the rand crate, `StdRng`. Verus sees nothing
/// of what is inside.
#[verifier::external_type_specification]
#[verifier::external_body]
pub struct ExStdRng(rand::rngs::StdRng);

/// The generator of the running thread of the rand crate, `ThreadRng`.
/// Verus sees nothing of what is inside.
#[verifier::external_type_specification]
#[verifier::external_body]
pub struct ExThreadRng(rand::rngs::ThreadRng);

/// Calls `rand::thread_rng`, which hands out the generator of the running
/// thread. Nothing is claimed of it. (rand ends the program where the
/// system has no randomness to seed that generator with.)
#[verifier::external_body]
fn thread_generator() -> (rng: rand::rngs::ThreadRng) {
    rand::thread_rng()
}

/// Calls `RngCore::next_u64` on the generator of the running thread.
/// Nothing is claimed of the number: each call may return any value.
#[verifier::external_body]
fn thread_key(rng: &mut rand::rngs::ThreadRng) -> (key: u64) {
    rand::RngCore::next_u64(rng)
}

/// What a seeded generator holds: the keys that it has yet to give.
/// `pending_key(rng, n)` is the key that `rng` gives once it has given `n`
/// others. `StdRng` takes nothing from outside once it is made, so its
/// state fixes every key to come.
pub uninterp spec fn pending_key(rng: rand::rngs::StdRng, n: nat) -> u64;

/// Key number `n`, counted from 0, of the generator that
/// `SeedableRng::seed_from_u64` makes of `seed`.
pub uninterp spec fn seeded_key(seed: u64, n: nat) -> u64;

/// Calls `SeedableRng::seed_from_u64` of `StdRng`, which makes the state of
/// the generator from the seed and from nothing else. The claim: the keys
/// that the generator has yet to give are those that the seed names.
#[verifier::external_body]
fn seeded_generator(seed: u64) -> (rng: rand::rngs::StdRng)
    ensures
        forall|n: nat| #[trigger] pending_key(rng, n) == seeded_key(seed, n),
{
    rand::SeedableRng::seed_from_u64(seed)
}

/// Calls `Rng::gen::<u64>` on a seeded generator, which for `u64` is its
/// `next_u64`. The claim: the key is the first of those that the generator
/// had yet to give, and the generator has the others yet to give, in their
/// order.
#[verifier::external_body]
fn draw_key(rng: &mut rand::rngs::StdRng) -> (key: u64)
    ensures
        key == pending_key(*old(rng), 0),
        forall|n: nat| #[trigger]
            pending_key(*final(rng), n) == pending_key(*old(rng), (n + 1) as nat),
{
    rand::Rng::gen::<u64>(rng)
}

/// Where the keys of a fingerprint table come from. A table is made from a
/// source that its maker hands in, so that a seeded source gives the same
/// table every time.
pub struct RandomSource {
    rng: rand::rngs::StdRng,
}

impl RandomSource {
    /// A source that gives the same keys for the same seed: key after key,
    /// those that the seed names.
    pub fn seeded(seed: u64) -> (source: RandomSource)
        ensures
            source.of_seed(seed),
    {
        RandomSource { rng: seeded_generator(seed) }
    }

    /// A source whose seed is drawn from the generator of the running
    /// thread: it gives the keys of some seed, and chance decides of which.
    pub fn unseeded() -> (source: RandomSource)
        ensures
            exists|seed: u64| source.of_seed(seed),
    {
        let mut parent = thread_generator();
        let seed = thread_key(&mut parent);
        let source = RandomSource { rng: seeded_generator(seed) };
        assert(source.of_seed(seed));
        source
    }

    /// The next key: the first of those that the source had yet to give.
    /// The source goes on with the key after it.
    pub fn next_key(&mut self) -> (key: u64)
        ensures
            key == old(self).key(0),
            final(self).follows(*old(self), 1),
    {
        draw_key(&mut self.rng)
    }

    /// The key that the source gives once it has given `n` others.
    pub closed spec fn key(&self, n: nat) -> u64 {
        pending_key(self.rng, n)
    }

    /// The first `count` keys that the source has yet to give.
    pub open spec fn keys(&self, count: nat) -> Seq<u64> {
        Seq::new(count, |i: int| self.key(i as nat))
    }

    /// Whether the source gives the keys that `seed` names, from the first
    /// one on.
    pub open spec fn of_seed(&self, seed: u64) -> bool {
        forall|n: nat| #[trigger] self.key(n) == seeded_key(seed, n)
    }

    /// Whether the source is `before` with `count` keys drawn: it gives
    /// what `before` had yet to give after those.
    pub open spec fn follows(&self, before: RandomSource, count: nat) -> bool {
        forall|n: nat| #[trigger] self.key(n) == before.key(n + count)
    }
}

/// Two sources of the same seed give the same keys.
pub proof fn lemma_seed_fixes_the_keys(a: RandomSource, b: RandomSource, seed: u64, count: nat)
    requires
        a.of_seed(seed),
        b.of_seed(seed),
    ensures
        a.keys(count) == b.keys(count),
{
    assert(a.keys(count) =~= b.keys(count));
}

/// The keys of a fingerprint table as the contracts see them.
pub struct ZobristKeys {
    /// For each of the 64 squares, row by row, the keys of the 12 piece
    /// identities.
    pub table: Seq<Seq<u64>>,
    /// The key that enters when Black is to move.
    pub black_turn: u64,
}

/// The table of keys from which fingerprints are made.
pub struct ZobristTableStruct {
    table: Vec<Vec<u64>>,
    black_turn: u64,
}

impl View for ZobristTableStruct {
    type V = ZobristKeys;

    /// The keys as the contracts see them.
    closed spec fn view(&self) -> ZobristKeys {
        ZobristKeys {
            table: self.table@.map_values(|row: Vec<u64>| row@),
            black_turn: self.black_turn,
        }
    }
}

/// The number of a kind of piece among the six.
pub open spec fn kind_index(kind: PieceType) -> int {
    match kind {
        PieceType::Rook => 0,
        PieceType::Bishop => 1,
        PieceType::Knight => 2,
        PieceType::Queen => 3,
        PieceType::Pawn => 4,
        PieceType::King => 5,
    }
}

/// The identity of a piece among the twelve: its kind and its side. Whether
/// it has moved does not count.
pub open spec fn identity(kind: PieceType, color: Color) -> int {
    2 * kind_index(kind) + match color {
        Color::White => 0int,
        Color::Black => 1int,
    }
}

/// What stands on square number `index` of a grid, squares counted row by
/// row.
pub open spec fn cell(grid: Seq<Seq<Option<Piece>>>, index: int) -> Option<Piece> {
    grid[index / 8][index % 8]
}

impl ZobristKeys {
    /// A table has 64 rows of 12 keys.
    pub open spec fn wf(self) -> bool {
        &&& self.table.len() == 64
        &&& forall|i: int| 0 <= i < 64 ==> (#[trigger] self.table[i]).len() == 12
    }

    /// The key of a piece of the given kind and side on square number
    /// `index`, squares counted row by row.
    pub open spec fn key(self, index: int, kind: PieceType, color: Color) -> u64 {
        self.table[index][identity(kind, color)]
    }

    /// What square number `index` of a grid adds to a fingerprint: the key
    /// of the piece that stands there, or nothing.
    pub open spec fn square_key(self, grid: Seq<Seq<Option<Piece>>>, index: int) -> u64 {
        match cell(grid, index) {
            Some(piece) => self.key(index, piece.piece_type, piece.color),
            None => 0,
        }
    }

    /// What the side to move adds to a fingerprint.
    pub open spec fn turn_key(self, turn: Color) -> u64 {
        match turn {
            Color::Black => self.black_turn,
            Color::White => 0,
        }
    }

    /// The XOR of the turn key and of the keys of the first `n` squares.
    pub open spec fn fold(self, grid: Seq<Seq<Option<Piece>>>, turn: Color, n: int) -> u64
        decreases n,
    {
        if n <= 0 {
            self.turn_key(turn)
        } else {
            self.fold(grid, turn, n - 1) ^ self.square_key(grid, n - 1)
        }
    }

    /// The fingerprint of a grid with `turn` to move: the XOR of the keys of
    /// all 64 squares and of the turn key.
    pub open spec fn fingerprint(self, grid: Seq<Seq<Option<Piece>>>, turn: Color) -> u64 {
        self.fold(grid, turn, 64)
    }
}

/// The table that holds the keys of `stream`: twelve for each square, then
/// the turn key.
pub open spec fn keys_in_order(stream: Seq<u64>) -> ZobristKeys {
    ZobristKeys {
        table: Seq::new(64, |i: int| stream.subrange(i * 12, i * 12 + 12)),
        black_turn: stream[768],
    }
}

/// The number of a kind of piece among the six.
fn kind_number(kind: PieceType) -> (index: usize)
    ensures
        index == kind_index(kind),
{
    match kind {
        PieceType::Rook => 0,
        PieceType::Bishop => 1,
        PieceType::Knight => 2,
        PieceType::Queen => 3,
        PieceType::Pawn => 4,
        PieceType::King => 5,
    }
}

impl ZobristTableStruct {
    /// The invariant of a table, stated over its view.
    pub open spec fn wf(&self) -> bool {
        self@.wf()
    }

    /// The table that holds the given keys: each twelve of them in a row
    /// serve one square, square after square, and the last one is the turn
    /// key. There is such a table exactly if there are 64 times 12 keys and
    /// one.
    pub fn from_keys(keys: &Vec<u64>) -> (made: Option<ZobristTableStruct>)
        ensures
            made is Some <==> keys.len() == 769,
            made matches Some(t) ==> t.wf() && t@ == keys_in_order(keys@),
    {
        if keys.len() != 769 {
            return None;
        }
        let mut table: Vec<Vec<u64>> = Vec::new();
        let mut i: usize = 0;
        while i < 64
            invariant
                keys.len() == 769,
                i <= 64,
                table.len() == i,
                forall|k: int|
                    0 <= k < i ==> (#[trigger] table[k])@ == keys@.subrange(k * 12, k * 12 + 12),
            decreases 64 - i,
        {
            let mut row: Vec<u64> = Vec::new();
            let mut j: usize = 0;
            while j < 12
                invariant
                    keys.len() == 769,
                    i < 64,
                    j <= 12,
                    row@ == keys@.subrange(i * 12, i * 12 + j),
                decreases 12 - j,
            {
                row.push(keys[i * 12 + j]);
                j += 1;
                assert(row@ =~= keys@.subrange(i * 12, i * 12 + j));
            }
            table.push(row);
            i += 1;
        }
        let made = ZobristTableStruct { table, black_turn: keys[768] };
        assert(made@.table =~= keys_in_order(keys@).table);
        Some(made)
    }

    /// A table whose 64 times 12 keys and whose turn key are drawn from
    /// `source`, one after the other: the table holds the next 769 keys of
    /// the source in their order, and the source goes on after them.
    pub fn init_zobrist_table(source: &mut RandomSource) -> (keys: ZobristTableStruct)
        ensures
            keys.wf(),
            keys@ == keys_in_order(old(source).keys(769)),
            final(source).follows(*old(source), 769),
    {
        let mut drawn: Vec<u64> = Vec::new();
        let mut i: usize = 0;
        while i < 769
            invariant
                i <= 769,
                drawn@ == old(source).keys(i as nat),
                source.follows(*old(source), i as nat),
            decreases 769 - i,
        {
            let ghost before = *source;
            let key = source.next_key();
            drawn.push(key);
            i += 1;
            assert(source.follows(*old(source), i as nat)) by {
                assert forall|n: nat| #[trigger]
                    source.key(n) == old(source).key(n + (i as nat)) by {
                    assert(source.key(n) == before.key(n + 1));
                }
            }
            assert(drawn@ =~= old(source).keys(i as nat));
        }
        ZobristTableStruct::from_keys(&drawn).unwrap()
    }

    /// The fingerprint of a board.
    pub fn zobrist_hash(&self, chess_board: &ChessBoard) -> (hash: u64)
        requires
            self.wf(),
            chess_board.wf(),
        ensures
            hash == self@.fingerprint(chess_board@.grid, chess_board@.turn),
    {
        let ghost grid = chess_board@.grid;
        let ghost turn = chess_board@.turn;
        let mut hash: u64 = 0;
        if chess_board.get_turn() == Color::Black {
            hash = self.black_turn;
        }
        let mut row: usize = 0;
        while row < 8
            invariant
                self.wf(),
                chess_board.wf(),
                grid == chess_board@.grid,
                turn == chess_board@.turn,
                row <= 8,
                hash == self@.fold(grid, turn, row * 8),
            decreases 8 - row,
        {
            let mut col: usize = 0;
            while col < 8
                invariant
                    self.wf(),
                    chess_board.wf(),
                    grid == chess_board@.grid,
                    turn == chess_board@.turn,
                    row < 8,
                    col <= 8,
                    hash == self@.fold(grid, turn, row * 8 + col),
                decreases 8 - col,
            {
                let index = row * 8 + col;
                assert(index / 8 == row && index % 8 == col);
                let here = Position { row, col };
                assert(chess_board@.at(here) == grid[row as int][col as int]);
                assert(self@.table[index as int] == self.table[index as int]@);
                match chess_board.get_piece_from_pos(&here) {
                    Some(piece) => {
                        let color_offset: usize = match piece.color {
                            Color::White => 0,
                            Color::Black => 1,
                        };
                        let id = 2 * kind_number(piece.piece_type) + color_offset;
                        hash = hash ^ self.table[index][id];
                    },
                    None => {
                        assert(hash ^ 0 == hash) by (bit_vector);
                    },
                }
                col += 1;
            }
            row += 1;
        }
        hash
    }
}

/// Whether two grids hold pieces of the same kind and side on the same
/// squares. Where the pieces have been, and whether they have moved, does
/// not count.
pub open spec fn same_placement(a: Seq<Seq<Option<Piece>>>, b: Seq<Seq<Option<Piece>>>) -> bool {
    forall|r: int, c: int|
        0 <= r < 8 && 0 <= c < 8 ==> match (#[trigger] a[r][c], #[trigger] b[r][c]) {
            (Some(p), Some(q)) => p.piece_type == q.piece_type && p.color == q.color,
            (None, None) => true,
            _ => false,
        }
}

/// The number of a square, squares counted row by row.
pub open spec fn square_index(p: Position) -> int {
    p.row * 8 + p.col
}

/// Grids with the same placement have the same fold at every square.
proof fn lemma_fold_of_placement(
    keys: ZobristKeys,
    a: Seq<Seq<Option<Piece>>>,
    b: Seq<Seq<Option<Piece>>>,
    turn: Color,
    n: int,
)
    requires
        same_placement(a, b),
        n <= 64,
    ensures
        keys.fold(a, turn, n) == keys.fold(b, turn, n),
    decreases n,
{
    if n > 0 {
        lemma_fold_of_placement(keys, a, b, turn, n - 1);
        let r = (n - 1) / 8;
        let c = (n - 1) % 8;
        assert(match (a[r][c], b[r][c]) {
            (Some(p), Some(q)) => p.piece_type == q.piece_type && p.color == q.color,
            (None, None) => true,
            _ => false,
        });
    }
}

/// Two boards with the same pieces on the same squares and the same side
/// to move have the same fingerprint, whatever moves led to them.
pub proof fn lemma_fingerprint_determinism(
    keys: ZobristKeys,
    a: crate::board_view::BoardView,
    b: crate::board_view::BoardView,
)
    requires
        same_placement(a.grid, b.grid),
        a.turn == b.turn,
    ensures
        keys.fingerprint(a.grid, a.turn) == keys.fingerprint(b.grid, b.turn),
{
    lemma_fold_of_placement(keys, a.grid, b.grid, a.turn, 64);
}

/// Where two grids differ on square number `index` alone, their folds
/// differ by the two keys of that square, once it has been reached.
proof fn lemma_fold_one_change(
    keys: ZobristKeys,
    a: Seq<Seq<Option<Piece>>>,
    b: Seq<Seq<Option<Piece>>>,
    turn: Color,
    index: int,
    n: int,
)
    requires
        0 <= index < 64,
        n <= 64,
        forall|i: int| 0 <= i < 64 && i != index ==> #[trigger] cell(a, i) == cell(b, i),
    ensures
        n <= index ==> keys.fold(b, turn, n) == keys.fold(a, turn, n),
        n > index ==> keys.fold(b, turn, n) == keys.fold(a, turn, n) ^ (keys.square_key(a, index)
            ^ keys.square_key(b, index)),
    decreases n,
{
    if n > 0 {
        lemma_fold_one_change(keys, a, b, turn, index, n - 1);
        let f = keys.fold(a, turn, n - 1);
        let s = keys.square_key(a, n - 1);
        let t = keys.square_key(b, n - 1);
        if n - 1 == index {
            assert((f ^ s) ^ (s ^ t) == f ^ t) by (bit_vector);
        } else if n - 1 > index {
            let d = keys.square_key(a, index) ^ keys.square_key(b, index);
            assert(cell(a, n - 1) == cell(b, n - 1));
            assert((f ^ d) ^ s == (f ^ s) ^ d) by (bit_vector);
        } else {
            assert(cell(a, n - 1) == cell(b, n - 1));
        }
    }
}

/// What the piece on square `p` adds to a fingerprint: its key on that
/// square, or nothing where the square is empty.
pub open spec fn key_at(keys: ZobristKeys, v: crate::board_view::BoardView, p: Position) -> u64 {
    keys.square_key(v.grid, square_index(p))
}

/// A fingerprint can be kept up to date move by move: when a piece goes
/// from one square to another, the fingerprint changes by the key that the
/// piece had on the first square, the key of what it takes, and the key
/// that it has on the second square.
pub proof fn lemma_fingerprint_of_relocation(
    keys: ZobristKeys,
    v: crate::board_view::BoardView,
    from: Position,
    to: Position,
    kind: PieceType,
)
    requires
        v.wf(),
        from.on_board(),
        to.on_board(),
        from != to,
        v.at(from) is Some,
    ensures
        keys.fingerprint(v.relocate(from, to, kind).grid, v.turn) == keys.fingerprint(
            v.grid,
            v.turn,
        ) ^ key_at(keys, v, from) ^ key_at(keys, v, to) ^ keys.key(
            square_index(to),
            kind,
            v.at(from).unwrap().color,
        ),
{
    let piece = v.at(from).unwrap();
    let moved = Piece { piece_type: kind, position: to, color: piece.color, has_moved: true };
    let after = v.relocate(from, to, kind);
    let landed = v.put(to, Some(moved));
    crate::board_lemmas::lemma_put(v, to, Some(moved));
    crate::board_lemmas::lemma_put(landed, from, None);
    assert(after.grid == landed.put(from, None).grid);
    let a = square_index(to);
    let b = square_index(from);
    assert(a / 8 == to.row && a % 8 == to.col);
    assert(b / 8 == from.row && b % 8 == from.col);
    assert forall|i: int| 0 <= i < 64 && i != a implies #[trigger] cell(v.grid, i) == cell(
        landed.grid,
        i,
    ) by {
        let q = crate::pieces::square(i / 8, i % 8);
        assert(landed.at(q) == v.at(q));
    }
    assert forall|i: int| 0 <= i < 64 && i != b implies #[trigger] cell(landed.grid, i) == cell(
        after.grid,
        i,
    ) by {
        let q = crate::pieces::square(i / 8, i % 8);
        assert(landed.put(from, None).at(q) == landed.at(q));
    }
    lemma_fold_one_change(keys, v.grid, landed.grid, v.turn, a, 64);
    lemma_fold_one_change(keys, landed.grid, after.grid, v.turn, b, 64);
    let h = keys.fingerprint(v.grid, v.turn);
    let taken = key_at(keys, v, to);
    let left = key_at(keys, v, from);
    let gained = keys.key(a, kind, piece.color);
    assert(landed.at(to) == Some(moved));
    assert(landed.at(from) == v.at(from));
    assert(after.at(from) is None) by {
        assert(landed.put(from, None).at(from) == None::<Piece>);
    }
    assert(cell(v.grid, a) == v.at(to));
    assert(cell(v.grid, b) == v.at(from));
    assert(keys.square_key(landed.grid, a) == gained);
    assert(keys.square_key(landed.grid, b) == left);
    assert(keys.square_key(after.grid, b) == 0);
    assert(((h ^ (taken ^ gained)) ^ (left ^ 0)) == h ^ left ^ taken ^ gained) by (bit_vector);
}

/// Taking a piece from its square to an empty one changes the
/// fingerprint, provided the keys of the piece on the two squares differ.
/// (Two keys of a table may be equal, though a random table seldom has
/// such a pair; the move between their squares then keeps the
/// fingerprint.)
pub proof fn lemma_fingerprint_discrimination(
    keys: ZobristKeys,
    v: crate::board_view::BoardView,
    from: Position,
    to: Position,
)
    requires
        v.wf(),
        from.on_board(),
        to.on_board(),
        from != to,
        v.at(from) is Some,
        v.at(to) is None,
        keys.key(
            square_index(from),
            v.at(from).unwrap().piece_type,
            v.at(from).unwrap().color,
        ) != keys.key(
            square_index(to),
            v.at(from).unwrap().piece_type,
            v.at(from).unwrap().color,
        ),
    ensures
        keys.fingerprint(
            v.relocate(from, to, v.at(from).unwrap().piece_type).grid,
            v.turn,
        ) != keys.fingerprint(v.grid, v.turn),
{
    let piece = v.at(from).unwrap();
    lemma_fingerprint_of_relocation(keys, v, from, to, piece.piece_type);
    let h = keys.fingerprint(v.grid, v.turn);
    let a = square_index(to);
    let b = square_index(from);
    assert(a / 8 == to.row && a % 8 == to.col);
    assert(b / 8 == from.row && b % 8 == from.col);
    assert(cell(v.grid, a) == v.at(to));
    assert(cell(v.grid, b) == v.at(from));
    let k_from = keys.key(b, piece.piece_type, piece.color);
    let k_to = keys.key(a, piece.piece_type, piece.color);
    assert(key_at(keys, v, from) == k_from);
    assert(key_at(keys, v, to) == 0);
    assert(h ^ k_from ^ 0 ^ k_to != h) by (bit_vector)
        requires
            k_from != k_to,
    ;
}

/// Passing the turn changes the fingerprint by the turn key.
pub proof fn lemma_fingerprint_of_turn(keys: ZobristKeys, v: crate::board_view::BoardView)
    ensures
        keys.fingerprint(v.grid, v.turn.opposite()) == keys.fingerprint(v.grid, v.turn)
            ^ keys.black_turn,
{
    lemma_fold_of_turn(keys, v.grid, v.turn, 64);
}

/// The folds for the two sides differ by the turn key at every square.
proof fn lemma_fold_of_turn(keys: ZobristKeys, grid: Seq<Seq<Option<Piece>>>, turn: Color, n: int)
    ensures
        keys.fold(grid, turn.opposite(), n) == keys.fold(grid, turn, n) ^ keys.black_turn,
    decreases n,
{
    let t = keys.black_turn;
    if n > 0 {
        lemma_fold_of_turn(keys, grid, turn, n - 1);
        let f = keys.fold(grid, turn, n - 1);
        let s = keys.square_key(grid, n - 1);
        assert((f ^ t) ^ s == (f ^ s) ^ t) by (bit_vector);
    } else {
        assert(t == 0 ^ t && 0 == t ^ t) by (bit_vector);
    }
}

} // verus!
