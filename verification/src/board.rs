//! The 4x4 connect-four style board, packed into one 64-bit word.
//!
//! Each of the 16 cells takes the two bits `[2i, 2i+1]` of the word, row
//! major: 0 is empty, 1 is the cookie player, 2 is the milk player. The
//! field value 3 is never produced by `encode`; a word holding it is
//! corrupt, and `decode` refuses it by precondition.

use vstd::prelude::*;

verus! {

/// One cell of the board.
#[derive(Copy, Clone, PartialEq, Eq, Structural, Debug)]
pub enum Tile {
    Empty,
    Cookie,
    Milk,
}

/// What a finished or unfinished board amounts to.
#[derive(Copy, Clone, PartialEq, Eq, Structural, Debug)]
pub enum GameOutcome {
    InProgress,
    Won(Tile),
    Draw,
}

/// The board: 16 cells, row major, rows top to bottom.
pub struct Board {
    pub cells: Vec<Tile>,
}

/// The two-bit encoding of one cell.
pub open spec fn tile_val(t: Tile) -> u64 {
    match t {
        Tile::Empty => 0u64,
        Tile::Cookie => 1u64,
        Tile::Milk => 2u64,
    }
}

/// The cell a two-bit field stands for. The corrupt field value 3 has no
/// cell; it is mapped arbitrarily and ruled out by `word_fields_ok`.
pub open spec fn tile_of(v: u64) -> Tile {
    if v == 1 {
        Tile::Cookie
    } else if v == 2 {
        Tile::Milk
    } else {
        Tile::Empty
    }
}

/// The two-bit field of cell `i` inside a packed word.
pub open spec fn field(word: u64, i: int) -> u64 {
    (word >> (2 * i) as u64) & 3
}

/// No field of the word holds the corrupt value 3.
pub open spec fn word_fields_ok(word: u64) -> bool {
    forall|i: int| 0 <= i < 16 ==> field(word, i) != 3
}

/// The word is one `encode` can produce: valid fields and a clear upper
/// half.
pub open spec fn word_canonical(word: u64) -> bool {
    word_fields_ok(word) && word >> 32 == 0
}

/// The cells a packed word holds.
pub open spec fn decoded(word: u64) -> Seq<Tile> {
    Seq::new(16, |i: int| tile_of(field(word, i)))
}

/// The packed form of the first `n` cells; fields at and above `n` are
/// zero.
pub open spec fn encode_prefix(cells: Seq<Tile>, n: int) -> u64
    decreases n,
{
    if n <= 0 {
        0u64
    } else {
        encode_prefix(cells, n - 1) | (tile_val(cells[n - 1]) << (2 * (n - 1)) as u64)
    }
}

/// The packed form of a full board.
pub open spec fn spec_encode(cells: Seq<Tile>) -> u64 {
    encode_prefix(cells, 16)
}

impl Board {
    /// The board invariant: exactly 16 cells.
    pub open spec fn wf(&self) -> bool {
        self.cells@.len() == 16
    }

    /// Unpacks a word into a board. The word must be free of corrupt
    /// fields; a corrupt word can only arise from tampering with the shared
    /// atom, and callers treat it as a fatal fault before coming here.
    pub fn decode(state: u64) -> (b: Board)
        requires
            word_fields_ok(state),
        ensures
            b.wf(),
            b.cells@ == decoded(state),
    {
        let mut cells: Vec<Tile> = Vec::new();
        let mut i: usize = 0;
        while i < 16
            invariant
                word_fields_ok(state),
                i <= 16,
                cells@.len() == i as int,
                forall|j: int| 0 <= j < i as int ==> cells@[j] == tile_of(field(state, j)),
            decreases 16 - i,
        {
            let val: u64 = (state >> (2 * i) as u64) & 3;
            assert(val == field(state, i as int));
            assert(field(state, i as int) != 3);
            let t = if val == 1 {
                Tile::Cookie
            } else if val == 2 {
                Tile::Milk
            } else {
                Tile::Empty
            };
            cells.push(t);
            i = i + 1;
        }
        let b = Board { cells };
        proof {
            assert(b.cells@ =~= decoded(state));
        }
        b
    }

    /// Packs the board into a word: valid fields, upper half clear.
    pub fn encode(&self) -> (r: u64)
        requires
            self.wf(),
        ensures
            r == spec_encode(self.cells@),
            word_canonical(r),
            decoded(r) == self.cells@,
    {
        let mut state: u64 = 0;
        let mut i: usize = 0;
        while i < 16
            invariant
                self.wf(),
                i <= 16,
                state == encode_prefix(self.cells@, i as int),
            decreases 16 - i,
        {
            let t = self.cells[i];
            let val: u64 = match t {
                Tile::Empty => 0,
                Tile::Cookie => 1,
                Tile::Milk => 2,
            };
            assert(val == tile_val(self.cells@[i as int]));
            state = state | (val << (2 * i) as u64);
            i = i + 1;
        }
        proof {
            lemma_encode_fields(self.cells@);
            assert(decoded(state) =~= self.cells@);
        }
        state
    }
}

/// Checks a word for corrupt fields. `true` exactly when every two-bit
/// field is a valid cell encoding.
pub fn word_fields_valid(state: u64) -> (r: bool)
    ensures
        r == word_fields_ok(state),
{
    let mut i: usize = 0;
    while i < 16
        invariant
            i <= 16,
            forall|j: int| 0 <= j < i as int ==> field(state, j) != 3,
        decreases 16 - i,
    {
        if (state >> (2 * i) as u64) & 3 == 3 {
            proof {
                assert(field(state, i as int) == 3);
            }
            return false;
        }
        i = i + 1;
    }
    true
}

/// The cell index of spot `j` on line `k`: lines 0 to 3 are the rows, 4 to
/// 7 the columns, 8 the top-left diagonal, 9 the top-right diagonal.
pub open spec fn line_index(k: int, j: int) -> int {
    if k < 4 {
        4 * k + j
    } else if k < 8 {
        (k - 4) + 4 * j
    } else if k == 8 {
        5 * j
    } else {
        3 + 3 * j
    }
}

/// The player holding all four spots of line `k`, if any.
pub open spec fn line_winner(cells: Seq<Tile>, k: int) -> Option<Tile> {
    if cells[line_index(k, 0)] != Tile::Empty && cells[line_index(k, 1)] == cells[line_index(
        k,
        0,
    )] && cells[line_index(k, 2)] == cells[line_index(k, 0)] && cells[line_index(k, 3)]
        == cells[line_index(k, 0)] {
        Some(cells[line_index(k, 0)])
    } else {
        None
    }
}

/// The winner of the first won line at or after `k`, rows before columns
/// before diagonals.
pub open spec fn first_winner_from(cells: Seq<Tile>, k: int) -> Option<Tile>
    decreases 10 - k,
{
    if k < 0 || k >= 10 {
        None
    } else if line_winner(cells, k) is Some {
        line_winner(cells, k)
    } else {
        first_winner_from(cells, k + 1)
    }
}

/// No cell is left empty.
pub open spec fn board_full(cells: Seq<Tile>) -> bool {
    forall|i: int| 0 <= i < 16 ==> cells[i] != Tile::Empty
}

/// The outcome of a board: the first won line's player if a line is won,
/// else a draw when the board is full, else still in progress.
pub open spec fn spec_outcome(cells: Seq<Tile>) -> GameOutcome {
    match first_winner_from(cells, 0) {
        Some(t) => GameOutcome::Won(t),
        None => if board_full(cells) {
            GameOutcome::Draw
        } else {
            GameOutcome::InProgress
        },
    }
}

/// The scan can start anywhere in a prefix of unwon lines without changing
/// what it finds.
proof fn lemma_first_winner_skip(cells: Seq<Tile>, k: int)
    requires
        0 <= k <= 10,
        forall|m: int| 0 <= m < k ==> line_winner(cells, m) is None,
    ensures
        first_winner_from(cells, 0) == first_winner_from(cells, k),
    decreases k,
{
    if k > 0 {
        lemma_first_winner_skip(cells, k - 1);
    }
}

/// The bottom-most empty row of a column, the spot gravity fills first.
pub open spec fn lowest_empty_row(cells: Seq<Tile>, col: int) -> Option<int> {
    if cells[col + 12] == Tile::Empty {
        Some(3)
    } else if cells[col + 8] == Tile::Empty {
        Some(2)
    } else if cells[col + 4] == Tile::Empty {
        Some(1)
    } else if cells[col] == Tile::Empty {
        Some(0)
    } else {
        None
    }
}

/// Gravity law: a move lands on the bottom-most empty row of its column —
/// every row below the landing spot is already taken — and a column refuses
/// a move exactly when all four of its rows are taken.
pub proof fn lemma_gravity(cells: Seq<Tile>, col: int)
    requires
        cells.len() == 16,
        0 <= col < 4,
    ensures
        lowest_empty_row(cells, col) matches Some(row) ==> 0 <= row < 4 && cells[col + 4 * row]
            == Tile::Empty && (forall|r2: int|
            row < r2 < 4 ==> #[trigger] cells[col + 4 * r2] != Tile::Empty),
        lowest_empty_row(cells, col) is None <==> (forall|r2: int|
            0 <= r2 < 4 ==> #[trigger] cells[col + 4 * r2] != Tile::Empty),
{
    if lowest_empty_row(cells, col) is None {
        assert forall|r2: int| 0 <= r2 < 4 implies #[trigger] cells[col + 4 * r2] != Tile::Empty by {
            assert(cells[col + 4 * 0] != Tile::Empty);
            assert(cells[col + 4 * 1] != Tile::Empty);
            assert(cells[col + 4 * 2] != Tile::Empty);
            assert(cells[col + 4 * 3] != Tile::Empty);
        }
    }
}

/// A display glyph per cell.
pub open spec fn glyph(t: Tile) -> Seq<char> {
    match t {
        Tile::Empty => "⬛"@,
        Tile::Cookie => "🍪"@,
        Tile::Milk => "🥛"@,
    }
}

/// One rendered row: a frame glyph, the row's four cells, a frame glyph, a
/// newline.
pub open spec fn spec_render_row(cells: Seq<Tile>, row: int) -> Seq<char> {
    "⬜"@ + glyph(cells[4 * row]) + glyph(cells[4 * row + 1]) + glyph(cells[4 * row + 2]) + glyph(
        cells[4 * row + 3],
    ) + "⬜"@ + "\n"@
}

/// The first `n` rendered rows, top to bottom.
pub open spec fn spec_render_rows(cells: Seq<Tile>, n: int) -> Seq<char>
    decreases n,
{
    if n <= 0 {
        Seq::empty()
    } else {
        spec_render_rows(cells, n - 1) + spec_render_row(cells, n - 1)
    }
}

/// The message a finished board appends after the frame row, empty while
/// the game is in progress.
pub open spec fn spec_outcome_suffix(cells: Seq<Tile>) -> Seq<char> {
    match spec_outcome(cells) {
        GameOutcome::Won(t) => "\n"@ + if t == Tile::Cookie {
            "🍪 wins!"@
        } else {
            "🥛 wins!"@
        },
        GameOutcome::Draw => "\n"@ + "No winner."@,
        GameOutcome::InProgress => Seq::<char>::empty(),
    }
}

/// The full rendering: four rows, a bottom frame row, the outcome message
/// if any, and a closing newline.
pub open spec fn spec_render(cells: Seq<Tile>) -> Seq<char> {
    spec_render_rows(cells, 4) + "⬜⬜⬜⬜⬜⬜"@ + spec_outcome_suffix(cells) + "\n"@
}

/// The display glyph of one cell.
fn glyph_str(t: Tile) -> (r: &'static str)
    ensures
        r@ == glyph(t),
{
    match t {
        Tile::Empty => "⬛",
        Tile::Cookie => "🍪",
        Tile::Milk => "🥛",
    }
}

impl Board {
    /// The cell index of spot `j` on line `k`.
    fn line_cell(k: usize, j: usize) -> (r: usize)
        requires
            k < 10,
            j < 4,
        ensures
            r as int == line_index(k as int, j as int),
            r < 16,
    {
        if k < 4 {
            4 * k + j
        } else if k < 8 {
            (k - 4) + 4 * j
        } else if k == 8 {
            5 * j
        } else {
            3 + 3 * j
        }
    }

    /// Scans the four rows, then the four columns, then the two diagonals,
    /// and reports the first won line's player; with no won line, reports a
    /// draw exactly when the board is full.
    pub fn check_for_winner(&self) -> (r: GameOutcome)
        requires
            self.wf(),
        ensures
            r == spec_outcome(self.cells@),
    {
        let mut k: usize = 0;
        while k < 10
            invariant
                self.wf(),
                k <= 10,
                forall|m: int| 0 <= m < k as int ==> line_winner(self.cells@, m) is None,
            decreases 10 - k,
        {
            let a = self.cells[Self::line_cell(k, 0)];
            let b = self.cells[Self::line_cell(k, 1)];
            let c = self.cells[Self::line_cell(k, 2)];
            let d = self.cells[Self::line_cell(k, 3)];
            if a != Tile::Empty && b == a && c == a && d == a {
                proof {
                    assert(line_winner(self.cells@, k as int) == Some(a));
                    lemma_first_winner_skip(self.cells@, k as int);
                }
                return GameOutcome::Won(a);
            }
            proof {
                assert(line_winner(self.cells@, k as int) is None);
            }
            k = k + 1;
        }
        proof {
            lemma_first_winner_skip(self.cells@, 10);
        }
        let mut i: usize = 0;
        while i < 16
            invariant
                self.wf(),
                i <= 16,
                first_winner_from(self.cells@, 0) is None,
                forall|j: int| 0 <= j < i as int ==> self.cells@[j] != Tile::Empty,
            decreases 16 - i,
        {
            if self.cells[i] == Tile::Empty {
                return GameOutcome::InProgress;
            }
            i = i + 1;
        }
        GameOutcome::Draw
    }

    /// The four cells of a column, top to bottom.
    pub fn get_col(&self, col: usize) -> (r: [Tile; 4])
        requires
            self.wf(),
            col < 4,
        ensures
            forall|j: int| 0 <= j < 4 ==> r@[j] == self.cells@[col + 4 * j],
    {
        let line = [self.cells[col], self.cells[col + 4], self.cells[col + 8], self.cells[col
            + 12]];
        line
    }

    /// Drops a player's piece into a column: the bottom-most empty row of
    /// the column takes it, and a full column refuses it, leaving the board
    /// unchanged.
    pub fn push_item(&mut self, col_idx: usize, item: Tile) -> (r: Result<(), ()>)
        requires
            old(self).wf(),
            col_idx < 4,
        ensures
            final(self).wf(),
            match lowest_empty_row(old(self).cells@, col_idx as int) {
                Some(row) => r is Ok && final(self).cells@ == old(self).cells@.update(
                    col_idx + 4 * row,
                    item,
                ),
                None => r is Err && final(self).cells@ == old(self).cells@,
            },
    {
        let col = self.get_col(col_idx);
        let idx_last_empty: usize = if col[3] == Tile::Empty {
            3
        } else if col[2] == Tile::Empty {
            2
        } else if col[1] == Tile::Empty {
            1
        } else if col[0] == Tile::Empty {
            0
        } else {
            return Err(());
        };
        self.cells[col_idx + idx_last_empty * 4] = item;
        Ok(())
    }

    /// Renders the board: four framed rows of glyphs, a bottom frame row,
    /// then the winner's message or the draw message if the game is over,
    /// and a closing newline.
    #[verifier::rlimit(50)]
    pub fn render(&self) -> (r: String)
        requires
            self.wf(),
        ensures
            r@ == spec_render(self.cells@),
    {
        let mut s = String::new();
        let mut row: usize = 0;
        while row < 4
            invariant
                self.wf(),
                row <= 4,
                s@ == spec_render_rows(self.cells@, row as int),
            decreases 4 - row,
        {
            s.append("⬜");
            s.append(glyph_str(self.cells[4 * row]));
            s.append(glyph_str(self.cells[4 * row + 1]));
            s.append(glyph_str(self.cells[4 * row + 2]));
            s.append(glyph_str(self.cells[4 * row + 3]));
            s.append("⬜");
            s.append("\n");
            proof {
                assert(s@ =~= spec_render_rows(self.cells@, row as int + 1));
            }
            row = row + 1;
        }
        s.append("⬜⬜⬜⬜⬜⬜");
        match self.check_for_winner() {
            GameOutcome::Won(t) => {
                s.append("\n");
                if t == Tile::Cookie {
                    s.append("🍪 wins!");
                } else {
                    s.append("🥛 wins!");
                }
            },
            GameOutcome::Draw => {
                s.append("\n");
                s.append("No winner.");
            },
            GameOutcome::InProgress => {},
        }
        s.append("\n");
        s
    }
}

/// Setting one two-bit field of a word whose fields from `k` upward are
/// clear: fields below `k` keep their value, field `k` takes the new value,
/// and fields above `k` stay clear.
proof fn lemma_or_field(w: u64, v: u64, k: u64, i: u64)
    requires
        v <= 3,
        k < 16,
        i < 16,
        w >> (2 * k) == 0,
    ensures
        i < k ==> ((w | (v << (2 * k))) >> (2 * i)) & 3 == (w >> (2 * i)) & 3,
        ((w | (v << (2 * k))) >> (2 * k)) & 3 == v,
        (w | (v << (2 * k))) >> (2 * k + 2) == 0,
{
    assert(i < k ==> ((w | (v << (2 * k))) >> (2 * i)) & 3 == (w >> (2 * i)) & 3) by (bit_vector)
        requires
            v <= 3,
            k < 16,
            i < 16,
    ;
    assert(((w | (v << (2 * k))) >> (2 * k)) & 3 == v) by (bit_vector)
        requires
            v <= 3,
            k < 16,
            w >> (2 * k) == 0,
    ;
    assert((w | (v << (2 * k))) >> (2 * k + 2) == 0) by (bit_vector)
        requires
            v <= 3,
            k < 16,
            w >> (2 * k) == 0,
    ;
}

/// The packed prefix of `n` cells holds exactly those cells in its low
/// fields and nothing above them.
proof fn lemma_encode_prefix(cells: Seq<Tile>, n: int)
    requires
        0 <= n <= 16,
        cells.len() == 16,
    ensures
        encode_prefix(cells, n) >> (2 * n) as u64 == 0,
        forall|i: int| 0 <= i < n ==> field(encode_prefix(cells, n), i) == tile_val(cells[i]),
    decreases n,
{
    if n > 0 {
        lemma_encode_prefix(cells, n - 1);
        let w = encode_prefix(cells, n - 1);
        let v = tile_val(cells[n - 1]);
        let wn = encode_prefix(cells, n);
        assert(wn == w | (v << (2 * (n - 1)) as u64));
        assert forall|i: int| 0 <= i < n implies field(wn, i) == tile_val(cells[i]) by {
            lemma_or_field(w, v, (n - 1) as u64, i as u64);
            if i < n - 1 {
                assert(field(w, i) == tile_val(cells[i]));
            }
        }
        lemma_or_field(w, v, (n - 1) as u64, 0u64);
        assert(wn >> (2 * (n - 1) + 2) as u64 == 0);
        assert(2 * (n - 1) + 2 == 2 * n);
    } else {
        assert(0u64 >> 0u64 == 0) by (bit_vector);
    }
}

/// A packed board has exactly the board's cells in its fields and a clear
/// upper half.
pub proof fn lemma_encode_fields(cells: Seq<Tile>)
    requires
        cells.len() == 16,
    ensures
        forall|i: int| 0 <= i < 16 ==> field(spec_encode(cells), i) == tile_val(cells[i]),
        word_canonical(spec_encode(cells)),
{
    lemma_encode_prefix(cells, 16);
    let w = spec_encode(cells);
    assert forall|i: int| 0 <= i < 16 implies field(w, i) != 3 by {
        assert(field(w, i) == tile_val(cells[i]));
    }
}

/// Round trip one way: every board survives packing and unpacking
/// unchanged.
pub proof fn lemma_board_round_trip(cells: Seq<Tile>)
    requires
        cells.len() == 16,
    ensures
        decoded(spec_encode(cells)) == cells,
{
    lemma_encode_fields(cells);
    assert forall|i: int| 0 <= i < 16 implies decoded(spec_encode(cells))[i] == cells[i] by {
        assert(field(spec_encode(cells), i) == tile_val(cells[i]));
    }
    assert(decoded(spec_encode(cells)) =~= cells);
}

/// Extending a low mask of a word by its own next two-bit field.
proof fn lemma_mask_extend(w: u64, k: u64)
    requires
        k < 16,
    ensures
        (w & !(u64::MAX << (2 * k))) | (((w >> (2 * k)) & 3) << (2 * k)) == w & !(u64::MAX
            << (2 * k + 2)),
{
    assert((w & !(u64::MAX << (2 * k))) | (((w >> (2 * k)) & 3) << (2 * k)) == w & !(u64::MAX << (2
        * k + 2))) by (bit_vector)
        requires
            k < 16,
    ;
}

/// The packed prefix of a decoded word equals the word under a low mask.
proof fn lemma_decode_prefix(word: u64, n: int)
    requires
        0 <= n <= 16,
        word_fields_ok(word),
    ensures
        encode_prefix(decoded(word), n) == word & !(u64::MAX << (2 * n) as u64),
    decreases n,
{
    if n == 0 {
        assert(word & !(u64::MAX << 0u64) == 0) by (bit_vector);
    } else {
        lemma_decode_prefix(word, n - 1);
        let k = (n - 1) as u64;
        let f = field(word, n - 1);
        assert(f != 3);
        assert(tile_val(tile_of(f)) == f) by {
            assert(f == (word >> (2 * k)) & 3);
            assert(((word >> (2 * k)) & 3) <= 3) by (bit_vector);
        }
        assert(decoded(word)[n - 1] == tile_of(f));
        lemma_mask_extend(word, k);
    }
}

/// Round trip the other way: every canonical word survives unpacking and
/// packing unchanged.
pub proof fn lemma_word_round_trip(word: u64)
    requires
        word_canonical(word),
    ensures
        spec_encode(decoded(word)) == word,
{
    lemma_decode_prefix(word, 16);
    assert(word >> 32 == 0 ==> word & !(u64::MAX << 32u64) == word) by (bit_vector);
}

} // verus!
