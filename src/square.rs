use vstd::prelude::*;

verus! {

/// A board coordinate packed into one byte: the file in the low nibble and the
/// rank in the high nibble. Bit 3 of either nibble marks a value off the board,
/// so validity is the single test `value & 0x88 == 0`.
#[derive(Clone, Copy, Debug, PartialEq, Eq, Structural)]
pub struct Square(pub u8);

impl Square {
    /// The raw packed byte.
    pub open spec fn packed(self) -> u8 {
        self.0
    }

    pub open spec fn valid(self) -> bool {
        self.0 & 0x88u8 == 0
    }

    /// File 0..=7 (a..h).
    pub open spec fn file(self) -> int {
        (self.0 & 7u8) as int
    }

    /// Rank 0..=7 (1..8).
    pub open spec fn rank(self) -> int {
        ((self.0 >> 4u8) & 7u8) as int
    }

    /// The off-board value that stands for "no square".
    pub open spec fn sentinel() -> Square {
        Square(0x88)
    }

    /// The square at file `x`, rank `y`.
    pub open spec fn at(x: int, y: int) -> Square {
        Square((x + 16 * y) as u8)
    }

    pub fn new(x: u8, y: u8) -> (r: Square)
        requires
            x < 8,
            y < 8,
        ensures
            r.valid(),
            r.file() == x,
            r.rank() == y,
            r == Square::at(x as int, y as int),
    {
        let v: u8 = x | (y << 4u8);
        assert(v == x + 16 * y && v & 0x88u8 == 0 && v & 7u8 == x && (v >> 4u8) & 7u8 == y)
            by (bit_vector)
            requires
                x < 8u8,
                y < 8u8,
                v == x | (y << 4u8),
        ;
        Square(v)
    }

    /// The off-board sentinel.
    pub fn invalid() -> (r: Square)
        ensures
            !r.valid(),
            r == Square::sentinel(),
    {
        assert(0x88u8 & 0x88u8 != 0) by (bit_vector);
        Square(0x88)
    }

    pub fn is_valid(&self) -> (r: bool)
        ensures
            r == self.valid(),
    {
        (self.0 & 0x88) == 0
    }

    pub fn is_invalid(&self) -> (r: bool)
        ensures
            r == !self.valid(),
    {
        !self.is_valid()
    }

    pub fn x(&self) -> (r: u8)
        ensures
            r == self.file(),
            r < 8,
    {
        let v: u8 = self.0;
        assert(v & 7u8 < 8u8) by (bit_vector);
        v & 7
    }

    pub fn y(&self) -> (r: u8)
        ensures
            r == self.rank(),
            r < 8,
    {
        let v: u8 = self.0;
        assert((v >> 4u8) & 7u8 < 8u8) by (bit_vector);
        (v >> 4) & 7
    }
}

/// A valid square is the one at its own file and rank.
pub proof fn lemma_valid_square(s: Square)
    requires
        s.valid(),
    ensures
        s == Square::at(s.file(), s.rank()),
        0 <= s.file() < 8,
        0 <= s.rank() < 8,
{
    let v = s.0;
    assert(v & 0x88u8 == 0 ==> v == (v & 7u8) + 16 * ((v >> 4u8) & 7u8)) by (bit_vector);
    assert(v == ((v & 7u8) + 16 * ((v >> 4u8) & 7u8)) as u8);
    assert(v & 7u8 < 8u8 && (v >> 4u8) & 7u8 < 8u8) by (bit_vector);
}

/// Squares at in-range coordinates are valid, and their coordinates read back.
pub proof fn lemma_square_at(x: int, y: int)
    requires
        0 <= x < 8,
        0 <= y < 8,
    ensures
        Square::at(x, y).valid(),
        Square::at(x, y).file() == x,
        Square::at(x, y).rank() == y,
{
    let a = x as u8;
    let b = y as u8;
    assert(Square::at(x, y).0 == a + 16 * b);
    assert(a < 8u8 && b < 8u8 ==> ((a + 16 * b) as u8) & 0x88u8 == 0 && ((a + 16 * b) as u8) & 7u8
        == a && (((a + 16 * b) as u8) >> 4u8) & 7u8 == b) by (bit_vector);
}

} // verus!
