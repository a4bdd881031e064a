use vstd::prelude::*;
use crate::color::Color;

verus! {

/// A board square, held as an index in 0..=63.  Index 0 is a1, 7 is h1,
/// 56 is a8 and 63 is h8: the index walks each rank file by file, from
/// White's side of the board upwards.
#[derive(Clone, Copy, Debug, PartialEq, Eq, Structural, Hash)]
pub struct Square {
    value: u8,
}

impl View for Square {
    type V = int;

    closed spec fn view(&self) -> int {
        self.value as int
    }
}

impl Square {
    #[verifier::type_invariant]
    spec fn type_inv(self) -> bool {
        self.value < 64
    }

    /// Builds the square with the given index.
    pub fn new(value: u8) -> (r: Square)
        requires
            value < 64,
        ensures
            r@ == value as int,
    {
        Square { value }
    }

    /// Builds the square with the given index, and reports an out-of-range
    /// index as a construction-time failure.
    pub fn try_new(value: u8) -> (r: Option<Square>)
        ensures
            value < 64 ==> (r matches Some(s) && s@ == value as int),
            value >= 64 ==> r is None,
    {
        if value < 64 {
            Some(Square { value })
        } else {
            None
        }
    }

    /// Builds the square on the given file and rank, both counted from 1
    /// to 8; any other pair is a construction-time failure.
    pub fn from_file_rank(file: u8, rank: u8) -> (r: Option<Square>)
        ensures
            (1 <= file <= 8 && 1 <= rank <= 8) ==> (r matches Some(s) && s@ == (rank - 1) * 8 + (
            file - 1)),
            !(1 <= file <= 8 && 1 <= rank <= 8) ==> r is None,
    {
        if 1 <= file && file <= 8 && 1 <= rank && rank <= 8 {
            Some(Square { value: (rank - 1) * 8 + (file - 1) })
        } else {
            None
        }
    }

    /// The square's index, always below 64.
    pub fn get_value(&self) -> (r: u8)
        ensures
            r == self@,
            r < 64,
    {
        proof {
            use_type_invariant(self);
        }
        self.value
    }

    /// The square's file, counted from 1 (the a-file) to 8 (the h-file).
    pub fn get_file(&self) -> (r: u8)
        ensures
            r == self@ % 8 + 1,
            1 <= r <= 8,
    {
        proof {
            use_type_invariant(self);
        }
        self.value % 8 + 1
    }

    /// The square's rank, counted from 1 (White's home rank) to 8.
    pub fn get_rank(&self) -> (r: u8)
        ensures
            r == self@ / 8 + 1,
            1 <= r <= 8,
    {
        proof {
            use_type_invariant(self);
        }
        self.value / 8 + 1
    }

    /// Whether the square is a light square.  a1 is dark, and colors
    /// alternate along every file and rank.
    pub fn is_white(&self) -> (r: bool)
        ensures
            r == ((self@ % 8 + self@ / 8) % 2 == 1),
    {
        proof {
            use_type_invariant(self);
        }
        (self.value % 8 + self.value / 8) % 2 == 1
    }

    /// Whether a pawn of the given side that reaches this square promotes:
    /// rank 8 for White, rank 1 for Black.
    pub fn is_promotion_square(&self, color: Color) -> (r: bool)
        ensures
            r == (self@ / 8 == if color == Color::White {
                7int
            } else {
                0int
            }),
    {
        proof {
            use_type_invariant(self);
        }
        match color {
            Color::White => self.value / 8 == 7,
            Color::Black => self.value / 8 == 0,
        }
    }

    /// All 64 squares in the order a GUI paints them from White's point of
    /// view: rank 8 first, each rank from the a-file to the h-file.
    pub fn iter_top_bottom() -> (r: Vec<Square>)
        ensures
            r@.len() == 64,
            forall|i: int| 0 <= i < 64 ==> (#[trigger] r@[i])@ == (7 - i / 8) * 8 + i % 8,
    {
        let mut v: Vec<Square> = Vec::new();
        let mut rank: u8 = 8;
        while rank >= 1
            invariant
                rank <= 8,
                v@.len() == (8 - rank) * 8,
                forall|i: int|
                    0 <= i < v@.len() ==> (#[trigger] v@[i])@ == (7 - i / 8) * 8 + i % 8,
            decreases rank,
        {
            let mut file: u8 = 1;
            while file <= 8
                invariant
                    1 <= rank <= 8,
                    1 <= file <= 9,
                    v@.len() == (8 - rank) * 8 + (file - 1),
                    forall|i: int|
                        0 <= i < v@.len() ==> (#[trigger] v@[i])@ == (7 - i / 8) * 8 + i % 8,
                decreases 9 - file,
            {
                v.push(Square { value: (rank - 1) * 8 + (file - 1) });
                file = file + 1;
            }
            rank = rank - 1;
        }
        v
    }
}

} // verus!
