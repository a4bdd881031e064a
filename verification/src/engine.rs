use vstd::prelude::*;
use crate::rules::{king_step, knight_jump};

verus! {

/// The shared rule tables: for every pair of squares, whether a knight
/// or a king standing on the first could move to the second.  An engine
/// is built once, never changes afterwards, and is shared by reference
/// among all concurrent games.
#[derive(Debug)]
pub struct Engine {
    knight_table: Vec<Vec<bool>>,
    king_table: Vec<Vec<bool>>,
}

impl Engine {
    #[verifier::type_invariant]
    spec fn type_inv(self) -> bool {
        &&& self.knight_table@.len() == 64
        &&& self.king_table@.len() == 64
        &&& forall|a: int| 0 <= a < 64 ==> (#[trigger] self.knight_table@[a])@.len() == 64
        &&& forall|a: int| 0 <= a < 64 ==> (#[trigger] self.king_table@[a])@.len() == 64
        &&& forall|a: int, b: int|
            0 <= a < 64 && 0 <= b < 64 ==> #[trigger] self.knight_table@[a]@[b] == knight_jump(
                a,
                b,
            )
        &&& forall|a: int, b: int|
            0 <= a < 64 && 0 <= b < 64 ==> #[trigger] self.king_table@[a]@[b] == king_step(a, b)
    }

    /// Builds the rule tables.  Expensive relative to every other
    /// operation of the engine, and meant to run once per process.
    pub fn new() -> (r: Engine) {
        let mut knight_table: Vec<Vec<bool>> = Vec::new();
        let mut king_table: Vec<Vec<bool>> = Vec::new();
        let mut a: u8 = 0;
        while a < 64
            invariant
                a <= 64,
                knight_table@.len() == a,
                king_table@.len() == a,
                forall|i: int| 0 <= i < a ==> (#[trigger] knight_table@[i])@.len() == 64,
                forall|i: int| 0 <= i < a ==> (#[trigger] king_table@[i])@.len() == 64,
                forall|i: int, j: int|
                    0 <= i < a && 0 <= j < 64 ==> #[trigger] knight_table@[i]@[j] == knight_jump(
                        i,
                        j,
                    ),
                forall|i: int, j: int|
                    0 <= i < a && 0 <= j < 64 ==> #[trigger] king_table@[i]@[j] == king_step(i, j),
            decreases 64 - a,
        {
            let mut knight_row: Vec<bool> = Vec::new();
            let mut king_row: Vec<bool> = Vec::new();
            let mut b: u8 = 0;
            while b < 64
                invariant
                    a < 64,
                    b <= 64,
                    knight_row@.len() == b,
                    king_row@.len() == b,
                    forall|j: int|
                        0 <= j < b ==> #[trigger] knight_row@[j] == knight_jump(a as int, j),
                    forall|j: int| 0 <= j < b ==> #[trigger] king_row@[j] == king_step(a as int, j),
                decreases 64 - b,
            {
                knight_row.push(crate::rules::compute_knight_jump(a, b));
                king_row.push(crate::rules::compute_king_step(a, b));
                b = b + 1;
            }
            knight_table.push(knight_row);
            king_table.push(king_row);
            a = a + 1;
        }
        Engine { knight_table, king_table }
    }

    /// Whether a knight on square `a` could jump to square `b`, read
    /// from the precomputed table.
    pub fn knight_jump_at(&self, a: u8, b: u8) -> (r: bool)
        requires
            a < 64,
            b < 64,
        ensures
            r == knight_jump(a as int, b as int),
    {
        proof {
            use_type_invariant(self);
        }
        let row: &Vec<bool> = &self.knight_table[a as usize];
        row[b as usize]
    }

    /// Whether a king on square `a` could step to square `b`, read from
    /// the precomputed table.
    pub fn king_step_at(&self, a: u8, b: u8) -> (r: bool)
        requires
            a < 64,
            b < 64,
        ensures
            r == king_step(a as int, b as int),
    {
        proof {
            use_type_invariant(self);
        }
        let row: &Vec<bool> = &self.king_table[a as usize];
        row[b as usize]
    }
}

impl Default for Engine {
    /// The same tables as `Engine::new`.
    fn default() -> Engine {
        Engine::new()
    }
}

} // verus!
