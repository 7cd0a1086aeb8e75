use vstd::prelude::*;

verus! {

/// Number of sensed row lines in the key matrix.
pub const ROWS: usize = 4;

/// Number of driven column lines in the key matrix.
pub const COLS: usize = 5;

/// Usage codes of the keys, one per matrix cell, indexed by row then column.
#[derive(Debug, Clone, Copy)]
pub struct KeyMap {
    pub codes: [[u8; 5]; 4],
}

impl KeyMap {
    /// The usage code of the key at (`row`, `col`).
    pub open spec fn usage_spec(&self, row: int, col: int) -> u8 {
        self.codes@[row]@[col]
    }

    /// A key map holding the given table.
    pub fn new(codes: [[u8; 5]; 4]) -> (r: KeyMap)
        ensures
            r.codes == codes,
    {
        KeyMap { codes }
    }

    /// The usage code of the key at (`row`, `col`).
    pub fn usage(&self, row: usize, col: usize) -> (r: u8)
        requires
            row < ROWS,
            col < COLS,
        ensures
            r == self.usage_spec(row as int, col as int),
    {
        self.codes[row][col]
    }
}

} // verus!
