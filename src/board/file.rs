//! A file on the chess board.

use vstd::prelude::*;

use crate::board::bitboard::BitBoard;

verus! {

/// Represents a file on a chessboard.
#[derive(PartialEq, Eq, Structural, Clone, Copy, Debug)]
pub enum File {
    /// A file.
    A,
    /// B file.
    B,
    /// C file.
    C,
    /// D file.
    D,
    /// E file.
    E,
    /// F file.
    F,
    /// G file.
    G,
    /// H file.
    H,
}

/// The squares of the A file.
pub open spec fn a_file_bits() -> u64 {
    0x0101010101010101u64
}

impl File {
    /// The number of the file, from 0 (A) to 7 (H).
    pub open spec fn index(self) -> int {
        match self {
            File::A => 0,
            File::B => 1,
            File::C => 2,
            File::D => 3,
            File::E => 4,
            File::F => 5,
            File::G => 6,
            File::H => 7,
        }
    }

    /// The file with the given number.
    pub open spec fn from_index_spec(i: int) -> File {
        if i <= 0 {
            File::A
        } else if i == 1 {
            File::B
        } else if i == 2 {
            File::C
        } else if i == 3 {
            File::D
        } else if i == 4 {
            File::E
        } else if i == 5 {
            File::F
        } else if i == 6 {
            File::G
        } else {
            File::H
        }
    }

    /// Obtains a file from the given index.
    pub fn from_index(index: u8) -> (r: Self)
        requires
            index < 8,
        ensures
            r.index() == index,
            r == File::from_index_spec(index as int),
    {
        match index {
            0 => File::A,
            1 => File::B,
            2 => File::C,
            3 => File::D,
            4 => File::E,
            5 => File::F,
            6 => File::G,
            _ => File::H,
        }
    }

    /// Converts the file to an index.
    pub fn to_index(&self) -> (r: u8)
        ensures
            r as int == self.index(),
    {
        match self {
            File::A => 0,
            File::B => 1,
            File::C => 2,
            File::D => 3,
            File::E => 4,
            File::F => 5,
            File::G => 6,
            File::H => 7,
        }
    }

    /// Converts the file to a [BitBoard] of its eight squares.
    pub fn to_bitboard(&self) -> (r: BitBoard)
        ensures
            r.0 == a_file_bits() << (self.index() as u64),
    {
        let i = self.to_index() as u64;
        let mut val: u64 = 0;
        val = val | 1u64 << i;
        val = val | val << 8u64;
        val = val | val << 16u64;
        val = val | val << 32u64;
        assert(val == 0x0101010101010101u64 << i) by (bit_vector)
            requires
                i < 8,
                val == ({
                    let v1 = 0u64 | 1u64 << i;
                    let v2 = v1 | v1 << 8u64;
                    let v3 = v2 | v2 << 16u64;
                    v3 | v3 << 32u64
                }),
        ;
        BitBoard::new(val)
    }

    /// Returns all the files, from A to H.
    pub fn iter() -> (r: Vec<File>)
        ensures
            r@ == seq![File::A, File::B, File::C, File::D, File::E, File::F, File::G, File::H],
    {
        vec![File::A, File::B, File::C, File::D, File::E, File::F, File::G, File::H]
    }

    /// Returns the next file, or none if on the last file.
    pub fn next(&self) -> (r: Option<File>)
        ensures
            self.index() < 7 ==> r == Some(File::from_index_spec(self.index() + 1)),
            self.index() == 7 ==> r is None,
    {
        match *self {
            File::A => Some(File::B),
            File::B => Some(File::C),
            File::C => Some(File::D),
            File::D => Some(File::E),
            File::E => Some(File::F),
            File::F => Some(File::G),
            File::G => Some(File::H),
            File::H => None,
        }
    }

    /// Returns the previous file, or none if on the first file.
    pub fn prev(&self) -> (r: Option<File>)
        ensures
            self.index() > 0 ==> r == Some(File::from_index_spec(self.index() - 1)),
            self.index() == 0 ==> r is None,
    {
        match *self {
            File::A => None,
            File::B => Some(File::A),
            File::C => Some(File::B),
            File::D => Some(File::C),
            File::E => Some(File::D),
            File::F => Some(File::E),
            File::G => Some(File::F),
            File::H => Some(File::G),
        }
    }
}

} // verus!
