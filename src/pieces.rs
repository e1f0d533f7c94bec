//! Policies that choose a piece length from a file size.
use vstd::prelude::*;

verus! {

/// A policy that picks the length of the pieces a file is cut into.
pub trait PieceMaker {
    /// The policy is usable.
    spec fn valid(&self) -> bool;

    /// The piece length the policy picks for a file of `file_size` bytes.
    spec fn piece_size_for(&self, file_size: u64) -> u64;

    fn calc_piece_size(&self, file_size: u64) -> (r: u64)
        requires
            self.valid(),
        ensures
            r == self.piece_size_for(file_size),
    ;
}

/// The piece policies that can be chosen.
pub enum PieceMakerImpl {
    Static(StaticPieceMaker),
}

/// Always the same piece length.
pub struct StaticPieceMaker {
    pub piece_size: u64,
}

impl StaticPieceMaker {
    pub fn new(piece_size: u64) -> (r: StaticPieceMaker)
        ensures
            r.piece_size == piece_size,
    {
        Self { piece_size }
    }
}

impl PieceMaker for StaticPieceMaker {
    open spec fn valid(&self) -> bool {
        true
    }

    open spec fn piece_size_for(&self, file_size: u64) -> u64 {
        self.piece_size
    }

    fn calc_piece_size(&self, _file_size: u64) -> (r: u64) {
        self.piece_size
    }
}

/// The file size divided by a fixed divisor; a non-empty file smaller than
/// the divisor is one piece.
pub struct DynamicPieceMaker {
    pub divisor: u64,
}

impl DynamicPieceMaker {
    pub fn new(divisor: u64) -> (r: DynamicPieceMaker)
        ensures
            r.divisor == divisor,
    {
        Self { divisor }
    }
}

impl PieceMaker for DynamicPieceMaker {
    open spec fn valid(&self) -> bool {
        self.divisor > 0
    }

    open spec fn piece_size_for(&self, file_size: u64) -> u64 {
        if 0 < file_size < self.divisor {
            file_size
        } else {
            file_size / self.divisor
        }
    }

    fn calc_piece_size(&self, file_size: u64) -> (r: u64) {
        if 0 < file_size && file_size < self.divisor {
            file_size
        } else {
            file_size / self.divisor
        }
    }
}

} // verus!
