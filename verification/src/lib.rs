//! A chess rules engine: board representation, pseudo-legal move generation,
//! legality filtering, move execution and position notation.
//!
//! A [`Board`] holds one position and the moves that led to it. Moves are
//! generated in two tiers: [`Raw`] lists the moves that the pieces' movement
//! rules allow and never asks whether a king is left capturable; [`Legal`]
//! keeps those after which the mover's king is safe, by trying each on a copy
//! of the board and asking [`Raw`] for the replies. [`Board::make_move`]
//! resolves a move in short algebraic notation to one legal move and plays
//! it.
//!
//! Letters follow the common convention everywhere: in a position text an
//! upper-case letter is a white piece and a lower-case letter a black one;
//! in a move, the piece letter and the promotion letter are written in the
//! case of the side that moves.
//!
//! The contracts speak of a [`Position`], the mathematical content of a
//! board. What holds in general is proved beside them: that legal moves
//! leave the mover's king safe in `movegen::legal` and `game`, what every
//! generated move is like in `movegen::sound`, what a ply changes in `game`,
//! that a position text reads back as the position in `round_trip`, and
//! what a text of a move reads as in `notation`.

pub mod bitpiece;
pub mod board;
pub mod chess_move;
pub mod color;
pub mod error;
pub mod fen;
pub mod game;
pub mod movegen;
pub mod notation;
pub mod piece;
pub mod position;
pub mod resolve;
pub mod round_trip;
pub mod square;
pub mod text;

pub use crate::bitpiece::{BitPiece, BitPieceFlags};
pub use crate::board::{Board, BoardStatus};
pub use crate::chess_move::{CastleMove, Move, MoveInfo, RawPieceMove};
pub use crate::color::Color;
pub use crate::error::{BoardError, ColorError, FenError, PieceError, SquareError};
pub use crate::movegen::{CaptureInfo, Legal, Raw, RawMove, RawMoveInfo, Walk, DD, HD, VD};
pub use crate::notation::{Letter, Notation, Origin};
pub use crate::piece::{Piece, PROMOTION_PIECES};
pub use crate::position::Position;
pub use crate::square::Square;
