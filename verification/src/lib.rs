//! A codec for the SFEN notation of shogi positions and move lists.
//!
//! [`decode`] turns a record such as `sfen <board> <side> <hands> <ply> moves ...`
//! into a [`Position`] and a list of [`Move`]s; [`encode`] writes the canonical
//! text of such a pair. Neither looks at the rules of the game: every record
//! that is well written is read, and a canonical record is written back as it
//! was.
//!
//! The module [`grammar`] states the notation as functions on texts. The
//! contracts of [`decode`] and [`encode`] speak of those functions, and the
//! module [`laws`] proves what holds between them.

pub mod board;
pub mod decode;
pub mod encode;
pub mod error;
pub mod grammar;
pub mod hand;
pub mod laws;
pub mod moves;
pub mod piece;
pub mod position;
pub mod square;
pub mod text;

pub use board::Board;
pub use decode::decode;
pub use encode::encode;
pub use error::Error;
pub use hand::Hand;
pub use moves::{Move, MoveDrop, MoveNondrop, MoveView};
pub use piece::{BoardCell, PieceType, Side};
pub use position::{Position, PositionView};
pub use square::{Coord, Square};
