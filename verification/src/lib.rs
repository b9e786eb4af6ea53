//! The decisions of an iOS player for a Flash game: the crash record and
//! how the previous session's end is judged, the touch buttons' keys, the
//! addresses that open a game, the entry page's navigation, and what the
//! player's controller holds and is configured with.
//!
//! Everything that touches UIKit, the file system or the clock lives with
//! the caller; the library takes what they produced as plain values and
//! returns what to do.
pub mod cena;
pub mod endereco;
pub mod jogador;
pub mod registro;
pub mod teclas;
pub mod texto;
