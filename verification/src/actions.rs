//! What the operator can ask for: a new draw, a run of a draw, the redo of
//! one dispatch, a change to a participant.

pub mod envio;
pub mod jogador;
pub mod sorteio;
