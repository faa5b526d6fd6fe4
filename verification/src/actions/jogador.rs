//! Changes to a participant: a new name or a new address.

use crate::cli::JogadoresSetParams;
use crate::db::Jogador;
use vstd::prelude::*;

verus! {

/// The participant `jogador` after the change `param`.
pub open spec fn changed(jogador: Jogador, param: JogadoresSetParams) -> Jogador {
    match param {
        JogadoresSetParams::Email { val } => Jogador { email: val, ..jogador },
        JogadoresSetParams::Nome { val } => Jogador { nome: val, ..jogador },
    }
}

/// The name of the column that `param` changes.
pub open spec fn column_of(param: JogadoresSetParams) -> Seq<char> {
    match param {
        JogadoresSetParams::Email { .. } => "email"@,
        JogadoresSetParams::Nome { .. } => "nome"@,
    }
}

/// The column that `param` changes, and its new value.
pub fn set_column(param: JogadoresSetParams) -> (r: (&'static str, String))
    ensures
        r.0@ == column_of(param),
        r.1 == match param {
            JogadoresSetParams::Email { val } => val,
            JogadoresSetParams::Nome { val } => val,
        },
{
    match param {
        JogadoresSetParams::Email { val } => ("email", val),
        JogadoresSetParams::Nome { val } => ("nome", val),
    }
}

/// Changes the name or the address of `jogador`; its id and group stay.
pub fn jogadores_set(jogador: &mut Jogador, param: JogadoresSetParams)
    ensures
        *final(jogador) == changed(*old(jogador), param),
{
    match param {
        JogadoresSetParams::Email { val } => {
            jogador.email = val;
        },
        JogadoresSetParams::Nome { val } => {
            jogador.nome = val;
        },
    }
}

} // verus!
