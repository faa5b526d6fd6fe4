//! What can go wrong in a run, a redo or a step of a dispatch.

use vstd::prelude::*;
use vstd::string::StringExecFns;

verus! {

/// The reasons for which the library refuses to act. None of them is the
/// failure of a mail: that is recorded in the audit log, and the run goes on.
#[derive(Debug, PartialEq, Eq, Clone, Copy, Structural)]
pub enum Erro {
    /// The roster has fewer than two participants.
    JogadoresInsuficientes,
    /// The outcomes given are not one for each participant.
    ResultadosDivergentes,
    /// The audit log has handed out its last id.
    RegistroCheio,
    /// The dispatch has no assignment left to record an outcome for.
    NadaPendente,
    /// The dispatch still has assignments without an outcome.
    EnviosPendentes,
    /// The audit log holds no record with the id given.
    EnvioInexistente,
    /// The participants given are not those of the record.
    JogadoresDivergentes,
}

impl Erro {
    /// A sentence that says what went wrong.
    pub fn mensagem(&self) -> (texto: String)
        ensures
            texto@ == match *self {
                Erro::JogadoresInsuficientes => "o sorteio precisa de ao menos dois jogadores"@,
                Erro::ResultadosDivergentes => "a quantidade de resultados difere da de jogadores"@,
                Erro::RegistroCheio => "o registro de envios esgotou seus ids"@,
                Erro::NadaPendente => "nenhum envio pendente"@,
                Erro::EnviosPendentes => "ainda ha envios pendentes"@,
                Erro::EnvioInexistente => "envio inexistente"@,
                Erro::JogadoresDivergentes => "os jogadores nao sao os do envio"@,
            },
    {
        match self {
            Erro::JogadoresInsuficientes => String::from_str(
                "o sorteio precisa de ao menos dois jogadores",
            ),
            Erro::ResultadosDivergentes => String::from_str(
                "a quantidade de resultados difere da de jogadores",
            ),
            Erro::RegistroCheio => String::from_str("o registro de envios esgotou seus ids"),
            Erro::NadaPendente => String::from_str("nenhum envio pendente"),
            Erro::EnviosPendentes => String::from_str("ainda ha envios pendentes"),
            Erro::EnvioInexistente => String::from_str("envio inexistente"),
            Erro::JogadoresDivergentes => String::from_str("os jogadores nao sao os do envio"),
        }
    }
}

} // verus!
