//! The commands that the operator can give, and the action that each one
//! selects.

use vstd::prelude::*;

verus! {

/// A command: one of the four subjects, and what to do with it.
#[derive(Debug, PartialEq, Eq)]
#[allow(inconsistent_fields)]
pub enum Commands {
    Jogo { action: JogoAction },
    Jogadores { action: JogadoresAction },
    Sorteio { action: SorteioAction },
    Envio { action: EnvioAction },
}

/// What to do with a group.
#[derive(Debug, PartialEq, Eq)]
pub enum JogoAction {
    New { name: String },
    Rm { id: u64 },
    Ls,
    From { format: JogoFromFormat, path: String, nome: String },
}

/// What to do with a participant.
#[derive(Debug, PartialEq, Eq)]
#[allow(inconsistent_fields)]
pub enum JogadoresAction {
    Add { jogo: u64, nome: String, email: String },
    Rm { jogador: u64 },
    Inspect { jogador: u64 },
    Ls { jogo: Option<u64> },
    SetParam { id: u64, param: JogadoresSetParams },
}

/// The property of a participant to change, and its new value.
#[derive(Debug, PartialEq, Eq)]
pub enum JogadoresSetParams {
    Nome { val: String },
    Email { val: String },
}

/// The format of a file of participants.
#[derive(Debug, PartialEq, Eq, Clone, Copy)]
pub enum JogoFromFormat {
    Csv,
}

/// What to do with a draw.
#[derive(Debug, PartialEq, Eq)]
#[allow(inconsistent_fields)]
pub enum SorteioAction {
    New { jogo: u64 },
    Run { sorteio: u64 },
    Ls { jogo: Option<u64> },
    Inspect { sorteio: u64 },
}

/// What to do with a dispatch record.
#[derive(Debug, PartialEq, Eq)]
pub enum EnvioAction {
    Ls { sorteio: Option<u64> },
    Inspect { envio: u64 },
    Redo { envio: u64 },
}

/// The command line: a command, and whether to log in detail.
#[derive(Debug, PartialEq, Eq)]
pub struct Arguments {
    pub cmd: Commands,
    pub debug: bool,
}

/// The action that a command selects, with what the action needs.
#[derive(Debug, PartialEq, Eq)]
pub enum Acao {
    JogoLs,
    JogoNew { nome: String },
    JogoRm { id: u64 },
    JogoFrom { format: JogoFromFormat, path: String, nome: String },
    JogadoresLsWithJogo { jogo: u64 },
    JogadoresLsAll,
    JogadoresAdd { jogo: u64, nome: String, email: String },
    JogadoresInspect { id: u64 },
    JogadoresSet { id: u64, param: JogadoresSetParams },
    JogadoresRm { id: u64 },
    SorteioNew { jogo: u64 },
    SorteioRun { id: u64 },
    SorteiosLsByJogo { jogo: u64 },
    SorteioLs,
    SorteioInspect { id: u64 },
    EnvioInspect { envio: u64 },
    EnvioRedo { envio: u64 },
    EnvioLsWithSorteio { sorteio: u64 },
    EnvioLsAll,
}

/// How much the program logs.
#[derive(Debug, PartialEq, Eq, Clone, Copy, Structural)]
pub enum Nivel {
    Debug,
    Info,
}

/// The action of each command. A listing is of one group or draw where the
/// command names one, and of all otherwise.
pub open spec fn route(cmd: Commands) -> Acao {
    match cmd {
        Commands::Jogo { action } => match action {
            JogoAction::Ls => Acao::JogoLs,
            JogoAction::New { name } => Acao::JogoNew { nome: name },
            JogoAction::Rm { id } => Acao::JogoRm { id },
            JogoAction::From { format, path, nome } => Acao::JogoFrom { format, path, nome },
        },
        Commands::Jogadores { action } => match action {
            JogadoresAction::Ls { jogo: Some(jogo) } => Acao::JogadoresLsWithJogo { jogo },
            JogadoresAction::Ls { jogo: None } => Acao::JogadoresLsAll,
            JogadoresAction::Add { jogo, nome, email } => Acao::JogadoresAdd { jogo, nome, email },
            JogadoresAction::Inspect { jogador } => Acao::JogadoresInspect { id: jogador },
            JogadoresAction::SetParam { id, param } => Acao::JogadoresSet { id, param },
            JogadoresAction::Rm { jogador } => Acao::JogadoresRm { id: jogador },
        },
        Commands::Sorteio { action } => match action {
            SorteioAction::New { jogo } => Acao::SorteioNew { jogo },
            SorteioAction::Run { sorteio } => Acao::SorteioRun { id: sorteio },
            SorteioAction::Ls { jogo: Some(jogo) } => Acao::SorteiosLsByJogo { jogo },
            SorteioAction::Ls { jogo: None } => Acao::SorteioLs,
            SorteioAction::Inspect { sorteio } => Acao::SorteioInspect { id: sorteio },
        },
        Commands::Envio { action } => match action {
            EnvioAction::Inspect { envio } => Acao::EnvioInspect { envio },
            EnvioAction::Redo { envio } => Acao::EnvioRedo { envio },
            EnvioAction::Ls { sorteio: Some(sorteio) } => Acao::EnvioLsWithSorteio { sorteio },
            EnvioAction::Ls { sorteio: None } => Acao::EnvioLsAll,
        },
    }
}

/// The action that the command line selects.
pub fn exec_args(args: Arguments) -> (acao: Acao)
    ensures
        acao == route(args.cmd),
{
    match args.cmd {
        Commands::Jogo { action } => match action {
            JogoAction::Ls => Acao::JogoLs,
            JogoAction::New { name } => Acao::JogoNew { nome: name },
            JogoAction::Rm { id } => Acao::JogoRm { id },
            JogoAction::From { format, path, nome } => Acao::JogoFrom { format, path, nome },
        },
        Commands::Jogadores { action } => match action {
            JogadoresAction::Ls { jogo } => match jogo {
                Some(jogo) => Acao::JogadoresLsWithJogo { jogo },
                None => Acao::JogadoresLsAll,
            },
            JogadoresAction::Add { jogo, nome, email } => Acao::JogadoresAdd { jogo, nome, email },
            JogadoresAction::Inspect { jogador } => Acao::JogadoresInspect { id: jogador },
            JogadoresAction::SetParam { id, param } => Acao::JogadoresSet { id, param },
            JogadoresAction::Rm { jogador } => Acao::JogadoresRm { id: jogador },
        },
        Commands::Sorteio { action } => match action {
            SorteioAction::New { jogo } => Acao::SorteioNew { jogo },
            SorteioAction::Run { sorteio } => Acao::SorteioRun { id: sorteio },
            SorteioAction::Ls { jogo } => match jogo {
                Some(jogo) => Acao::SorteiosLsByJogo { jogo },
                None => Acao::SorteioLs,
            },
            SorteioAction::Inspect { sorteio } => Acao::SorteioInspect { id: sorteio },
        },
        Commands::Envio { action } => match action {
            EnvioAction::Inspect { envio } => Acao::EnvioInspect { envio },
            EnvioAction::Redo { envio } => Acao::EnvioRedo { envio },
            EnvioAction::Ls { sorteio } => match sorteio {
                Some(sorteio) => Acao::EnvioLsWithSorteio { sorteio },
                None => Acao::EnvioLsAll,
            },
        },
    }
}

impl Arguments {
    /// How much the program logs: in detail where `debug` is set.
    pub fn level(&self) -> (nivel: Nivel)
        ensures
            nivel == if self.debug {
                Nivel::Debug
            } else {
                Nivel::Info
            },
    {
        if self.debug {
            Nivel::Debug
        } else {
            Nivel::Info
        }
    }

    /// The logging directive for the migrations: they are logged in detail
    /// where `debug` is set, and not at all otherwise.
    pub fn directive(&self) -> (texto: &'static str)
        ensures
            texto@ == if self.debug {
                "refinery_core=debug"@
            } else {
                "refinery_core=off"@
            },
    {
        if self.debug {
            "refinery_core=debug"
        } else {
            "refinery_core=off"
        }
    }
}

} // verus!
