//! The records of a draw: groups, participants, draws and dispatch attempts.

use vstd::prelude::*;

pub mod envios;

verus! {

/// A group of participants.
#[derive(Debug, PartialEq, Eq)]
pub struct Jogo {
    pub id: u64,
    pub nome: String,
}

/// A participant of a group.
#[derive(Debug, PartialEq, Eq)]
pub struct Jogador {
    pub id: u64,
    pub nome: String,
    pub email: String,
    pub jogo: u64,
}

/// A draw over the roster of one group. The seed and the fingerprint are fixed
/// when the draw is created.
#[derive(Debug, PartialEq, Eq)]
pub struct Sorteio {
    pub id: u64,
    pub seed: String,
    pub jogadores_hash: String,
    pub jogadores_qtd: u64,
    pub jogo: u64,
}

/// One attempt to tell `destino` that they drew `sorteado`. A record is never
/// changed: a new attempt is a new record.
#[derive(Debug, PartialEq, Eq)]
pub struct Envio {
    pub id: u64,
    pub sorteio: u64,
    pub destino: u64,
    pub sorteado: u64,
    pub sucesso: bool,
    pub erro: Option<String>,
}

impl Clone for Jogo {
    fn clone(&self) -> (copia: Self)
        ensures
            copia == *self,
    {
        Jogo { id: self.id, nome: self.nome.clone() }
    }
}

impl Clone for Jogador {
    fn clone(&self) -> (copia: Self)
        ensures
            copia == *self,
    {
        Jogador { id: self.id, nome: self.nome.clone(), email: self.email.clone(), jogo: self.jogo }
    }
}

impl Clone for Sorteio {
    fn clone(&self) -> (copia: Self)
        ensures
            copia == *self,
    {
        Sorteio {
            id: self.id,
            seed: self.seed.clone(),
            jogadores_hash: self.jogadores_hash.clone(),
            jogadores_qtd: self.jogadores_qtd,
            jogo: self.jogo,
        }
    }
}

impl Clone for Envio {
    fn clone(&self) -> (copia: Self)
        ensures
            copia == *self,
    {
        let erro = match &self.erro {
            Some(texto) => Some(texto.clone()),
            None => None,
        };
        Envio {
            id: self.id,
            sorteio: self.sorteio,
            destino: self.destino,
            sorteado: self.sorteado,
            sucesso: self.sucesso,
            erro,
        }
    }
}

} // verus!
