//! A dispatch in progress, one attempt at a time.
//!
//! The library decides what to send and what to record; the caller sends. A
//! `Despacho` holds the assignments of a run in the order of dispatch. The
//! caller asks for the pending assignment, sends its mail, and hands back what
//! the transport said; that appends one record to the audit log and moves on
//! to the next assignment, whether the mail went out or not. When no
//! assignment is pending, the ids of the records are handed over, in an order
//! that does not tell who gives to whom.

use crate::db::envios::Auditoria;
use crate::db::Jogador;
use crate::db::Sorteio;
use crate::envio::assignments;
use crate::envio::lemma_reordered_same_items;
use crate::envio::pair_jogadores;
use crate::envio::pairs;
use crate::envio::record_of;
use crate::envio::reorder_ids;
use crate::envio::reorder_jogadores;
use crate::envio::reordered;
use crate::envio::ProcessoEnvio;
use crate::erro::Erro;
use crate::rng::is_permutation;
use crate::rng::seeded_order;
use crate::rng::seeded_report_order;
use crate::rng::shuffled_indices;
use vstd::prelude::*;

verus! {

/// The state of a dispatch: the assignments, the ids of the records made so
/// far, and the order in which the ids will be reported.
#[derive(Debug)]
pub struct Despacho {
    processos: Vec<ProcessoEnvio>,
    ids: Vec<u64>,
    relato: Vec<usize>,
}

impl Despacho {
    /// The assignments, in the order of dispatch.
    pub closed spec fn processos(&self) -> Seq<ProcessoEnvio> {
        self.processos@
    }

    /// The ids of the records made so far, in the order of dispatch: one for
    /// each attempt.
    pub closed spec fn ids(&self) -> Seq<u64> {
        self.ids@
    }

    /// The order in which the ids are reported when the dispatch is done.
    pub closed spec fn report_order(&self) -> Seq<usize> {
        self.relato@
    }

    /// The state's invariant: no more attempts than assignments, and a report
    /// order that rearranges one id for each assignment.
    pub open spec fn wf(&self) -> bool {
        &&& self.ids().len() <= self.processos().len()
        &&& is_permutation(self.report_order(), self.processos().len())
    }

    /// Whether every assignment has had its attempt.
    pub open spec fn done(&self) -> bool {
        self.ids().len() == self.processos().len()
    }

    /// The dispatch of a draw over a roster, before any attempt: the
    /// assignments are those that the draw's seed gives, and so is the order
    /// of the report.
    pub fn new(sorteio: &Sorteio, jogadores: &Vec<Jogador>) -> (d: Despacho)
        ensures
            d.wf(),
            d.processos() == assignments(sorteio.seed@, jogadores@, sorteio.id),
            d.processos().len() == jogadores@.len(),
            is_permutation(seeded_order(sorteio.seed@, jogadores@.len()), jogadores@.len()),
            d.ids() == Seq::<u64>::empty(),
            d.report_order() == seeded_report_order(sorteio.seed@, jogadores@.len()),
    {
        let orders = shuffled_indices(sorteio.seed.as_str(), jogadores.len());
        let ordem = match reorder_jogadores(jogadores, &orders.0) {
            Some(ordem) => ordem,
            None => Vec::new(),
        };
        let processos = pair_jogadores(&ordem, sorteio.id);
        Despacho { processos, ids: Vec::new(), relato: orders.1 }
    }

    /// The dispatch of a roster in the order given, before any attempt; the
    /// ids will be reported in the order `relato`.
    pub(crate) fn in_order(ordem: &Vec<Jogador>, sorteio: u64, relato: Vec<usize>) -> (d: Despacho)
        requires
            is_permutation(relato@, ordem@.len()),
        ensures
            d.wf(),
            d.processos() == pairs(ordem@, sorteio),
            d.ids() == Seq::<u64>::empty(),
            d.report_order() == relato@,
    {
        Despacho { processos: pair_jogadores(ordem, sorteio), ids: Vec::new(), relato }
    }

    /// The number of assignments.
    pub fn len(&self) -> (n: usize)
        ensures
            n == self.processos().len(),
    {
        self.processos.len()
    }

    /// The number of attempts made so far.
    pub fn feitos(&self) -> (n: usize)
        ensures
            n == self.ids().len(),
    {
        self.ids.len()
    }

    /// The assignment whose mail is to be sent next: the first one without an
    /// attempt. `None` when every assignment has had its attempt.
    pub fn pendente(&self) -> (p: Option<&ProcessoEnvio>)
        requires
            self.wf(),
        ensures
            match p {
                Some(p) => !self.done() && *p == self.processos()[self.ids().len() as int],
                None => self.done(),
            },
    {
        if self.ids.len() < self.processos.len() {
            Some(&self.processos[self.ids.len()])
        } else {
            None
        }
    }

    /// Takes what the transport said of the pending assignment's mail: one
    /// record is appended to the log, marked sent or failed, and the next
    /// assignment becomes the pending one. A failed mail is recorded like a
    /// sent one and stops nothing. Refused, with nothing changed, where no
    /// assignment is pending or the log has no id left.
    pub fn registrar(&mut self, resultado: Result<(), String>, log: &mut Auditoria) -> (id: Result<
        u64,
        Erro,
    >)
        requires
            old(self).wf(),
            old(log).wf(),
        ensures
            final(self).wf(),
            final(log).wf(),
            final(self).processos() == old(self).processos(),
            final(self).report_order() == old(self).report_order(),
            id is Ok <==> !old(self).done() && old(log).has_room(1),
            id matches Ok(i) ==> {
                &&& i == old(log).next_id()
                &&& final(log).next_id() == i + 1
                &&& final(log)@ == old(log)@.push(
                    record_of(old(self).processos()[old(self).ids().len() as int], i, resultado),
                )
                &&& final(self).ids() == old(self).ids().push(i)
            },
            id matches Err(e) ==> {
                &&& e == if old(self).done() {
                    Erro::NadaPendente
                } else {
                    Erro::RegistroCheio
                }
                &&& final(log)@ == old(log)@
                &&& final(log).next_id() == old(log).next_id()
                &&& final(self).ids() == old(self).ids()
            },
    {
        if self.ids.len() >= self.processos.len() {
            return Err(Erro::NadaPendente);
        }
        let processo = self.processos[self.ids.len()].clone();
        match processo.enviar(resultado, log) {
            Ok(id) => {
                self.ids.push(id);
                Ok(id)
            },
            Err(e) => Err(e),
        }
    }

    /// The ids of the records made, in the order of dispatch. Refused while an
    /// assignment is pending.
    pub fn ids_in_order(self) -> (ids: Result<Vec<u64>, Erro>)
        requires
            self.wf(),
        ensures
            ids is Ok <==> self.done(),
            ids matches Ok(v) ==> v@ == self.ids(),
            ids matches Err(e) ==> e == Erro::EnviosPendentes,
    {
        if self.ids.len() < self.processos.len() {
            return Err(Erro::EnviosPendentes);
        }
        Ok(self.ids)
    }

    /// The ids of the records made, rearranged by the report order, so that
    /// their order does not follow that of the assignments. Refused while an
    /// assignment is pending.
    pub fn concluir(self) -> (ids: Result<Vec<u64>, Erro>)
        requires
            self.wf(),
        ensures
            ids is Ok <==> self.done(),
            ids matches Ok(v) ==> {
                &&& v@ == reordered(self.ids(), self.report_order())
                &&& v@.to_multiset() == self.ids().to_multiset()
            },
            ids matches Err(e) ==> e == Erro::EnviosPendentes,
    {
        if self.ids.len() < self.processos.len() {
            return Err(Erro::EnviosPendentes);
        }
        proof {
            lemma_reordered_same_items(self.ids(), self.report_order());
        }
        match reorder_ids(&self.ids, &self.relato) {
            Some(ids) => Ok(ids),
            None => Err(Erro::EnviosPendentes),
        }
    }
}

} // verus!
