//! Who gives to whom, and the dispatch of the notices.
//!
//! A run shuffles the roster by the draw's seed and pairs each participant
//! with the one that follows in the shuffled order, the last with the first.
//! Each pair is then told by mail; every attempt leaves one record in the
//! audit log, whether the mail went out or not.

use crate::config::Config;
use crate::db::envios::Auditoria;
use crate::db::Envio;
use crate::db::Jogador;
use crate::db::Sorteio;
use crate::despacho::Despacho;
use crate::erro::Erro;
use crate::rng::is_permutation;
use crate::rng::lemma_permutation_onto;
use crate::rng::seeded_order;
use crate::rng::seeded_report_order;
use crate::rng::shuffled_indices;
use vstd::prelude::*;
use vstd::seq_lib::to_multiset_build;
use vstd::seq_lib::to_multiset_contains;
use vstd::seq_lib::to_multiset_remove;
use vstd::string::StringExecFns;

verus! {

/// One assignment: `destino` is told that they give to `sorteado`.
#[derive(Debug, PartialEq, Eq)]
pub struct ProcessoEnvio {
    pub destino: Jogador,
    pub sorteado: Jogador,
    pub sorteio: u64,
}

impl Clone for ProcessoEnvio {
    fn clone(&self) -> (copia: Self)
        ensures
            copia == *self,
    {
        ProcessoEnvio {
            destino: self.destino.clone(),
            sorteado: self.sorteado.clone(),
            sorteio: self.sorteio,
        }
    }
}

/// `s` rearranged: position `i` holds the item that stood at `order[i]`.
pub open spec fn reordered<T>(s: Seq<T>, order: Seq<usize>) -> Seq<T> {
    Seq::new(order.len(), |i: int| s[order[i] as int])
}

/// Rearranging by a permutation keeps what a sequence holds: every item is
/// there as often as before, only the order may differ.
pub proof fn lemma_reordered_same_items<T>(s: Seq<T>, order: Seq<usize>)
    requires
        is_permutation(order, s.len()),
    ensures
        reordered(s, order).len() == s.len(),
        reordered(s, order).to_multiset() == s.to_multiset(),
    decreases s.len(),
{
    let n = s.len() as int;
    let r = reordered(s, order);
    if n == 0 {
        assert(r == s);
    } else {
        let k = order[n - 1] as int;
        let rest = s.remove(k);
        let shifted = Seq::new(
            (n - 1) as nat,
            |i: int|
                if order[i] > k {
                    (order[i] - 1) as usize
                } else {
                    order[i]
                },
        );
        assert forall|i: int| 0 <= i < n - 1 implies (#[trigger] shifted[i]) < n - 1 by {
            assert(order[i] != order[n - 1]);
        }
        assert forall|i: int, j: int| 0 <= i < j < n - 1 implies shifted[i] != shifted[j] by {
            assert(order[i] != order[j]);
            assert(order[i] != order[n - 1]);
            assert(order[j] != order[n - 1]);
        }
        lemma_reordered_same_items(rest, shifted);
        assert(r.drop_last() == reordered(rest, shifted)) by {
            assert forall|i: int| 0 <= i < n - 1 implies r[i] == reordered(rest, shifted)[i] by {
                assert(order[i] != order[n - 1]);
            }
        }
        assert(r == r.drop_last().push(s[k]));
        to_multiset_build(r.drop_last(), s[k]);
        to_multiset_remove(s, k);
        to_multiset_contains(s, s[k]);
        assert(s.to_multiset().remove(s[k]).insert(s[k]) == s.to_multiset());
    }
}

/// The position after `i` in a cycle of `n` positions: `i + 1` modulo `n`.
pub open spec fn successor(i: int, n: int) -> int {
    if i + 1 < n {
        i + 1
    } else {
        0
    }
}

/// The assignments over a roster in a given order: each participant gives to
/// the next one, and the last gives to the first.
pub open spec fn pairs(ordem: Seq<Jogador>, sorteio: u64) -> Seq<ProcessoEnvio> {
    Seq::new(
        ordem.len(),
        |i: int|
            ProcessoEnvio {
                destino: ordem[i],
                sorteado: ordem[successor(i, ordem.len() as int)],
                sorteio,
            },
    )
}

/// The assignments of a draw: the roster is shuffled by the seed, then paired.
pub open spec fn assignments(seed: Seq<char>, jogadores: Seq<Jogador>, sorteio: u64) -> Seq<
    ProcessoEnvio,
> {
    pairs(reordered(jogadores, seeded_order(seed, jogadores.len())), sorteio)
}

/// Whether no two participants of the roster share an id.
pub open spec fn distinct_ids(jogadores: Seq<Jogador>) -> bool {
    forall|i: int, j: int| 0 <= i < j < jogadores.len() ==> jogadores[i].id != jogadores[j].id
}

/// Whether every index in `order` is below `n`.
pub open spec fn within(order: Seq<usize>, n: nat) -> bool {
    forall|i: int| 0 <= i < order.len() ==> (#[trigger] order[i]) < n
}

/// Whether `jogador` is the giver of one of the assignments `ps`.
pub open spec fn gives(ps: Seq<ProcessoEnvio>, jogador: Jogador) -> bool {
    exists|i: int| 0 <= i < ps.len() && (#[trigger] ps[i]).destino == jogador
}

/// Whether `jogador` is the recipient of one of the assignments `ps`.
pub open spec fn receives(ps: Seq<ProcessoEnvio>, jogador: Jogador) -> bool {
    exists|i: int| 0 <= i < ps.len() && (#[trigger] ps[i]).sorteado == jogador
}

/// Whether the assignments `ps` are a bijection on `jogadores` without a fixed
/// point: every participant gives exactly once and receives exactly once, and
/// nobody gives to themself.
pub open spec fn is_derangement(ps: Seq<ProcessoEnvio>, jogadores: Seq<Jogador>) -> bool {
    &&& ps.len() == jogadores.len()
    &&& forall|j: int| 0 <= j < jogadores.len() ==> gives(ps, #[trigger] jogadores[j])
    &&& forall|j: int| 0 <= j < jogadores.len() ==> receives(ps, #[trigger] jogadores[j])
    &&& forall|i: int, k: int| 0 <= i < k < ps.len() ==> ps[i].destino.id != ps[k].destino.id
    &&& forall|i: int, k: int| 0 <= i < k < ps.len() ==> ps[i].sorteado.id != ps[k].sorteado.id
    &&& forall|i: int| 0 <= i < ps.len() ==> (#[trigger] ps[i]).destino.id != ps[i].sorteado.id
}

/// For a roster of two or more participants with distinct ids, pairing any
/// permutation of the roster gives a bijection without a fixed point: each
/// participant is the giver of exactly one assignment and the recipient of
/// exactly one, and no giver is their own recipient.
pub proof fn lemma_pairs_bijective(jogadores: Seq<Jogador>, order: Seq<usize>, sorteio: u64)
    requires
        jogadores.len() >= 2,
        distinct_ids(jogadores),
        is_permutation(order, jogadores.len()),
    ensures
        is_derangement(pairs(reordered(jogadores, order), sorteio), jogadores),
{
    let n = jogadores.len() as int;
    let ordem = reordered(jogadores, order);
    let ps = pairs(ordem, sorteio);
    assert forall|j: int| 0 <= j < n implies gives(ps, #[trigger] jogadores[j]) by {
        lemma_permutation_onto(order, n as nat, j);
        let i = choose|i: int| 0 <= i < n && #[trigger] order[i] == j;
        assert(ps[i].destino == jogadores[j]);
    }
    assert forall|j: int| 0 <= j < n implies receives(ps, #[trigger] jogadores[j]) by {
        lemma_permutation_onto(order, n as nat, j);
        let i = choose|i: int| 0 <= i < n && #[trigger] order[i] == j;
        let before = if i == 0 {
            n - 1
        } else {
            i - 1
        };
        assert(ps[before].sorteado == jogadores[j]);
    }
    assert forall|i: int, k: int| 0 <= i < k < ps.len() implies ps[i].destino.id
        != ps[k].destino.id by {
        lemma_distinct_at(jogadores, order[i] as int, order[k] as int);
    }
    assert forall|i: int, k: int| 0 <= i < k < ps.len() implies ps[i].sorteado.id
        != ps[k].sorteado.id by {
        let a = successor(i, n);
        let b = successor(k, n);
        lemma_distinct_at(jogadores, order[a] as int, order[b] as int);
    }
    assert forall|i: int| 0 <= i < ps.len() implies (#[trigger] ps[i]).destino.id
        != ps[i].sorteado.id by {
        let a = successor(i, n);
        lemma_distinct_at(jogadores, order[i] as int, order[a] as int);
    }
}

/// The successor of a position in a cycle of `n` is the next position modulo
/// `n`.
pub proof fn lemma_successor_mod(i: int, n: int)
    requires
        0 <= i < n,
    ensures
        successor(i, n) == (i + 1) % n,
{
    if i + 1 == n {
        assert(n % n == 0) by (nonlinear_arith)
            requires
                n > 0,
        ;
    } else {
        assert((i + 1) % n == i + 1) by (nonlinear_arith)
            requires
                0 <= i + 1 < n,
        ;
    }
}

proof fn lemma_distinct_at(jogadores: Seq<Jogador>, a: int, b: int)
    requires
        distinct_ids(jogadores),
        0 <= a < jogadores.len(),
        0 <= b < jogadores.len(),
        a != b,
    ensures
        jogadores[a].id != jogadores[b].id,
{
    if a < b {
    } else {
        assert(jogadores[b].id != jogadores[a].id);
    }
}

/// The assignments are fixed by the seed, the roster in its order, and the
/// draw: the same three give the same assignments.
pub proof fn lemma_assignments_deterministic(
    seed_a: Seq<char>,
    jogadores_a: Seq<Jogador>,
    sorteio_a: u64,
    seed_b: Seq<char>,
    jogadores_b: Seq<Jogador>,
    sorteio_b: u64,
)
    requires
        seed_a == seed_b,
        jogadores_a == jogadores_b,
        sorteio_a == sorteio_b,
    ensures
        assignments(seed_a, jogadores_a, sorteio_a) == assignments(
            seed_b,
            jogadores_b,
            sorteio_b,
        ),
{
}

/// The roster rearranged by `order`: position `i` gets the participant at
/// `order[i]`. `None` where an index of `order` is not one of the roster.
pub fn reorder_jogadores(jogadores: &Vec<Jogador>, order: &Vec<usize>) -> (ordem: Option<
    Vec<Jogador>,
>)
    ensures
        ordem is Some <==> within(order@, jogadores@.len()),
        ordem matches Some(o) ==> o@ == reordered(jogadores@, order@),
{
    let mut ordem: Vec<Jogador> = Vec::new();
    let mut i: usize = 0;
    while i < order.len()
        invariant
            i <= order.len(),
            ordem@.len() == i,
            forall|k: int| 0 <= k < i ==> (#[trigger] order@[k]) < jogadores@.len(),
            forall|k: int| 0 <= k < i ==> ordem@[k] == jogadores@[order@[k] as int],
        decreases order.len() - i,
    {
        if order[i] >= jogadores.len() {
            return None;
        }
        ordem.push(jogadores[order[i]].clone());
        i += 1;
    }
    assert(ordem@ == reordered(jogadores@, order@));
    Some(ordem)
}

/// The ids rearranged by `order`: position `i` gets the id at `order[i]`.
/// `None` where an index of `order` is not one of `ids`.
pub fn reorder_ids(ids: &Vec<u64>, order: &Vec<usize>) -> (ordem: Option<Vec<u64>>)
    ensures
        ordem is Some <==> within(order@, ids@.len()),
        ordem matches Some(o) ==> o@ == reordered(ids@, order@),
{
    let mut ordem: Vec<u64> = Vec::new();
    let mut i: usize = 0;
    while i < order.len()
        invariant
            i <= order.len(),
            ordem@.len() == i,
            forall|k: int| 0 <= k < i ==> (#[trigger] order@[k]) < ids@.len(),
            forall|k: int| 0 <= k < i ==> ordem@[k] == ids@[order@[k] as int],
        decreases order.len() - i,
    {
        if order[i] >= ids.len() {
            return None;
        }
        ordem.push(ids[order[i]]);
        i += 1;
    }
    assert(ordem@ == reordered(ids@, order@));
    Some(ordem)
}

/// The roster shuffled by `seed`: a rearrangement of the roster that the seed
/// and the roster's length fix.
pub fn shuffle_jogadores(seed: &str, jogadores: &Vec<Jogador>) -> (ordem: Vec<Jogador>)
    ensures
        ordem@ == reordered(jogadores@, seeded_order(seed@, jogadores@.len())),
        is_permutation(seeded_order(seed@, jogadores@.len()), jogadores@.len()),
        ordem@.to_multiset() == jogadores@.to_multiset(),
{
    let orders = shuffled_indices(seed, jogadores.len());
    proof {
        lemma_reordered_same_items(jogadores@, orders.0@);
    }
    match reorder_jogadores(jogadores, &orders.0) {
        Some(ordem) => ordem,
        None => Vec::new(),
    }
}

/// Pairs each participant of `ordem` with the next one, the last with the
/// first.
pub fn pair_jogadores(ordem: &Vec<Jogador>, sorteio: u64) -> (processos: Vec<ProcessoEnvio>)
    ensures
        processos@ == pairs(ordem@, sorteio),
{
    let n = ordem.len();
    let mut processos: Vec<ProcessoEnvio> = Vec::new();
    let mut i: usize = 0;
    while i < n
        invariant
            n == ordem@.len(),
            i <= n,
            processos@.len() == i,
            forall|k: int| 0 <= k < i ==> processos@[k] == pairs(ordem@, sorteio)[k],
        decreases n - i,
    {
        let next = if i == n - 1 {
            0
        } else {
            i + 1
        };
        processos.push(
            ProcessoEnvio { destino: ordem[i].clone(), sorteado: ordem[next].clone(), sorteio },
        );
        i += 1;
    }
    assert(processos@ == pairs(ordem@, sorteio));
    processos
}

/// The assignments of a draw over a roster: the roster shuffled by the draw's
/// seed, each participant giving to the next and the last to the first. With
/// two or more participants of distinct ids, everybody gives once and receives
/// once, and nobody gives to themself.
pub fn sortear(sorteio: &Sorteio, jogadores: &Vec<Jogador>) -> (processos: Vec<ProcessoEnvio>)
    ensures
        processos@ == assignments(sorteio.seed@, jogadores@, sorteio.id),
        processos@.len() == jogadores@.len(),
        jogadores@.len() >= 2 && distinct_ids(jogadores@) ==> is_derangement(
            processos@,
            jogadores@,
        ),
{
    let ordem = shuffle_jogadores(sorteio.seed.as_str(), jogadores);
    proof {
        if jogadores@.len() >= 2 && distinct_ids(jogadores@) {
            lemma_pairs_bijective(
                jogadores@,
                seeded_order(sorteio.seed@, jogadores@.len()),
                sorteio.id,
            );
        }
    }
    pair_jogadores(&ordem, sorteio.id)
}

/// A mail to be sent: who it is from, who it is for, and what it says.
#[derive(Debug, PartialEq, Eq)]
pub struct Mensagem {
    pub de: String,
    pub para: String,
    pub assunto: String,
    pub corpo: String,
}

/// The record of one attempt: the pair of the assignment, whether the mail
/// went out, and the transport's complaint where it did not.
pub open spec fn record_of(p: ProcessoEnvio, id: u64, resultado: Result<(), String>) -> Envio {
    Envio {
        id,
        sorteio: p.sorteio,
        destino: p.destino.id,
        sorteado: p.sorteado.id,
        sucesso: resultado is Ok,
        erro: match resultado {
            Ok(_) => None,
            Err(e) => Some(e),
        },
    }
}

/// The ids that a log hands out to `n` records in a row, from `first` on.
pub open spec fn ids_from(first: u64, n: nat) -> Seq<u64> {
    Seq::new(n, |i: int| (first + i) as u64)
}

/// The records of one attempt for each assignment of `ps`, in their order,
/// with the outcome `rs[i]` for the assignment `ps[i]`.
pub open spec fn dispatched(ps: Seq<ProcessoEnvio>, first: u64, rs: Seq<Result<(), String>>) -> Seq<
    Envio,
> {
    Seq::new(ps.len(), |i: int| record_of(ps[i], (first + i) as u64, rs[i]))
}

/// A failed mail fails nothing else: where the transport fails on the
/// assignment `k` alone, there is still one record for each assignment, that
/// of `k` is marked failed and holds the transport's complaint, and every
/// other one is marked sent.
pub proof fn lemma_continue_on_error(
    ps: Seq<ProcessoEnvio>,
    first: u64,
    rs: Seq<Result<(), String>>,
    k: int,
)
    requires
        rs.len() == ps.len(),
        0 <= k < ps.len(),
        rs[k] is Err,
        forall|i: int| 0 <= i < rs.len() && i != k ==> (#[trigger] rs[i]) is Ok,
    ensures
        dispatched(ps, first, rs).len() == ps.len(),
        !dispatched(ps, first, rs)[k].sucesso,
        dispatched(ps, first, rs)[k].erro == Some(rs[k]->Err_0),
        forall|i: int|
            0 <= i < ps.len() && i != k ==> (#[trigger] dispatched(ps, first, rs)[i]).sucesso,
        forall|i: int|
            0 <= i < ps.len() ==> (#[trigger] dispatched(ps, first, rs)[i]).destino
                == ps[i].destino.id && dispatched(ps, first, rs)[i].sorteado == ps[i].sorteado.id,
{
}

/// The body of the mail: it names the participant drawn.
pub fn format_message(processo: &ProcessoEnvio) -> (corpo: String)
    ensures
        corpo@ == "Seu amigo secreto foi sorteado! \u{c9} "@ + processo.sorteado.nome@,
{
    let mut corpo = String::from_str("Seu amigo secreto foi sorteado! \u{c9} ");
    corpo.append(processo.sorteado.nome.as_str());
    corpo
}

fn copy_resultado(resultado: &Result<(), String>) -> (copia: Result<(), String>)
    ensures
        copia == *resultado,
{
    match resultado {
        Ok(feito) => Ok(*feito),
        Err(e) => Err(e.clone()),
    }
}

/// Records that the mail of `processo` went out. The new record is the last
/// of the log; its id is returned. Refused, and the log left as it is, where
/// the log has no id left.
pub fn register_success(processo: &ProcessoEnvio, log: &mut Auditoria) -> (id: Result<u64, Erro>)
    requires
        old(log).wf(),
    ensures
        final(log).wf(),
        id is Ok <==> old(log).has_room(1),
        id matches Ok(i) ==> {
            &&& i == old(log).next_id()
            &&& final(log).next_id() == i + 1
            &&& final(log)@ == old(log)@.push(record_of(*processo, i, Ok(())))
        },
        id matches Err(e) ==> {
            &&& e == Erro::RegistroCheio
            &&& final(log)@ == old(log)@
            &&& final(log).next_id() == old(log).next_id()
        },
{
    if !log.room_for(1) {
        return Err(Erro::RegistroCheio);
    }
    Ok(log.append(processo.sorteio, processo.destino.id, processo.sorteado.id, true, None))
}

/// Records that the mail of `processo` did not go out, with the transport's
/// complaint. The new record is the last of the log; its id is returned.
/// Refused, and the log left as it is, where the log has no id left.
pub fn register_error(processo: &ProcessoEnvio, log: &mut Auditoria, error: String) -> (id: Result<
    u64,
    Erro,
>)
    requires
        old(log).wf(),
    ensures
        final(log).wf(),
        id is Ok <==> old(log).has_room(1),
        id matches Ok(i) ==> {
            &&& i == old(log).next_id()
            &&& final(log).next_id() == i + 1
            &&& final(log)@ == old(log)@.push(record_of(*processo, i, Err(error)))
        },
        id matches Err(e) ==> {
            &&& e == Erro::RegistroCheio
            &&& final(log)@ == old(log)@
            &&& final(log).next_id() == old(log).next_id()
        },
{
    if !log.room_for(1) {
        return Err(Erro::RegistroCheio);
    }
    Ok(log.append(processo.sorteio, processo.destino.id, processo.sorteado.id, false, Some(error)))
}

impl ProcessoEnvio {
    /// The mail that tells `destino` whom they drew: from the configured
    /// sender, to the giver by name and address, with the configured subject.
    pub fn mensagem(&self, ctx: &Config) -> (m: Mensagem)
        ensures
            m.de@ == ctx.smtp_sender@,
            m.para@ == self.destino.nome@ + " <"@ + self.destino.email@ + ">"@,
            m.assunto@ == ctx.subject@,
            m.corpo@ == "Seu amigo secreto foi sorteado! \u{c9} "@ + self.sorteado.nome@,
    {
        let mut para = self.destino.nome.clone();
        para.append(" <");
        para.append(self.destino.email.as_str());
        para.append(">");
        Mensagem {
            de: ctx.smtp_sender.clone(),
            para,
            assunto: ctx.subject.clone(),
            corpo: format_message(self),
        }
    }

    /// Records the outcome of the attempt to send this assignment's mail: one
    /// new record, the last of the log, marked sent or failed as the transport
    /// said, and nothing else changed. Refused where the log has no id left.
    pub fn enviar(self, resultado: Result<(), String>, log: &mut Auditoria) -> (id: Result<
        u64,
        Erro,
    >)
        requires
            old(log).wf(),
        ensures
            final(log).wf(),
            id is Ok <==> old(log).has_room(1),
            id matches Ok(i) ==> {
                &&& i == old(log).next_id()
                &&& final(log).next_id() == i + 1
                &&& final(log)@ == old(log)@.push(record_of(self, i, resultado))
            },
            id matches Err(e) ==> {
                &&& e == Erro::RegistroCheio
                &&& final(log)@ == old(log)@
                &&& final(log).next_id() == old(log).next_id()
            },
    {
        match resultado {
            Ok(_) => register_success(&self, log),
            Err(x) => register_error(&self, log, x),
        }
    }
}

/// The order that leaves `n` items where they are.
fn identity_order(n: usize) -> (order: Vec<usize>)
    ensures
        order@ == Seq::new(n as nat, |i: int| i as usize),
        is_permutation(order@, n as nat),
{
    let mut order: Vec<usize> = Vec::new();
    let mut i: usize = 0;
    while i < n
        invariant
            i <= n,
            order@ == Seq::new(i as nat, |k: int| k as usize),
        decreases n - i,
    {
        order.push(i);
        assert(order@ == Seq::new((i + 1) as nat, |k: int| k as usize));
        i += 1;
    }
    order
}

/// Steps a fresh dispatch through all its assignments, with `resultados[i]`
/// as the outcome of the attempt `i`.
fn run_all(d: &mut Despacho, resultados: &Vec<Result<(), String>>, log: &mut Auditoria)
    requires
        old(d).wf(),
        old(d).ids().len() == 0,
        resultados@.len() == old(d).processos().len(),
        old(log).wf(),
        old(log).has_room(resultados@.len()),
    ensures
        final(d).wf(),
        final(d).done(),
        final(d).processos() == old(d).processos(),
        final(d).report_order() == old(d).report_order(),
        final(d).ids() == ids_from(old(log).next_id(), resultados@.len()),
        final(log).wf(),
        final(log).next_id() == old(log).next_id() + resultados@.len(),
        final(log)@ == old(log)@ + dispatched(
            old(d).processos(),
            old(log).next_id(),
            resultados@,
        ),
{
    let ghost before = log@;
    let ghost first = log.next_id();
    let ghost ps = d.processos();
    let ghost relato = d.report_order();
    let n = resultados.len();
    let mut i: usize = 0;
    assert(d.ids() == ids_from(first, 0));
    assert(log@ == before + dispatched(ps, first, resultados@).take(0));
    while i < n
        invariant
            i <= n,
            n == resultados@.len(),
            n == ps.len(),
            d.wf(),
            d.processos() == ps,
            d.report_order() == relato,
            d.ids() == ids_from(first, i as nat),
            log.wf(),
            first + n <= u64::MAX,
            log.next_id() == first + i,
            log@ == before + dispatched(ps, first, resultados@).take(i as int),
        decreases n - i,
    {
        let resultado = copy_resultado(&resultados[i]);
        let feito = d.registrar(resultado, log);
        assert(feito is Ok);
        assert(d.ids() == ids_from(first, (i + 1) as nat));
        assert(log@ == before + dispatched(ps, first, resultados@).take(i + 1));
        i += 1;
    }
    assert(dispatched(ps, first, resultados@).take(n as int) == dispatched(ps, first, resultados@));
}

/// Dispatches a roster in the order given: each participant gives to the next
/// one, the last to the first, and the attempt `i` had the outcome
/// `resultados[i]`. One record is appended for each assignment, in the order of
/// the roster, whatever the outcomes; the ids of the records are returned in
/// that order. Refused, with the log left as it is, where the outcomes are
/// not one for each participant, or the log has not an id for each.
pub fn iter_and_send(
    jogadores: Vec<Jogador>,
    sorteio: Sorteio,
    resultados: Vec<Result<(), String>>,
    log: &mut Auditoria,
) -> (ids: Result<Vec<u64>, Erro>)
    requires
        old(log).wf(),
    ensures
        final(log).wf(),
        ids is Ok <==> resultados@.len() == jogadores@.len() && old(log).has_room(
            jogadores@.len(),
        ),
        ids matches Ok(v) ==> {
            &&& v@ == ids_from(old(log).next_id(), jogadores@.len())
            &&& final(log).next_id() == old(log).next_id() + jogadores@.len()
            &&& final(log)@ == old(log)@ + dispatched(
                pairs(jogadores@, sorteio.id),
                old(log).next_id(),
                resultados@,
            )
        },
        ids matches Err(e) ==> {
            &&& e == if resultados@.len() != jogadores@.len() {
                Erro::ResultadosDivergentes
            } else {
                Erro::RegistroCheio
            }
            &&& final(log)@ == old(log)@
            &&& final(log).next_id() == old(log).next_id()
        },
{
    let n = jogadores.len();
    if resultados.len() != n {
        return Err(Erro::ResultadosDivergentes);
    }
    if !log.room_for(n) {
        return Err(Erro::RegistroCheio);
    }
    let mut d = Despacho::in_order(&jogadores, sorteio.id, identity_order(n));
    run_all(&mut d, &resultados, log);
    d.ids_in_order()
}

/// Runs a draw over a roster: the roster is shuffled by the draw's seed and
/// dispatched in that order, the attempt `i` having had the outcome
/// `resultados[i]`. One record is appended for each assignment, in the order of
/// dispatch, whatever the outcomes. The ids of the records are returned
/// shuffled once more, so that their order does not tell who gives to whom:
/// every id made is among them, once. Refused, with the log left as it is,
/// where the outcomes are not one for each participant, or the log has not an
/// id for each.
pub fn run_and_email(
    sorteio: Sorteio,
    jogadores: Vec<Jogador>,
    resultados: Vec<Result<(), String>>,
    log: &mut Auditoria,
) -> (ids: Result<Vec<u64>, Erro>)
    requires
        old(log).wf(),
    ensures
        final(log).wf(),
        ids is Ok <==> resultados@.len() == jogadores@.len() && old(log).has_room(
            jogadores@.len(),
        ),
        ids matches Ok(v) ==> {
            &&& v@ == reordered(
                ids_from(old(log).next_id(), jogadores@.len()),
                seeded_report_order(sorteio.seed@, jogadores@.len()),
            )
            &&& is_permutation(
                seeded_report_order(sorteio.seed@, jogadores@.len()),
                jogadores@.len(),
            )
            &&& is_permutation(seeded_order(sorteio.seed@, jogadores@.len()), jogadores@.len())
            &&& v@.to_multiset() == ids_from(old(log).next_id(), jogadores@.len()).to_multiset()
            &&& final(log).next_id() == old(log).next_id() + jogadores@.len()
            &&& final(log)@ == old(log)@ + dispatched(
                assignments(sorteio.seed@, jogadores@, sorteio.id),
                old(log).next_id(),
                resultados@,
            )
        },
        ids matches Err(e) ==> {
            &&& e == if resultados@.len() != jogadores@.len() {
                Erro::ResultadosDivergentes
            } else {
                Erro::RegistroCheio
            }
            &&& final(log)@ == old(log)@
            &&& final(log).next_id() == old(log).next_id()
        },
{
    let n = jogadores.len();
    if resultados.len() != n {
        return Err(Erro::ResultadosDivergentes);
    }
    if !log.room_for(n) {
        return Err(Erro::RegistroCheio);
    }
    let mut d = Despacho::new(&sorteio, &jogadores);
    run_all(&mut d, &resultados, log);
    d.concluir()
}

} // verus!
