//! The life of a draw: it is created once, with a fresh seed and the
//! fingerprint of its roster, and may then be run any number of times.
//!
//! A run first deletes the records that earlier runs of the draw left, and
//! then makes one attempt and one record for each participant. A roster of
//! fewer than two participants is refused before anything is deleted or sent.
//! Whether the roster is still the one that the draw was created for can be
//! asked, and is not enforced.

use crate::db::envios::delete_envios_by_sorteio;
use crate::db::envios::ids_of;
use crate::db::envios::lemma_filter_drops_all;
use crate::db::envios::lemma_filter_keeps_all;
use crate::db::envios::not_of_sorteio;
use crate::db::envios::of_draw;
use crate::db::envios::of_other_draws;
use crate::db::envios::of_sorteio;
use crate::db::envios::Auditoria;
use crate::db::Envio;
use crate::db::Jogador;
use crate::db::Sorteio;
use crate::despacho::Despacho;
use crate::envio::assignments;
use crate::envio::dispatched;
use crate::envio::ids_from;
use crate::envio::reordered;
use crate::envio::run_and_email;
use crate::erro::Erro;
use crate::fingerprint::fingerprint;
use crate::fingerprint::hash_ids_canonical;
use crate::fingerprint::jogador_ids;
use crate::fingerprint::roster_ids;
use crate::rng::is_permutation;
use crate::rng::rng_from_entropy;
use crate::rng::sample_alphanumeric;
use crate::rng::seeded_order;
use crate::rng::seeded_report_order;
use vstd::prelude::*;

verus! {

/// The length of a seed, in characters.
pub const SEED_LEN: usize = 32;

/// Whether `c` is an ASCII letter or digit.
pub open spec fn is_seed_char(c: char) -> bool {
    ||| '0' <= c <= '9'
    ||| 'A' <= c <= 'Z'
    ||| 'a' <= c <= 'z'
}

/// Whether `seed` has the shape of a fresh seed: 32 ASCII letters and digits.
pub open spec fn is_seed(seed: Seq<char>) -> bool {
    &&& seed.len() == SEED_LEN
    &&& forall|i: int| 0 <= i < seed.len() ==> is_seed_char(#[trigger] seed[i])
}

/// A fresh seed: 32 characters, each an ASCII letter or digit, drawn from a
/// generator keyed by the operating system's entropy. Which characters is
/// not fixed by anything the caller can see.
pub fn create_seed() -> (seed: String)
    ensures
        is_seed(seed@),
{
    let mut rng = rng_from_entropy();
    let mut seed = String::new();
    let mut i: usize = 0;
    while i < SEED_LEN
        invariant
            i <= SEED_LEN,
            seed@.len() == i,
            forall|k: int| 0 <= k < i ==> is_seed_char(#[trigger] seed@[k]),
        decreases SEED_LEN - i,
    {
        let b = sample_alphanumeric(&mut rng);
        seed.push(b as char);
        i += 1;
    }
    seed
}

/// What a run leaves behind: the ids of the records that it deleted, and
/// those of the records that it made.
#[derive(Debug, PartialEq, Eq)]
pub struct Rodada {
    /// The ids of the records of earlier runs, oldest first.
    pub deletados: Vec<u64>,
    /// The ids of the new records, in an order that does not tell who gives
    /// to whom.
    pub envios: Vec<u64>,
}

/// A new draw for the group `jogo` over the roster `jogadores`, to be kept
/// under `id`: it has a fresh seed, the fingerprint of the roster's ids, and
/// the roster's size.
pub fn sorteio_new(id: u64, jogo: u64, jogadores: &Vec<Jogador>) -> (sorteio: Sorteio)
    ensures
        sorteio.id == id,
        sorteio.jogo == jogo,
        is_seed(sorteio.seed@),
        sorteio.jogadores_hash@ == fingerprint(roster_ids(jogadores@)),
        sorteio.jogadores_qtd == jogadores@.len(),
{
    let seed = create_seed();
    let ids = jogador_ids(jogadores);
    let jogadores_hash = hash_ids_canonical(&ids);
    Sorteio { id, seed, jogadores_hash, jogadores_qtd: jogadores.len() as u64, jogo }
}

/// Whether `jogadores` is the roster that `sorteio` was created for, as far as
/// the draw can tell: the same number of participants and the same
/// fingerprint.
pub open spec fn same_roster(sorteio: Sorteio, jogadores: Seq<Jogador>) -> bool {
    &&& sorteio.jogadores_qtd == jogadores.len()
    &&& sorteio.jogadores_hash@ == fingerprint(roster_ids(jogadores))
}

/// Whether the roster has changed since the draw was created: another number
/// of participants, or another fingerprint.
pub fn roster_diverged(sorteio: &Sorteio, jogadores: &Vec<Jogador>) -> (diverged: bool)
    ensures
        diverged == !same_roster(*sorteio, jogadores@),
{
    if sorteio.jogadores_qtd != jogadores.len() as u64 {
        return true;
    }
    let ids = jogador_ids(jogadores);
    let now = hash_ids_canonical(&ids);
    now != sorteio.jogadores_hash
}

/// Whether every record of `envios` is one of the draw `sorteio`.
#[verifier::opaque]
pub open spec fn all_of_sorteio(envios: Seq<Envio>, sorteio: u64) -> bool {
    forall|i: int| 0 <= i < envios.len() ==> (#[trigger] envios[i]).sorteio == sorteio
}

/// After a full redo the log holds, of the draw, the new records and no
/// others, and of every other draw what it held before: where the records of
/// `sorteio` are deleted from `before` and `novos`, all of that draw, are
/// appended, the records of `sorteio` are `novos`, and those of the other draws
/// are the ones that `before` had.
pub proof fn lemma_full_redo(before: Seq<Envio>, sorteio: u64, novos: Seq<Envio>)
    requires
        all_of_sorteio(novos, sorteio),
    ensures
        of_draw(of_other_draws(before, sorteio) + novos, sorteio) == novos,
        of_other_draws(of_other_draws(before, sorteio) + novos, sorteio) == of_other_draws(
            before,
            sorteio,
        ),
{
    reveal(all_of_sorteio);
    let others = before.filter(not_of_sorteio(sorteio));
    assert forall|i: int| 0 <= i < others.len() implies not_of_sorteio(sorteio)(
        #[trigger] others[i],
    ) by {
        before.lemma_filter_pred(not_of_sorteio(sorteio), i);
    }
    lemma_filter_drops_all(others, of_sorteio(sorteio));
    lemma_filter_keeps_all(others, not_of_sorteio(sorteio));
    lemma_filter_keeps_all(novos, of_sorteio(sorteio));
    lemma_filter_drops_all(novos, not_of_sorteio(sorteio));
    Seq::filter_distributes_over_add(others, novos, of_sorteio(sorteio));
    Seq::filter_distributes_over_add(others, novos, not_of_sorteio(sorteio));
    assert((others + novos).filter(of_sorteio(sorteio)) == novos);
    assert((others + novos).filter(not_of_sorteio(sorteio)) == others);
    reveal(of_draw);
    reveal(of_other_draws);
}

/// The records of a run of the draw `sorteio` over `jogadores`: one for each
/// participant, all of them records of that draw.
pub proof fn lemma_run_records(
    seed: Seq<char>,
    jogadores: Seq<Jogador>,
    sorteio: u64,
    first: u64,
    rs: Seq<Result<(), String>>,
)
    requires
        is_permutation(seeded_order(seed, jogadores.len()), jogadores.len()),
    ensures
        dispatched(assignments(seed, jogadores, sorteio), first, rs).len() == jogadores.len(),
        all_of_sorteio(dispatched(assignments(seed, jogadores, sorteio), first, rs), sorteio),
{
    reveal(all_of_sorteio);
}

/// What a run does to the records of its draw and of the others: where the
/// records of `sorteio` are deleted from `before` and those of a run are
/// appended, the log holds one record of the draw for each participant, the
/// new ones, and the records of the other draws as they were.
pub proof fn lemma_run_effect(
    before: Seq<Envio>,
    seed: Seq<char>,
    jogadores: Seq<Jogador>,
    sorteio: u64,
    first: u64,
    rs: Seq<Result<(), String>>,
    after: Seq<Envio>,
)
    requires
        is_permutation(seeded_order(seed, jogadores.len()), jogadores.len()),
        after == of_other_draws(before, sorteio) + dispatched(
            assignments(seed, jogadores, sorteio),
            first,
            rs,
        ),
    ensures
        of_draw(after, sorteio) == dispatched(assignments(seed, jogadores, sorteio), first, rs),
        of_draw(after, sorteio).len() == jogadores.len(),
        of_other_draws(after, sorteio) == of_other_draws(before, sorteio),
{
    lemma_run_records(seed, jogadores, sorteio, first, rs);
    lemma_full_redo(before, sorteio, dispatched(assignments(seed, jogadores, sorteio), first, rs));
}

/// Begins a run of a draw: the records that earlier runs of the draw left are
/// deleted, and the dispatch of the draw's assignments is handed over, with no
/// attempt made yet, beside the ids of the deleted records. Refused, with the
/// log left as it is, where the roster has fewer than two participants, or
/// the log has not an id for each participant.
pub fn sorteio_begin(sorteio: &Sorteio, jogadores: &Vec<Jogador>, log: &mut Auditoria) -> (r: Result<
    (Despacho, Vec<u64>),
    Erro,
>)
    requires
        old(log).wf(),
    ensures
        final(log).wf(),
        final(log).next_id() == old(log).next_id(),
        r is Ok <==> jogadores@.len() >= 2 && old(log).has_room(jogadores@.len()),
        r matches Ok((d, deletados)) ==> {
            &&& d.wf()
            &&& d.processos() == assignments(sorteio.seed@, jogadores@, sorteio.id)
            &&& d.processos().len() == jogadores@.len()
            &&& d.ids() == Seq::<u64>::empty()
            &&& d.report_order() == seeded_report_order(sorteio.seed@, jogadores@.len())
            &&& deletados@ == ids_of(of_draw(old(log)@, sorteio.id))
            &&& final(log)@ == of_other_draws(old(log)@, sorteio.id)
        },
        r matches Err(e) ==> {
            &&& e == if jogadores@.len() < 2 {
                Erro::JogadoresInsuficientes
            } else {
                Erro::RegistroCheio
            }
            &&& final(log)@ == old(log)@
        },
{
    if jogadores.len() < 2 {
        return Err(Erro::JogadoresInsuficientes);
    }
    if !log.room_for(jogadores.len()) {
        return Err(Erro::RegistroCheio);
    }
    let deletados = delete_envios_by_sorteio(log, sorteio.id);
    Ok((Despacho::new(sorteio, jogadores), deletados))
}

/// Runs a draw over a roster, the attempt `i` having had the outcome
/// `resultados[i]`. The records that earlier runs of the draw left are deleted;
/// then the roster is shuffled by the draw's seed and one record is appended
/// for each assignment, in the order of dispatch, whatever the outcomes. After
/// the run the log holds, of this draw, the new records and no others; the
/// records of other draws are as they were. Refused, with the log left as it
/// is, where the roster has fewer than two participants, the outcomes are not
/// one for each participant, or the log has not an id for each.
pub fn sorteio_run(
    sorteio: Sorteio,
    jogadores: Vec<Jogador>,
    resultados: Vec<Result<(), String>>,
    log: &mut Auditoria,
) -> (r: Result<Rodada, Erro>)
    requires
        old(log).wf(),
    ensures
        final(log).wf(),
        r is Ok <==> jogadores@.len() >= 2 && resultados@.len() == jogadores@.len() && old(
            log,
        ).has_room(jogadores@.len()),
        r matches Ok(rodada) ==> {
            &&& rodada.deletados@ == ids_of(of_draw(old(log)@, sorteio.id))
            &&& rodada.envios@ == reordered(
                ids_from(old(log).next_id(), jogadores@.len()),
                seeded_report_order(sorteio.seed@, jogadores@.len()),
            )
            &&& rodada.envios@.to_multiset() == ids_from(
                old(log).next_id(),
                jogadores@.len(),
            ).to_multiset()
            &&& final(log).next_id() == old(log).next_id() + jogadores@.len()
            &&& final(log)@ == of_other_draws(old(log)@, sorteio.id) + dispatched(
                assignments(sorteio.seed@, jogadores@, sorteio.id),
                old(log).next_id(),
                resultados@,
            )
            &&& of_draw(final(log)@, sorteio.id) == dispatched(
                assignments(sorteio.seed@, jogadores@, sorteio.id),
                old(log).next_id(),
                resultados@,
            )
            &&& of_draw(final(log)@, sorteio.id).len() == jogadores@.len()
            &&& of_other_draws(final(log)@, sorteio.id) == of_other_draws(
                old(log)@,
                sorteio.id,
            )
        },
        r matches Err(e) ==> {
            &&& e == if jogadores@.len() < 2 {
                Erro::JogadoresInsuficientes
            } else if resultados@.len() != jogadores@.len() {
                Erro::ResultadosDivergentes
            } else {
                Erro::RegistroCheio
            }
            &&& final(log)@ == old(log)@
            &&& final(log).next_id() == old(log).next_id()
        },
{
    let n = jogadores.len();
    if n < 2 {
        return Err(Erro::JogadoresInsuficientes);
    }
    if resultados.len() != n {
        return Err(Erro::ResultadosDivergentes);
    }
    if !log.room_for(n) {
        return Err(Erro::RegistroCheio);
    }
    let ghost before = log@;
    let ghost first = log.next_id();
    let ghost seed = sorteio.seed@;
    let ghost roster = jogadores@;
    let ghost id = sorteio.id;
    let ghost rs = resultados@;
    let deletados = delete_envios_by_sorteio(log, sorteio.id);
    match run_and_email(sorteio, jogadores, resultados, log) {
        Ok(envios) => {
            proof {
                lemma_run_effect(before, seed, roster, id, first, rs, log@);
            }
            Ok(Rodada { deletados, envios })
        },
        Err(e) => Err(e),
    }
}

} // verus!
