//! The redo of one dispatch: a new attempt for the pair of an earlier record.
//!
//! The earlier record stays as it is. The new attempt gets a record of its
//! own, the last of the log.

use crate::db::envios::get_envio_by_id;
use crate::db::envios::has_id;
use crate::db::envios::increasing_below;
use crate::db::envios::Auditoria;
use crate::db::Envio;
use crate::db::Jogador;
use crate::envio::record_of;
use crate::envio::ProcessoEnvio;
use crate::erro::Erro;
use vstd::prelude::*;

verus! {

/// The place in `envios` of the record with id `id`.
pub open spec fn position_of(envios: Seq<Envio>, id: u64) -> int {
    choose|i: int| 0 <= i < envios.len() && (#[trigger] envios[i]).id == id
}

/// The record of `envios` with id `id`.
pub open spec fn record_with_id(envios: Seq<Envio>, id: u64) -> Envio {
    envios[position_of(envios, id)]
}

/// In a log no two records share an id: a record with id `id` is the record
/// with that id.
pub proof fn lemma_record_with_id(envios: Seq<Envio>, next: u64, i: int)
    requires
        increasing_below(envios, next),
        0 <= i < envios.len(),
    ensures
        record_with_id(envios, envios[i].id) == envios[i],
{
    let j = position_of(envios, envios[i].id);
    if j < i {
        assert(envios[j].id < envios[i].id);
    } else if i < j {
        assert(envios[i].id < envios[j].id);
    }
}

/// Whether `destino` and `sorteado` are the giver and the recipient of the
/// record `envio`.
pub open spec fn same_pair(envio: Envio, destino: Jogador, sorteado: Jogador) -> bool {
    envio.destino == destino.id && envio.sorteado == sorteado.id
}

/// Redoes the dispatch of the record `envio`, for which `destino` and
/// `sorteado` are the participants of its pair and `resultado` is what the
/// transport said of the new attempt. The log gets one new record, its last,
/// for the same draw and pair, marked sent or failed as the transport said;
/// the new record is returned. Every earlier record, that of `envio` among
/// them, stays in its place as it was. Refused, with the log left as it is,
/// where the log holds no record with that id, the participants are not those
/// of the record, or the log has no id left.
pub fn envio_redo(
    log: &mut Auditoria,
    envio: u64,
    destino: Jogador,
    sorteado: Jogador,
    resultado: Result<(), String>,
) -> (novo: Result<Envio, Erro>)
    requires
        old(log).wf(),
    ensures
        final(log).wf(),
        novo is Ok <==> has_id(old(log)@, envio) && same_pair(
            record_with_id(old(log)@, envio),
            destino,
            sorteado,
        ) && old(log).has_room(1),
        novo matches Ok(n) ==> {
            &&& n == record_of(
                ProcessoEnvio {
                    destino,
                    sorteado,
                    sorteio: record_with_id(old(log)@, envio).sorteio,
                },
                old(log).next_id(),
                resultado,
            )
            &&& final(log)@ == old(log)@.push(n)
            &&& final(log).next_id() == old(log).next_id() + 1
        },
        novo matches Err(e) ==> {
            &&& e == if !has_id(old(log)@, envio) {
                Erro::EnvioInexistente
            } else if !same_pair(record_with_id(old(log)@, envio), destino, sorteado) {
                Erro::JogadoresDivergentes
            } else {
                Erro::RegistroCheio
            }
            &&& final(log)@ == old(log)@
            &&& final(log).next_id() == old(log).next_id()
        },
{
    let antigo = match get_envio_by_id(log, envio) {
        Some(antigo) => antigo,
        None => {
            return Err(Erro::EnvioInexistente);
        },
    };
    proof {
        let i = choose|i: int| 0 <= i < log@.len() && log@[i] == antigo;
        lemma_record_with_id(log@, log.next_id(), i);
    }
    if antigo.destino != destino.id || antigo.sorteado != sorteado.id {
        return Err(Erro::JogadoresDivergentes);
    }
    let sucesso = resultado.is_ok();
    let erro = match &resultado {
        Ok(_) => None,
        Err(e) => Some(e.clone()),
    };
    let destino_id = destino.id;
    let sorteado_id = sorteado.id;
    let processo = ProcessoEnvio { destino, sorteado, sorteio: antigo.sorteio };
    match processo.enviar(resultado, log) {
        Ok(id) => Ok(
            Envio {
                id,
                sorteio: antigo.sorteio,
                destino: destino_id,
                sorteado: sorteado_id,
                sucesso,
                erro,
            },
        ),
        Err(e) => Err(e),
    }
}

} // verus!
