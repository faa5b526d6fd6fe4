//! The audit log: every dispatch attempt, in the order in which it was made.
//!
//! Records are appended and read, and deleted as a whole by draw or one by one;
//! none is ever changed. Ids are handed out in increasing order and never
//! reused.

use crate::db::Envio;
use vstd::prelude::*;

verus! {

/// The records of all dispatch attempts.
#[derive(Debug)]
pub struct Auditoria {
    envios: Vec<Envio>,
    proximo_id: u64,
}

/// Whether a record belongs to draw `sorteio`.
pub open spec fn of_sorteio(sorteio: u64) -> spec_fn(Envio) -> bool {
    |e: Envio| e.sorteio == sorteio
}

/// Whether a record belongs to another draw than `sorteio`.
pub open spec fn not_of_sorteio(sorteio: u64) -> spec_fn(Envio) -> bool {
    |e: Envio| e.sorteio != sorteio
}

/// Whether a record has another id than `id`.
pub open spec fn not_id(id: u64) -> spec_fn(Envio) -> bool {
    |e: Envio| e.id != id
}

/// The records of `envios` that belong to draw `sorteio`, in their order.
#[verifier::opaque]
pub open spec fn of_draw(envios: Seq<Envio>, sorteio: u64) -> Seq<Envio> {
    envios.filter(of_sorteio(sorteio))
}

/// The records of `envios` that belong to other draws than `sorteio`, in
/// their order.
#[verifier::opaque]
pub open spec fn of_other_draws(envios: Seq<Envio>, sorteio: u64) -> Seq<Envio> {
    envios.filter(not_of_sorteio(sorteio))
}

/// The records of `envios` but the one with id `id`, in their order.
#[verifier::opaque]
pub open spec fn without_id(envios: Seq<Envio>, id: u64) -> Seq<Envio> {
    envios.filter(not_id(id))
}

/// Whether one of `envios` has the id `id`.
pub open spec fn has_id(envios: Seq<Envio>, id: u64) -> bool {
    exists|i: int| 0 <= i < envios.len() && (#[trigger] envios[i]).id == id
}

/// The ids of `envios`, in their order.
pub open spec fn ids_of(envios: Seq<Envio>) -> Seq<u64> {
    envios.map_values(|e: Envio| e.id)
}

/// Whether the ids of `envios` increase strictly and stay below `next`.
pub open spec fn increasing_below(envios: Seq<Envio>, next: u64) -> bool {
    &&& forall|i: int| 0 <= i < envios.len() ==> (#[trigger] envios[i]).id < next
    &&& forall|i: int, j: int| 0 <= i < j < envios.len() ==> envios[i].id < envios[j].id
}

impl Auditoria {
    /// The records, oldest first.
    pub closed spec fn view(&self) -> Seq<Envio> {
        self.envios@
    }

    /// The id that the next record will get.
    pub closed spec fn next_id(&self) -> u64 {
        self.proximo_id
    }

    /// The log's invariant: ids increase with the order of insertion, and none
    /// has reached the id that comes next.
    pub open spec fn wf(&self) -> bool {
        increasing_below(self@, self.next_id())
    }

    /// Whether the log can still hand out `n` ids.
    pub open spec fn has_room(&self, n: nat) -> bool {
        self.next_id() + n <= u64::MAX
    }

    /// An empty log. Its first record will have id 1.
    pub fn new() -> (log: Auditoria)
        ensures
            log@ == Seq::<Envio>::empty(),
            log.next_id() == 1,
            log.wf(),
    {
        Auditoria { envios: Vec::new(), proximo_id: 1 }
    }

    /// The number of records.
    pub fn len(&self) -> (n: usize)
        ensures
            n == self@.len(),
    {
        self.envios.len()
    }

    /// Whether the log can still hand out `n` ids.
    pub fn room_for(&self, n: usize) -> (b: bool)
        ensures
            b == self.has_room(n as nat),
    {
        n as u128 + self.proximo_id as u128 <= u64::MAX as u128
    }

    /// Appends one record and returns its id, which is the log's next id.
    pub(crate) fn append(
        &mut self,
        sorteio: u64,
        destino: u64,
        sorteado: u64,
        sucesso: bool,
        erro: Option<String>,
    ) -> (id: u64)
        requires
            old(self).wf(),
            old(self).has_room(1),
        ensures
            final(self).wf(),
            id == old(self).next_id(),
            final(self).next_id() == id + 1,
            final(self)@ == old(self)@.push(
                Envio { id, sorteio, destino, sorteado, sucesso, erro },
            ),
    {
        let id = self.proximo_id;
        self.envios.push(Envio { id, sorteio, destino, sorteado, sucesso, erro });
        self.proximo_id = id + 1;
        id
    }
}

impl Auditoria {
    /// A log that holds `envios`, if their ids increase strictly; the next id
    /// is the one after the last. `None` where two records are out of order or
    /// share an id, or where the last id leaves no id to follow it.
    pub fn from_envios(envios: Vec<Envio>) -> (log: Option<Auditoria>)
        ensures
            log is Some <==> increasing_below(envios@, u64::MAX),
            log matches Some(l) ==> {
                &&& l.wf()
                &&& l@ == envios@
                &&& l.next_id() == if envios@.len() == 0 {
                    1
                } else {
                    envios@.last().id + 1
                }
            },
    {
        let mut proximo_id: u64 = 1;
        let mut i: usize = 0;
        while i < envios.len()
            invariant
                i <= envios.len(),
                increasing_below(envios@.take(i as int), proximo_id),
                proximo_id == if i == 0 {
                    1
                } else {
                    envios@[i - 1].id + 1
                },
                increasing_below(envios@.take(i as int), u64::MAX),
            decreases envios.len() - i,
        {
            let id = envios[i].id;
            if id == u64::MAX || (i > 0 && id < proximo_id) {
                proof {
                    if increasing_below(envios@, u64::MAX) {
                        assert(envios@[i as int].id < u64::MAX);
                        assert(envios@[i - 1].id < envios@[i as int].id);
                    }
                }
                return None;
            }
            proof {
                let now = envios@.take(i + 1);
                assert forall|a: int, b: int| 0 <= a < b < now.len() implies now[a].id
                    < now[b].id by {
                    if b == i && i > 0 {
                        if a < i - 1 {
                            assert(envios@.take(i as int)[a].id < envios@.take(i as int)[i - 1].id);
                        }
                    } else {
                        assert(envios@.take(i as int)[a].id < envios@.take(i as int)[b].id);
                    }
                }
                assert forall|a: int| 0 <= a < now.len() implies (#[trigger] now[a]).id < id + 1 by {
                    if a < i {
                        assert(now[a].id < now[i as int].id);
                    }
                }
            }
            proximo_id = id + 1;
            i += 1;
        }
        assert(envios@.take(i as int) == envios@);
        Some(Auditoria { envios, proximo_id })
    }
}

/// The records of draw `sorteio`, oldest first.
pub fn get_envios_by_sorteio(log: &Auditoria, sorteio: u64) -> (envios: Vec<Envio>)
    ensures
        envios@ == of_draw(log@, sorteio),
{
    reveal(of_draw);
    let mut envios: Vec<Envio> = Vec::new();
    let mut i: usize = 0;
    assert(log@.take(0).filter(of_sorteio(sorteio)) == Seq::<Envio>::empty());
    while i < log.envios.len()
        invariant
            i <= log@.len(),
            envios@ == log@.take(i as int).filter(of_sorteio(sorteio)),
        decreases log@.len() - i,
    {
        proof {
            assert(log@.take(i + 1) == log@.take(i as int).push(log@[i as int]));
            log@.take(i as int).lemma_filter_push(log@[i as int], of_sorteio(sorteio));
        }
        if log.envios[i].sorteio == sorteio {
            envios.push(log.envios[i].clone());
        }
        i += 1;
    }
    assert(log@.take(i as int) == log@);
    envios
}

/// The record with id `envio`, if the log holds one.
pub fn get_envio_by_id(log: &Auditoria, envio: u64) -> (found: Option<Envio>)
    ensures
        found is Some <==> has_id(log@, envio),
        found matches Some(e) ==> e.id == envio && log@.contains(e),
{
    let mut i: usize = 0;
    while i < log.envios.len()
        invariant
            i <= log@.len(),
            forall|k: int| 0 <= k < i ==> (#[trigger] log@[k]).id != envio,
        decreases log@.len() - i,
    {
        if log.envios[i].id == envio {
            return Some(log.envios[i].clone());
        }
        i += 1;
    }
    None
}

/// All records, oldest first.
pub fn get_all_envios(log: &Auditoria) -> (envios: Vec<Envio>)
    ensures
        envios@ == log@,
{
    let mut envios: Vec<Envio> = Vec::new();
    let mut i: usize = 0;
    while i < log.envios.len()
        invariant
            i <= log@.len(),
            envios@ == log@.take(i as int),
        decreases log@.len() - i,
    {
        envios.push(log.envios[i].clone());
        assert(log@.take(i + 1) == log@.take(i as int).push(log@[i as int]));
        i += 1;
    }
    assert(log@.take(i as int) == log@);
    envios
}

/// Deletes the records of draw `sorteio` and returns their ids, oldest first.
/// The other records stay as they are, in their order, and no id is handed
/// out again.
pub fn delete_envios_by_sorteio(log: &mut Auditoria, sorteio: u64) -> (ids: Vec<u64>)
    requires
        old(log).wf(),
    ensures
        final(log).wf(),
        final(log).next_id() == old(log).next_id(),
        final(log)@ == of_other_draws(old(log)@, sorteio),
        ids@ == ids_of(of_draw(old(log)@, sorteio)),
{
    reveal(of_draw);
    reveal(of_other_draws);
    let mut kept: Vec<Envio> = Vec::new();
    let mut ids: Vec<u64> = Vec::new();
    let mut i: usize = 0;
    let ghost all = log@;
    assert(all.take(0).filter(of_sorteio(sorteio)) == Seq::<Envio>::empty());
    assert(all.take(0).filter(not_of_sorteio(sorteio)) == Seq::<Envio>::empty());
    while i < log.envios.len()
        invariant
            log@ == all,
            log.next_id() == old(log).next_id(),
            increasing_below(all, log.next_id()),
            i <= all.len(),
            kept@ == all.take(i as int).filter(not_of_sorteio(sorteio)),
            ids@ == ids_of(all.take(i as int).filter(of_sorteio(sorteio))),
            increasing_below(kept@, log.next_id()),
            forall|k: int| 0 <= k < kept@.len() && i < all.len() ==> (#[trigger] kept@[k]).id
                < all[i as int].id,
        decreases all.len() - i,
    {
        proof {
            assert(all.take(i + 1) == all.take(i as int).push(all[i as int]));
            all.take(i as int).lemma_filter_push(all[i as int], of_sorteio(sorteio));
            all.take(i as int).lemma_filter_push(all[i as int], not_of_sorteio(sorteio));
            if i + 1 < all.len() {
                assert(all[i as int].id < all[i + 1].id);
            }
        }
        if log.envios[i].sorteio == sorteio {
            ids.push(log.envios[i].id);
            assert(ids@ == ids_of(all.take(i + 1).filter(of_sorteio(sorteio))));
        } else {
            kept.push(log.envios[i].clone());
        }
        i += 1;
    }
    assert(all.take(i as int) == all);
    log.envios = kept;
    ids
}

/// Deletes the record with id `envio` and returns that id; `None`, and the
/// log unchanged, where it holds no such record.
pub fn delete_envios_by_id(log: &mut Auditoria, envio: u64) -> (id: Option<u64>)
    requires
        old(log).wf(),
    ensures
        final(log).wf(),
        final(log).next_id() == old(log).next_id(),
        final(log)@ == without_id(old(log)@, envio),
        id == if has_id(old(log)@, envio) {
            Some(envio)
        } else {
            None
        },
{
    reveal(without_id);
    let mut kept: Vec<Envio> = Vec::new();
    let mut id: Option<u64> = None;
    let mut i: usize = 0;
    let ghost all = log@;
    assert(all.take(0).filter(not_id(envio)) == Seq::<Envio>::empty());
    while i < log.envios.len()
        invariant
            log@ == all,
            log.next_id() == old(log).next_id(),
            increasing_below(all, log.next_id()),
            i <= all.len(),
            kept@ == all.take(i as int).filter(not_id(envio)),
            increasing_below(kept@, log.next_id()),
            forall|k: int| 0 <= k < kept@.len() && i < all.len() ==> (#[trigger] kept@[k]).id
                < all[i as int].id,
            id == if exists|k: int| 0 <= k < i && (#[trigger] all[k]).id == envio {
                Some(envio)
            } else {
                None
            },
        decreases all.len() - i,
    {
        proof {
            assert(all.take(i + 1) == all.take(i as int).push(all[i as int]));
            all.take(i as int).lemma_filter_push(all[i as int], not_id(envio));
            if i + 1 < all.len() {
                assert(all[i as int].id < all[i + 1].id);
            }
        }
        if log.envios[i].id == envio {
            id = Some(envio);
        } else {
            kept.push(log.envios[i].clone());
        }
        i += 1;
    }
    assert(all.take(i as int) == all);
    log.envios = kept;
    id
}

/// A filter keeps a sequence of which every record passes.
pub proof fn lemma_filter_keeps_all(envios: Seq<Envio>, pred: spec_fn(Envio) -> bool)
    requires
        forall|i: int| 0 <= i < envios.len() ==> pred(#[trigger] envios[i]),
    ensures
        envios.filter(pred) == envios,
    decreases envios.len(),
{
    if envios.len() == 0 {
        assert(envios.filter(pred).len() <= envios.len()) by {
            envios.lemma_filter_len(pred);
        }
        assert(envios.filter(pred) == envios);
    } else {
        let rest = envios.drop_last();
        assert forall|i: int| 0 <= i < rest.len() implies pred(#[trigger] rest[i]) by {
            assert(rest[i] == envios[i]);
        }
        lemma_filter_keeps_all(rest, pred);
        rest.lemma_filter_push(envios.last(), pred);
        assert(rest.push(envios.last()) == envios);
    }
}

/// A filter empties a sequence of which no record passes.
pub proof fn lemma_filter_drops_all(envios: Seq<Envio>, pred: spec_fn(Envio) -> bool)
    requires
        forall|i: int| 0 <= i < envios.len() ==> !pred(#[trigger] envios[i]),
    ensures
        envios.filter(pred) == Seq::<Envio>::empty(),
    decreases envios.len(),
{
    if envios.len() == 0 {
        assert(envios.filter(pred).len() <= envios.len()) by {
            envios.lemma_filter_len(pred);
        }
        assert(envios.filter(pred) == Seq::<Envio>::empty());
    } else {
        let rest = envios.drop_last();
        assert forall|i: int| 0 <= i < rest.len() implies !pred(#[trigger] rest[i]) by {
            assert(rest[i] == envios[i]);
        }
        lemma_filter_drops_all(rest, pred);
        rest.lemma_filter_push(envios.last(), pred);
        assert(rest.push(envios.last()) == envios);
    }
}

} // verus!
