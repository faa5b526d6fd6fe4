use amigo_secreto::db::Jogador;
use amigo_secreto::db::Sorteio;
use amigo_secreto::envio::pair_jogadores;
use amigo_secreto::envio::reorder_ids;
use amigo_secreto::envio::reorder_jogadores;
use amigo_secreto::envio::shuffle_jogadores;
use amigo_secreto::envio::sortear;
use amigo_secreto::envio::ProcessoEnvio;

fn jogador(id: u64, nome: &str) -> Jogador {
    Jogador { id, nome: nome.to_string(), email: format!("{}@example.org", nome), jogo: 1 }
}

fn roster(n: u64) -> Vec<Jogador> {
    (1..=n).map(|id| jogador(id, &format!("j{}", id))).collect()
}

fn sorteio(id: u64, seed: &str) -> Sorteio {
    Sorteio {
        id,
        seed: seed.to_string(),
        jogadores_hash: String::new(),
        jogadores_qtd: 0,
        jogo: 1,
    }
}

fn givers(processos: &[ProcessoEnvio]) -> Vec<u64> {
    processos.iter().map(|p| p.destino.id).collect()
}

fn recipients(processos: &[ProcessoEnvio]) -> Vec<u64> {
    processos.iter().map(|p| p.sorteado.id).collect()
}

fn sorted(mut ids: Vec<u64>) -> Vec<u64> {
    ids.sort();
    ids
}

#[test]
fn pairs_follow_the_cycle() {
    let a = jogador(1, "A");
    let b = jogador(2, "B");
    let c = jogador(3, "C");
    let processos = pair_jogadores(&vec![b.clone(), a.clone(), c.clone()], 7);
    assert_eq!(processos.len(), 3);
    assert_eq!(processos[0], ProcessoEnvio { destino: b.clone(), sorteado: a.clone(), sorteio: 7 });
    assert_eq!(processos[1], ProcessoEnvio { destino: a, sorteado: c.clone(), sorteio: 7 });
    assert_eq!(processos[2], ProcessoEnvio { destino: c, sorteado: b, sorteio: 7 });
}

#[test]
fn pairs_of_two_swap() {
    let processos = pair_jogadores(&roster(2), 1);
    assert_eq!(givers(&processos), vec![1, 2]);
    assert_eq!(recipients(&processos), vec![2, 1]);
}

#[test]
fn pair_of_one_is_a_self_assignment() {
    let processos = pair_jogadores(&roster(1), 1);
    assert_eq!(processos.len(), 1);
    assert_eq!(processos[0].destino.id, 1);
    assert_eq!(processos[0].sorteado.id, 1);
}

#[test]
fn empty_roster_has_no_pairs() {
    assert!(pair_jogadores(&Vec::new(), 1).is_empty());
    assert!(sortear(&sorteio(1, "s1"), &Vec::new()).is_empty());
}

#[test]
fn reorder_applies_the_permutation() {
    let r = roster(3);
    let ordem = reorder_jogadores(&r, &vec![1, 0, 2]).unwrap();
    assert_eq!(ordem, vec![r[1].clone(), r[0].clone(), r[2].clone()]);
    assert_eq!(reorder_ids(&vec![10, 20, 30], &vec![2, 0, 1]), Some(vec![30, 10, 20]));
}

#[test]
fn reorder_refuses_an_index_out_of_the_roster() {
    assert_eq!(reorder_jogadores(&roster(3), &vec![0, 3, 1]), None);
    assert_eq!(reorder_ids(&vec![10, 20], &vec![2]), None);
    assert_eq!(reorder_ids(&Vec::new(), &Vec::new()), Some(Vec::new()));
}

#[test]
fn permuted_roster_pairs_as_in_the_example() {
    let r = vec![jogador(1, "A"), jogador(2, "B"), jogador(3, "C")];
    let ordem = reorder_jogadores(&r, &vec![1, 0, 2]).unwrap();
    let processos = pair_jogadores(&ordem, 1);
    let pares: Vec<(String, String)> = processos
        .iter()
        .map(|p| (p.destino.nome.clone(), p.sorteado.nome.clone()))
        .collect();
    assert_eq!(
        pares,
        vec![
            ("B".to_string(), "A".to_string()),
            ("A".to_string(), "C".to_string()),
            ("C".to_string(), "B".to_string()),
        ]
    );
}

#[test]
fn assignments_are_a_bijection_without_fixed_point() {
    for n in 2..=12u64 {
        for seed in ["s1", "s2", "uma semente", "", "0", "ZZZZZZZZ"] {
            let r = roster(n);
            let processos = sortear(&sorteio(3, seed), &r);
            assert_eq!(processos.len(), n as usize);
            assert_eq!(sorted(givers(&processos)), (1..=n).collect::<Vec<u64>>());
            assert_eq!(sorted(recipients(&processos)), (1..=n).collect::<Vec<u64>>());
            for p in &processos {
                assert_ne!(p.destino.id, p.sorteado.id);
                assert_eq!(p.sorteio, 3);
            }
        }
    }
}

#[test]
fn assignments_keep_the_participants_as_they_are() {
    let r = roster(5);
    for p in sortear(&sorteio(1, "abc"), &r) {
        assert_eq!(p.destino, r[(p.destino.id - 1) as usize]);
        assert_eq!(p.sorteado, r[(p.sorteado.id - 1) as usize]);
    }
}

#[test]
fn same_seed_gives_the_same_assignments() {
    let r = roster(9);
    let first = sortear(&sorteio(1, "semente"), &r);
    let second = sortear(&sorteio(1, "semente"), &r);
    assert_eq!(first, second);
}

#[test]
fn shuffle_is_fixed_by_seed_and_length() {
    let um = shuffle_jogadores("k", &roster(6));
    let outro = shuffle_jogadores("k", &roster(6));
    assert_eq!(um, outro);
    let ids: Vec<u64> = um.iter().map(|j| j.id).collect();
    assert_eq!(sorted(ids), vec![1, 2, 3, 4, 5, 6]);
}

#[test]
fn some_seed_moves_the_roster() {
    let r = roster(8);
    let moved = (0..20).any(|k| shuffle_jogadores(&format!("seed{}", k), &r) != r);
    assert!(moved);
}

#[test]
fn seeds_give_different_orders() {
    let r = roster(8);
    let first = shuffle_jogadores("seed0", &r);
    let differs = (1..20).any(|k| shuffle_jogadores(&format!("seed{}", k), &r) != first);
    assert!(differs);
}

#[test]
fn assignments_follow_the_shuffled_roster() {
    let r = roster(7);
    let ordem = shuffle_jogadores("xyz", &r);
    let processos = sortear(&sorteio(4, "xyz"), &r);
    assert_eq!(processos, pair_jogadores(&ordem, 4));
}

#[test]
fn one_participant_draws_themself() {
    let processos = sortear(&sorteio(1, "s1"), &roster(1));
    assert_eq!(processos.len(), 1);
    assert_eq!(processos[0].destino.id, processos[0].sorteado.id);
}
