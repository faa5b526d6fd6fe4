use amigo_secreto::actions::envio::envio_redo;
use amigo_secreto::actions::sorteio::create_seed;
use amigo_secreto::actions::sorteio::roster_diverged;
use amigo_secreto::actions::sorteio::sorteio_begin;
use amigo_secreto::actions::sorteio::sorteio_new;
use amigo_secreto::actions::sorteio::sorteio_run;
use amigo_secreto::db::envios::get_all_envios;
use amigo_secreto::db::envios::get_envio_by_id;
use amigo_secreto::db::envios::get_envios_by_sorteio;
use amigo_secreto::db::envios::Auditoria;
use amigo_secreto::db::Envio;
use amigo_secreto::db::Jogador;
use amigo_secreto::db::Sorteio;
use amigo_secreto::envio::shuffle_jogadores;
use amigo_secreto::envio::sortear;
use amigo_secreto::erro::Erro;
use amigo_secreto::fingerprint::hash_ids_canonical;

fn jogador(id: u64, nome: &str) -> Jogador {
    Jogador { id, nome: nome.to_string(), email: format!("{}@example.org", nome), jogo: 1 }
}

fn roster(n: u64) -> Vec<Jogador> {
    (1..=n).map(|id| jogador(id, &format!("j{}", id))).collect()
}

fn sorteio(id: u64, seed: &str) -> Sorteio {
    Sorteio {
        id,
        seed: seed.to_string(),
        jogadores_hash: String::new(),
        jogadores_qtd: 0,
        jogo: 1,
    }
}

fn all_ok(n: usize) -> Vec<Result<(), String>> {
    (0..n).map(|_| Ok(())).collect()
}

fn nomes(jogadores: &[Jogador]) -> Vec<String> {
    jogadores.iter().map(|j| j.nome.clone()).collect()
}

#[test]
fn seed_is_32_letters_and_digits() {
    for _ in 0..20 {
        let seed = create_seed();
        assert_eq!(seed.len(), 32);
        assert_eq!(seed.chars().count(), 32);
        assert!(seed.chars().all(|c| c.is_ascii_alphanumeric()));
    }
}

#[test]
fn seeds_are_fresh() {
    assert_ne!(create_seed(), create_seed());
}

#[test]
fn new_draw_freezes_the_roster() {
    let r = vec![jogador(30, "C"), jogador(10, "A"), jogador(20, "B")];
    let s = sorteio_new(4, 2, &r);
    assert_eq!(s.id, 4);
    assert_eq!(s.jogo, 2);
    assert_eq!(s.jogadores_qtd, 3);
    assert_eq!(s.jogadores_hash, hash_ids_canonical(&vec![10, 20, 30]));
    assert_eq!(s.seed.len(), 32);
    assert!(s.seed.chars().all(|c| c.is_ascii_alphanumeric()));
    assert!(!roster_diverged(&s, &r));
}

#[test]
fn new_draws_have_seeds_of_their_own() {
    let r = roster(3);
    assert_ne!(sorteio_new(1, 1, &r).seed, sorteio_new(2, 1, &r).seed);
    assert_eq!(sorteio_new(1, 1, &r).jogadores_hash, sorteio_new(2, 1, &r).jogadores_hash);
}

#[test]
fn roster_change_is_detected() {
    let r = roster(3);
    let s = sorteio_new(1, 1, &r);
    let reversed: Vec<Jogador> = r.iter().rev().cloned().collect();
    assert!(!roster_diverged(&s, &reversed));
    assert!(roster_diverged(&s, &roster(4)));
    assert!(roster_diverged(&s, &roster(2)));
    let swapped = vec![jogador(1, "j1"), jogador(2, "j2"), jogador(4, "j4")];
    assert!(roster_diverged(&s, &swapped));
}

#[test]
fn seeded_order_of_the_example_roster() {
    let r = vec![jogador(1, "A"), jogador(2, "B"), jogador(3, "C")];
    assert_eq!(nomes(&shuffle_jogadores("s1", &r)), vec!["C", "A", "B"]);
    assert_eq!(nomes(&shuffle_jogadores("s0", &r)), vec!["B", "A", "C"]);
    assert_eq!(nomes(&shuffle_jogadores("s9", &r)), vec!["A", "C", "B"]);
}

#[test]
fn run_with_a_transport_that_always_succeeds() {
    let r = vec![jogador(1, "A"), jogador(2, "B"), jogador(3, "C")];
    let s = sorteio_new(1, 1, &r);
    let s = Sorteio { seed: "s0".to_string(), ..s };
    let mut log = Auditoria::new();
    let rodada = sorteio_run(s.clone(), r.clone(), all_ok(3), &mut log).unwrap();
    assert!(rodada.deletados.is_empty());
    let mut ids = rodada.envios.clone();
    ids.sort();
    assert_eq!(ids, vec![1, 2, 3]);
    let pares: Vec<(u64, u64, bool)> =
        get_all_envios(&log).iter().map(|e| (e.destino, e.sorteado, e.sucesso)).collect();
    assert_eq!(pares, vec![(2, 1, true), (1, 3, true), (3, 2, true)]);
    assert_eq!(s.jogadores_hash, sorteio_new(9, 1, &r).jogadores_hash);
    assert!(!roster_diverged(&s, &r));
}

#[test]
fn run_of_one_participant_is_refused() {
    let mut log = Auditoria::new();
    assert_eq!(
        sorteio_run(sorteio(1, "s1"), roster(1), all_ok(1), &mut log),
        Err(Erro::JogadoresInsuficientes)
    );
    assert_eq!(log.len(), 0);
    assert!(sorteio_begin(&sorteio(1, "s1"), &roster(1), &mut log).is_err());
    assert_eq!(log.len(), 0);
}

#[test]
fn run_of_an_empty_roster_is_refused() {
    let mut log = Auditoria::new();
    assert_eq!(
        sorteio_run(sorteio(1, "s1"), Vec::new(), Vec::new(), &mut log),
        Err(Erro::JogadoresInsuficientes)
    );
    assert_eq!(log.len(), 0);
}

#[test]
fn refused_run_keeps_the_earlier_records() {
    let mut log = Auditoria::new();
    sorteio_run(sorteio(1, "a"), roster(3), all_ok(3), &mut log).unwrap();
    let before = get_all_envios(&log);
    assert_eq!(
        sorteio_run(sorteio(1, "a"), roster(1), all_ok(1), &mut log),
        Err(Erro::JogadoresInsuficientes)
    );
    assert_eq!(
        sorteio_run(sorteio(1, "a"), roster(3), all_ok(2), &mut log),
        Err(Erro::ResultadosDivergentes)
    );
    assert_eq!(get_all_envios(&log), before);
}

#[test]
fn run_is_refused_where_the_log_is_full() {
    let mut log = Auditoria::from_envios(vec![Envio {
        id: u64::MAX - 2,
        sorteio: 1,
        destino: 1,
        sorteado: 2,
        sucesso: true,
        erro: None,
    }])
    .unwrap();
    assert_eq!(
        sorteio_run(sorteio(1, "a"), roster(2), all_ok(2), &mut log),
        Err(Erro::RegistroCheio)
    );
    assert!(matches!(sorteio_begin(&sorteio(1, "a"), &roster(2), &mut log), Err(Erro::RegistroCheio)));
    assert_eq!(log.len(), 1);
}

#[test]
fn rerun_replaces_the_records_of_the_draw() {
    let mut log = Auditoria::new();
    let mut falhas = all_ok(4);
    falhas[1] = Err("recusado".to_string());
    let first = sorteio_run(sorteio(1, "a"), roster(4), falhas, &mut log).unwrap();
    sorteio_run(sorteio(2, "b"), roster(3), all_ok(3), &mut log).unwrap();
    let other = get_envios_by_sorteio(&log, 2);
    assert_eq!(other.len(), 3);
    let second = sorteio_run(sorteio(1, "a"), roster(4), all_ok(4), &mut log).unwrap();
    assert_eq!(second.deletados, vec![1, 2, 3, 4]);
    let mut removed = first.envios.clone();
    removed.sort();
    assert_eq!(removed, second.deletados);
    let now = get_envios_by_sorteio(&log, 1);
    assert_eq!(now.len(), 4);
    assert_eq!(now.iter().map(|e| e.id).collect::<Vec<u64>>(), vec![8, 9, 10, 11]);
    assert!(now.iter().all(|e| e.sucesso));
    assert_eq!(get_envios_by_sorteio(&log, 2), other);
    assert_eq!(log.len(), 7);
    let mut ids = second.envios.clone();
    ids.sort();
    assert_eq!(ids, vec![8, 9, 10, 11]);
}

#[test]
fn rerun_gives_the_same_assignments() {
    let mut log = Auditoria::new();
    sorteio_run(sorteio(1, "a"), roster(5), all_ok(5), &mut log).unwrap();
    let first: Vec<(u64, u64)> =
        get_envios_by_sorteio(&log, 1).iter().map(|e| (e.destino, e.sorteado)).collect();
    sorteio_run(sorteio(1, "a"), roster(5), all_ok(5), &mut log).unwrap();
    let second: Vec<(u64, u64)> =
        get_envios_by_sorteio(&log, 1).iter().map(|e| (e.destino, e.sorteado)).collect();
    assert_eq!(first, second);
}

#[test]
fn begun_run_clears_and_hands_over_the_dispatch() {
    let r = roster(3);
    let s = sorteio(1, "a");
    let mut log = Auditoria::new();
    sorteio_run(s.clone(), r.clone(), all_ok(3), &mut log).unwrap();
    let (mut d, deletados) = sorteio_begin(&s, &r, &mut log).unwrap();
    assert_eq!(deletados, vec![1, 2, 3]);
    assert_eq!(log.len(), 0);
    let processos = sortear(&s, &r);
    assert_eq!(d.pendente(), Some(&processos[0]));
    while d.pendente().is_some() {
        d.registrar(Ok(()), &mut log).unwrap();
    }
    assert_eq!(log.len(), 3);
    assert_eq!(get_all_envios(&log)[0].id, 4);
}

#[test]
fn redo_adds_a_record_and_keeps_the_old_one() {
    let r = roster(3);
    let mut log = Auditoria::new();
    let mut falhas = all_ok(3);
    falhas[0] = Err("caixa cheia".to_string());
    sorteio_run(sorteio(6, "a"), r.clone(), falhas, &mut log).unwrap();
    let before = get_all_envios(&log);
    let antigo = get_envio_by_id(&log, 1).unwrap();
    assert!(!antigo.sucesso);
    let destino = r[(antigo.destino - 1) as usize].clone();
    let sorteado = r[(antigo.sorteado - 1) as usize].clone();
    let novo = envio_redo(&mut log, 1, destino, sorteado, Ok(())).unwrap();
    assert_eq!(
        novo,
        Envio {
            id: 4,
            sorteio: 6,
            destino: antigo.destino,
            sorteado: antigo.sorteado,
            sucesso: true,
            erro: None,
        }
    );
    let after = get_all_envios(&log);
    assert_eq!(after.len(), 4);
    assert_eq!(after[..3].to_vec(), before);
    assert_eq!(after[3], novo);
    assert_eq!(get_envio_by_id(&log, 1), Some(antigo));
}

#[test]
fn redo_records_a_failure_too() {
    let r = roster(2);
    let mut log = Auditoria::new();
    sorteio_run(sorteio(1, "a"), r.clone(), all_ok(2), &mut log).unwrap();
    let antigo = get_envio_by_id(&log, 2).unwrap();
    let destino = r[(antigo.destino - 1) as usize].clone();
    let sorteado = r[(antigo.sorteado - 1) as usize].clone();
    let novo = envio_redo(&mut log, 2, destino, sorteado, Err("fora do ar".to_string())).unwrap();
    assert_eq!(novo.id, 3);
    assert!(!novo.sucesso);
    assert_eq!(novo.erro, Some("fora do ar".to_string()));
    assert_eq!(get_envio_by_id(&log, 3), Some(novo));
    assert!(get_envio_by_id(&log, 2).unwrap().sucesso);
}

#[test]
fn redo_of_an_unknown_record_is_refused() {
    let r = roster(2);
    let mut log = Auditoria::new();
    sorteio_run(sorteio(1, "a"), r.clone(), all_ok(2), &mut log).unwrap();
    assert_eq!(
        envio_redo(&mut log, 9, r[0].clone(), r[1].clone(), Ok(())),
        Err(Erro::EnvioInexistente)
    );
    assert_eq!(log.len(), 2);
}

#[test]
fn redo_with_other_participants_is_refused() {
    let r = roster(3);
    let mut log = Auditoria::new();
    sorteio_run(sorteio(1, "a"), r.clone(), all_ok(3), &mut log).unwrap();
    let antigo = get_envio_by_id(&log, 1).unwrap();
    let destino = r[(antigo.destino - 1) as usize].clone();
    assert_eq!(
        envio_redo(&mut log, 1, destino.clone(), destino, Ok(())),
        Err(Erro::JogadoresDivergentes)
    );
    assert_eq!(log.len(), 3);
}

#[test]
fn redo_is_refused_where_the_log_is_full() {
    let mut log = Auditoria::from_envios(vec![Envio {
        id: u64::MAX - 1,
        sorteio: 1,
        destino: 1,
        sorteado: 2,
        sucesso: false,
        erro: None,
    }])
    .unwrap();
    assert_eq!(
        envio_redo(&mut log, u64::MAX - 1, jogador(1, "a"), jogador(2, "b"), Ok(())),
        Err(Erro::RegistroCheio)
    );
    assert_eq!(log.len(), 1);
}
