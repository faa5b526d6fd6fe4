use amigo_secreto::config::parse_port;
use amigo_secreto::config::Config;
use amigo_secreto::config::ErroConfig;
use amigo_secreto::config::DEFAULT_PORT;
use amigo_secreto::mailbox::mailbox_ok;

fn some(texto: &str) -> Option<String> {
    Some(texto.to_string())
}

fn full(port: Option<String>, db_path: Option<String>) -> Result<Config, ErroConfig> {
    Config::from_values(
        some("Amigo <noreply@example.org>"),
        some("smtp.example.org"),
        port,
        some("user"),
        some("SECRET-REDACTED"),
        db_path,
    )
}

#[test]
fn ports_are_read_in_decimal() {
    assert_eq!(parse_port("587"), Some(587));
    assert_eq!(parse_port("0"), Some(0));
    assert_eq!(parse_port("25"), Some(25));
    assert_eq!(parse_port("65535"), Some(65535));
    assert_eq!(parse_port("+465"), Some(465));
    assert_eq!(parse_port("00025"), Some(25));
    assert_eq!(parse_port("0000000000000000000065535"), Some(65535));
}

#[test]
fn other_text_is_no_port() {
    assert_eq!(parse_port(""), None);
    assert_eq!(parse_port("+"), None);
    assert_eq!(parse_port("-1"), None);
    assert_eq!(parse_port("++1"), None);
    assert_eq!(parse_port("65536"), None);
    assert_eq!(parse_port("99999999999999999999999"), None);
    assert_eq!(parse_port("58 7"), None);
    assert_eq!(parse_port(" 587"), None);
    assert_eq!(parse_port("587 "), None);
    assert_eq!(parse_port("5a7"), None);
    assert_eq!(parse_port("٥٨٧"), None);
    assert_eq!(parse_port("0x1f"), None);
}

#[test]
fn ports_are_read_as_std_reads_them() {
    for texto in ["587", "+587", "", "+", "-0", "65535", "65536", "007", "1e3", "12345", "655350"] {
        assert_eq!(parse_port(texto), texto.parse::<u16>().ok());
    }
}

#[test]
fn settings_take_what_is_given() {
    assert_eq!(
        full(some("2525"), some("/tmp/dados.db")),
        Ok(Config {
            smtp_sender: "Amigo <noreply@example.org>".to_string(),
            smtp_relay: "smtp.example.org".to_string(),
            smtp_port: 2525,
            smtp_username: "user".to_string(),
            smtp_password: "SECRET-REDACTED".to_string(),
            subject: "Amigo Secreto".to_string(),
            db_path: "/tmp/dados.db".to_string(),
        })
    );
}

#[test]
fn settings_have_defaults_for_port_and_store() {
    let config = full(None, None).unwrap();
    assert_eq!(config.smtp_port, 587);
    assert_eq!(DEFAULT_PORT, 587);
    assert_eq!(config.db_path, "sqlite.db");
    assert_eq!(config.subject, "Amigo Secreto");
}

#[test]
fn settings_refuse_a_bad_port() {
    assert_eq!(full(some("smtp"), None), Err(ErroConfig::PortaInvalida));
    assert_eq!(full(some("70000"), None), Err(ErroConfig::PortaInvalida));
    assert_eq!(full(some(""), None), Err(ErroConfig::PortaInvalida));
}

#[test]
fn settings_need_sender_relay_user_and_password() {
    let s = || some("x@example.org");
    assert_eq!(
        Config::from_values(None, None, some("bad"), None, None, None),
        Err(ErroConfig::SemRemetente)
    );
    assert_eq!(
        Config::from_values(s(), None, some("bad"), None, None, None),
        Err(ErroConfig::SemRelay)
    );
    assert_eq!(
        Config::from_values(s(), s(), some("bad"), None, None, None),
        Err(ErroConfig::PortaInvalida)
    );
    assert_eq!(Config::from_values(s(), s(), None, None, None, None), Err(ErroConfig::SemUsuario));
    assert_eq!(Config::from_values(s(), s(), None, s(), None, None), Err(ErroConfig::SemSenha));
    assert!(Config::from_values(s(), s(), None, s(), s(), None).is_ok());
}

#[test]
fn settings_refuse_a_sender_that_is_no_mailbox() {
    for sender in ["", "ninguem", "a@", "@example.org", "Amigo <noreply>", "a b@example.org"] {
        assert_eq!(
            Config::from_values(some(sender), None, some("bad"), None, None, None),
            Err(ErroConfig::RemetenteInvalido)
        );
    }
}

#[test]
fn mailboxes_are_an_address_alone_or_after_a_name() {
    assert!(mailbox_ok("noreply@example.org"));
    assert!(mailbox_ok("Amigo Secreto <noreply@example.org>"));
    assert!(mailbox_ok("Ana <ana@example.org>"));
    assert!(!mailbox_ok(""));
    assert!(!mailbox_ok("Ana"));
    assert!(!mailbox_ok("Ana <ana>"));
    assert!(!mailbox_ok("ana@"));
}

#[test]
fn setting_faults_are_named() {
    assert_eq!(ErroConfig::SemRemetente.mensagem(), "SMTP_SENDER ausente");
    assert_eq!(ErroConfig::RemetenteInvalido.mensagem(), "SMTP_SENDER invalido");
    assert_eq!(ErroConfig::SemRelay.mensagem(), "SMTP_RELAY ausente");
    assert_eq!(ErroConfig::PortaInvalida.mensagem(), "SMTP_PORT invalida");
    assert_eq!(ErroConfig::SemUsuario.mensagem(), "SMTP_USER ausente");
    assert_eq!(ErroConfig::SemSenha.mensagem(), "SMTP_PASSWORD ausente");
}
