//! What a run needs to know of its surroundings: who sends the mail, through
//! which relay, and where the records are kept.
//!
//! The settings come as text, each one present or absent. The sender, the
//! relay, the user and the password must be there, and the sender must be a
//! mailbox; the port and the path of the store have defaults.

use crate::mailbox::is_mailbox;
use crate::mailbox::mailbox_ok;
use vstd::prelude::*;
use vstd::string::StrSliceExecFns;
use vstd::string::StringExecFns;

verus! {

/// The port of the relay where none is given.
pub const DEFAULT_PORT: u16 = 587;

/// The settings of the mail relay and of the store.
#[derive(Debug, PartialEq, Eq)]
pub struct Config {
    pub smtp_sender: String,
    pub smtp_relay: String,
    pub smtp_port: u16,
    pub smtp_username: String,
    pub smtp_password: String,
    pub subject: String,
    pub db_path: String,
}

/// The settings that cannot be used.
#[derive(Debug, PartialEq, Eq, Clone, Copy, Structural)]
pub enum ErroConfig {
    /// No sender is given.
    SemRemetente,
    /// The sender is not a mailbox.
    RemetenteInvalido,
    /// No relay is given.
    SemRelay,
    /// The port is not a number from 0 to 65535.
    PortaInvalida,
    /// No user is given.
    SemUsuario,
    /// No password is given.
    SemSenha,
}

/// Whether `c` is a decimal digit.
pub open spec fn is_digit(c: char) -> bool {
    '0' <= c <= '9'
}

/// The value of the digit `c`.
pub open spec fn digit_value(c: char) -> nat {
    (c as int - 48) as nat
}

/// The number that the digits `s` write in decimal.
pub open spec fn number(s: Seq<char>) -> nat
    decreases s.len(),
{
    if s.len() == 0 {
        0
    } else {
        number(s.drop_last()) * 10 + digit_value(s.last())
    }
}

/// `s` without the plus sign that may stand in front of a number.
pub open spec fn unsigned(s: Seq<char>) -> Seq<char> {
    if s.len() > 0 && s[0] == '+' {
        s.drop_first()
    } else {
        s
    }
}

/// The port that `s` writes: one or more decimal digits, after a plus sign or
/// without one, that make a number up to 65535. `None` for any other text.
pub open spec fn port_of(s: Seq<char>) -> Option<u16> {
    let d = unsigned(s);
    if d.len() > 0 && (forall|i: int| 0 <= i < d.len() ==> is_digit(#[trigger] d[i])) && number(d)
        <= u16::MAX {
        Some(number(d) as u16)
    } else {
        None
    }
}

/// A number is not below the number that a part of its digits from the left
/// writes.
proof fn lemma_number_grows(s: Seq<char>, k: int)
    requires
        0 <= k <= s.len(),
    ensures
        number(s.take(k)) <= number(s),
    decreases s.len() - k,
{
    if k == s.len() {
        assert(s.take(k) == s);
    } else {
        lemma_number_grows(s, k + 1);
        assert(s.take(k + 1).drop_last() == s.take(k));
    }
}

/// Reads a port.
pub fn parse_port(texto: &str) -> (porta: Option<u16>)
    ensures
        porta == port_of(texto@),
{
    let n = texto.unicode_len();
    if n == 0 {
        return None;
    }
    let start: usize = if texto.get_char(0) == '+' {
        1
    } else {
        0
    };
    if start == n {
        return None;
    }
    let ghost d = unsigned(texto@);
    let mut valor: u32 = 0;
    let mut i: usize = start;
    assert(d.take(0) == Seq::<char>::empty());
    while i < n
        invariant
            start <= i <= n,
            n == texto@.len(),
            start <= 1,
            d == unsigned(texto@),
            d.len() == n - start,
            forall|k: int| 0 <= k < d.len() ==> d[k] == texto@[k + start],
            forall|k: int| 0 <= k < i - start ==> is_digit(#[trigger] d[k]),
            valor == number(d.take(i - start)),
            valor <= u16::MAX,
        decreases n - i,
    {
        let c = texto.get_char(i);
        if c < '0' || c > '9' {
            assert(!is_digit(d[i - start]));
            return None;
        }
        let digito = c as u32 - 48;
        proof {
            assert(d.take(i - start + 1).drop_last() == d.take(i - start));
            assert(d.take(i - start + 1).last() == c);
        }
        valor = valor * 10 + digito;
        if valor > 65535 {
            proof {
                lemma_number_grows(d, i - start + 1);
            }
            return None;
        }
        i += 1;
    }
    assert(d.take(i - start) == d);
    Some(valor as u16)
}

impl Config {
    /// The settings from what the surroundings give. The sender, the relay,
    /// the user and the password must be given, and the sender must be a
    /// mailbox; the port is 587 where none is given, and must be a port where
    /// one is; the store is `sqlite.db` where no path is given. The subject of
    /// the mails is `Amigo Secreto`. Of several faults the first in this order
    /// is reported: sender, relay, port, user, password.
    pub fn from_values(
        smtp_sender: Option<String>,
        smtp_relay: Option<String>,
        smtp_port: Option<String>,
        smtp_username: Option<String>,
        smtp_password: Option<String>,
        db_path: Option<String>,
    ) -> (config: Result<Config, ErroConfig>)
        ensures
            config is Ok <==> smtp_sender is Some && is_mailbox(smtp_sender->0@) && smtp_relay
                is Some && (smtp_port matches Some(p) ==> port_of(p@) is Some) && smtp_username
                is Some && smtp_password is Some,
            config matches Ok(c) ==> {
                &&& c.smtp_sender == smtp_sender->0
                &&& c.smtp_relay == smtp_relay->0
                &&& c.smtp_port == match smtp_port {
                    Some(p) => port_of(p@)->0,
                    None => DEFAULT_PORT,
                }
                &&& c.smtp_username == smtp_username->0
                &&& c.smtp_password == smtp_password->0
                &&& c.subject@ == "Amigo Secreto"@
                &&& c.db_path@ == match db_path {
                    Some(p) => p@,
                    None => "sqlite.db"@,
                }
            },
            config matches Err(e) ==> e == if smtp_sender is None {
                ErroConfig::SemRemetente
            } else if !is_mailbox(smtp_sender->0@) {
                ErroConfig::RemetenteInvalido
            } else if smtp_relay is None {
                ErroConfig::SemRelay
            } else if smtp_port is Some && port_of(smtp_port->0@) is None {
                ErroConfig::PortaInvalida
            } else if smtp_username is None {
                ErroConfig::SemUsuario
            } else {
                ErroConfig::SemSenha
            },
    {
        let smtp_sender = match smtp_sender {
            Some(s) => s,
            None => {
                return Err(ErroConfig::SemRemetente);
            },
        };
        if !mailbox_ok(smtp_sender.as_str()) {
            return Err(ErroConfig::RemetenteInvalido);
        }
        let smtp_relay = match smtp_relay {
            Some(s) => s,
            None => {
                return Err(ErroConfig::SemRelay);
            },
        };
        let smtp_port = match smtp_port {
            Some(p) => match parse_port(p.as_str()) {
                Some(porta) => porta,
                None => {
                    return Err(ErroConfig::PortaInvalida);
                },
            },
            None => DEFAULT_PORT,
        };
        let smtp_username = match smtp_username {
            Some(s) => s,
            None => {
                return Err(ErroConfig::SemUsuario);
            },
        };
        let smtp_password = match smtp_password {
            Some(s) => s,
            None => {
                return Err(ErroConfig::SemSenha);
            },
        };
        let db_path = match db_path {
            Some(p) => p,
            None => String::from_str("sqlite.db"),
        };
        Ok(
            Config {
                smtp_sender,
                smtp_relay,
                smtp_port,
                smtp_username,
                smtp_password,
                subject: String::from_str("Amigo Secreto"),
                db_path,
            },
        )
    }
}

impl ErroConfig {
    /// A sentence that says which setting is at fault.
    pub fn mensagem(&self) -> (texto: String)
        ensures
            texto@ == match *self {
                ErroConfig::SemRemetente => "SMTP_SENDER ausente"@,
                ErroConfig::RemetenteInvalido => "SMTP_SENDER invalido"@,
                ErroConfig::SemRelay => "SMTP_RELAY ausente"@,
                ErroConfig::PortaInvalida => "SMTP_PORT invalida"@,
                ErroConfig::SemUsuario => "SMTP_USER ausente"@,
                ErroConfig::SemSenha => "SMTP_PASSWORD ausente"@,
            },
    {
        match self {
            ErroConfig::SemRemetente => String::from_str("SMTP_SENDER ausente"),
            ErroConfig::RemetenteInvalido => String::from_str("SMTP_SENDER invalido"),
            ErroConfig::SemRelay => String::from_str("SMTP_RELAY ausente"),
            ErroConfig::PortaInvalida => String::from_str("SMTP_PORT invalida"),
            ErroConfig::SemUsuario => String::from_str("SMTP_USER ausente"),
            ErroConfig::SemSenha => String::from_str("SMTP_PASSWORD ausente"),
        }
    }
}

} // verus!
