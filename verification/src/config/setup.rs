//! Setting up the Telegram bot: a random pairing code, and the first configuration file.

use vstd::prelude::*;
use rand::{rngs::OsRng, RngCore};
use crate::config::env_file::{named_line, parse_config_env_content, quoted, vars_of};
use crate::config::{
    find_var, is_servers_fault, normal_code, server_models, valid_servers, validate_servers,
    var_value, ConfigError, ConfigFault, PairingCode, ServerConfig, VarModel, BOIL_SERVERS_ENV,
};
use crate::number::{decimal, decimal_text};
use crate::text::{
    chars_of, is_blank, is_blank_text, is_space, lemma_trimmed_end_at, lemma_trimmed_start_at, rest,
    slice_text, upper_ascii, upper_char,
};

verus! {

/// How long a pairing code can be used, in seconds.
pub const TG_PAIR_TTL_SECONDS: u64 = 300;

// ---------------------------------------------------------------------------
// The pairing code
// ---------------------------------------------------------------------------

/// `OsRng::try_fill_bytes` of the crate `rand` fills the bytes from the random source
/// of the operating system, or fails with an error, of which the text is given. Nothing
/// is claimed of the bytes or of the text.
#[verifier::external_body]
fn random_bytes() -> (r: Result<[u8; 8], String>) {
    let mut bytes = [0_u8; 8];
    OsRng.try_fill_bytes(&mut bytes).map_err(|error| error.to_string())?;
    Ok(bytes)
}

/// The letters and digits of pairing codes, without those that look alike.
pub open spec fn alphabet() -> Seq<char> {
    seq![
        'A', 'B', 'C', 'D', 'E', 'F', 'G', 'H', 'J', 'K', 'L', 'M', 'N', 'P', 'Q', 'R',
        'S', 'T', 'U', 'V', 'W', 'X', 'Y', 'Z', '2', '3', '4', '5', '6', '7', '8', '9',
    ]
}

pub open spec fn code_char(byte: u8) -> char {
    alphabet()[byte as int % 32]
}

/// The pairing code made of eight bytes: two groups of four characters and a hyphen
/// between them.
pub open spec fn code_text(bytes: Seq<u8>) -> Seq<char> {
    seq![
        code_char(bytes[0]), code_char(bytes[1]), code_char(bytes[2]), code_char(bytes[3]),
        '-',
        code_char(bytes[4]), code_char(bytes[5]), code_char(bytes[6]), code_char(bytes[7]),
    ]
}

/// A text that some eight bytes give.
pub open spec fn is_generated_code(s: Seq<char>) -> bool {
    exists|bytes: Seq<u8>| bytes.len() == 8 && s == #[trigger] code_text(bytes)
}

fn to_code_char(byte: u8) -> (r: char)
    ensures
        r == code_char(byte),
{
    let i: u8 = byte % 32;
    if i < 8 {
        (65 + i) as char
    } else if i < 13 {
        (66 + i) as char
    } else if i < 24 {
        (67 + i) as char
    } else {
        (26 + i) as char
    }
}

proof fn lemma_code_char(byte: u8)
    ensures
        !is_space(code_char(byte)),
        upper_char(code_char(byte)) == code_char(byte),
{
}

/// A generated code is in the form in which codes are kept.
proof fn lemma_code_is_normal(bytes: Seq<u8>)
    requires
        bytes.len() == 8,
    ensures
        normal_code(code_text(bytes)) == code_text(bytes),
        !is_blank(code_text(bytes)),
{
    let s = code_text(bytes);
    lemma_code_char(bytes[0]);
    lemma_code_char(bytes[1]);
    lemma_code_char(bytes[2]);
    lemma_code_char(bytes[3]);
    lemma_code_char(bytes[4]);
    lemma_code_char(bytes[5]);
    lemma_code_char(bytes[6]);
    lemma_code_char(bytes[7]);
    assert(!is_space(s[0]));
    assert(!is_space(s[8]));
    lemma_trimmed_start_at(s, 0);
    assert(s.subrange(0, 9) =~= s);
    lemma_trimmed_end_at(s, 9);
    assert(upper_ascii(s) =~= s);
}

/// A code has two groups of four with a hyphen between them, and in them only capital letters
/// and digits that do not look like others: no I, O, 0 or 1. Two bytes give the same character
/// exactly where they are the same modulo 32, so that each is as likely as the others.
pub proof fn codes_have_no_look_alikes(bytes: Seq<u8>, i: int, a: u8, b: u8)
    requires
        bytes.len() == 8,
    ensures
        code_text(bytes).len() == 9,
        code_text(bytes)[4] == '-',
        0 <= i < 9 && i != 4 ==> {
            let c = code_text(bytes)[i];
            &&& 'A' <= c <= 'Z' || '0' <= c <= '9'
            &&& c != 'I' && c != 'O' && c != '0' && c != '1'
            &&& c == code_char(
                bytes[if i < 4 {
                    i
                } else {
                    i - 1
                }],
            )
        },
        code_char(a) == code_char(b) <==> a % 32 == b % 32,
{
    assert(forall|x: int, y: int| 0 <= x < y < 32 ==> alphabet()[x] != alphabet()[y]);
}

/// The pairing code made of eight bytes.
pub fn pairing_code_from(bytes: &[u8; 8]) -> (r: Result<PairingCode, ConfigError>)
    ensures
        r matches Ok(code) && code@ == code_text(bytes@),
{
    let mut s = String::new();
    let mut i: usize = 0;
    while i < 8
        invariant
            i <= 8,
            bytes@.len() == 8,
            s@ == code_text(bytes@).subrange(
                0,
                if i <= 4 {
                    i as int
                } else {
                    i + 1
                },
            ),
        decreases 8 - i,
    {
        if i == 4 {
            s.push('-');
            assert(s@ =~= code_text(bytes@).subrange(0, 5));
        }
        s.push(to_code_char(bytes[i]));
        i += 1;
        assert(s@ =~= code_text(bytes@).subrange(
            0,
            if i <= 4 {
                i as int
            } else {
                i + 1
            },
        ));
    }
    proof {
        assert(s@ =~= code_text(bytes@));
        lemma_code_is_normal(bytes@);
    }
    PairingCode::new(s)
}

/// The pairing code made of what was drawn from the random source: eight bytes, or the
/// text of an error, which is handed on.
pub fn pairing_code_of_draw(drawn: Result<[u8; 8], String>) -> (r: Result<
    PairingCode,
    ConfigError,
>)
    ensures
        match drawn {
            Ok(bytes) => r matches Ok(code) && code@ == code_text(bytes@),
            Err(text) => r matches Err(e) && e@ == ConfigFault::RandomSource(text@),
        },
{
    match drawn {
        Ok(bytes) => pairing_code_from(&bytes),
        Err(text) => Err(ConfigError::RandomSource(text)),
    }
}

/// A new pairing code. It is one of those that eight bytes can give; the random source
/// of the operating system decides which, or that there is none.
pub fn generate_pairing_code() -> (r: Result<PairingCode, ConfigError>)
    ensures
        match r {
            Ok(code) => is_generated_code(code@),
            Err(e) => e@ is RandomSource,
        },
{
    let drawn = random_bytes();
    proof {
        if let Ok(bytes) = drawn {
            assert(bytes@.len() == 8);
            assert(is_generated_code(code_text(bytes@)));
        }
    }
    pairing_code_of_draw(drawn)
}

/// When a pairing code that is made now can no longer be used, in Unix seconds.
pub fn pairing_expires_at(now: u64) -> (r: u64)
    requires
        now + TG_PAIR_TTL_SECONDS <= u64::MAX,
    ensures
        r == now + TG_PAIR_TTL_SECONDS,
        r == now + 5 * 60,
{
    now + TG_PAIR_TTL_SECONDS
}

// ---------------------------------------------------------------------------
// The first configuration file
// ---------------------------------------------------------------------------

pub struct TgSetupConfig<'a> {
    pub token: &'a str,
    pub pair_code: &'a PairingCode,
    pub pair_expires_at: u64,
}

/// The text of the JSON list of servers that a file holds; an empty list where it
/// holds none.
pub open spec fn stored_json(vars: Seq<VarModel>) -> Seq<char> {
    match var_value(vars, BOIL_SERVERS_ENV@) {
        Some(v) => v,
        None => "[]"@,
    }
}

pub fn stored_servers_json(existing: &str) -> (r: Result<String, ConfigError>)
    ensures
        match r {
            Ok(json) => vars_of(existing@) matches Ok(vars) && json@ == stored_json(vars),
            Err(e) => vars_of(existing@) == Err::<Seq<VarModel>, _>(e@),
        },
{
    let vars = match parse_config_env_content(existing) {
        Ok(v) => v,
        Err(e) => return Err(e),
    };
    match find_var(vars.as_slice(), BOIL_SERVERS_ENV) {
        Some(v) => Ok(v.to_owned()),
        None => Ok("[]".to_owned()),
    }
}

/// The file that the setup writes: the servers as they were, and the Telegram settings.
pub open spec fn setup_content(
    servers_json: Seq<char>,
    token: Seq<char>,
    code: Seq<char>,
    expires_at: nat,
) -> Seq<char> {
    ("BOIL_SERVERS="@ + quoted(servers_json)) + "\n"@ + ("TG_TOKEN="@ + quoted(token)) + "\n"@ + (
    "TG_PAIR_CODE="@ + quoted(code)) + "\n"@ + ("TG_PAIR_EXPIRES_AT="@ + decimal(expires_at))
        + "\n"@
}

/// The file that the setup writes. `servers` is what the JSON text of the servers in
/// `existing` decodes to, if it does, and `servers_json` is their text as it is to be
/// written.
pub fn build_tg_config_content(
    existing: &str,
    servers: &Option<Vec<ServerConfig>>,
    servers_json: &str,
    tg: TgSetupConfig<'_>,
) -> (r: Result<String, ConfigError>)
    ensures
        match vars_of(existing@) {
            Err(f) => r matches Err(e) && e@ == f,
            Ok(_) => match servers {
                None => r matches Err(e) && e@ == ConfigFault::StoredServersJson,
                Some(v) => match r {
                    Ok(text) => valid_servers(server_models(v@)) && text@ == setup_content(
                        servers_json@,
                        tg.token@,
                        tg.pair_code@,
                        tg.pair_expires_at as nat,
                    ),
                    Err(e) => is_servers_fault(server_models(v@), e@) && !valid_servers(
                        server_models(v@),
                    ),
                },
            },
        },
{
    match parse_config_env_content(existing) {
        Ok(_) => {},
        Err(e) => return Err(e),
    }
    match servers {
        None => Err(ConfigError::StoredServersJson),
        Some(v) => {
            match validate_servers(v.as_slice()) {
                Ok(_) => {},
                Err(e) => return Err(e),
            }
            let mut content = named_line("BOIL_SERVERS=", servers_json);
            content.append("\n");
            content.append(named_line("TG_TOKEN=", tg.token).as_str());
            content.append("\n");
            content.append(named_line("TG_PAIR_CODE=", tg.pair_code.expose_secret()).as_str());
            content.append("\n");
            let mut expires = "TG_PAIR_EXPIRES_AT=".to_owned();
            expires.append(decimal_text(tg.pair_expires_at).as_str());
            content.append(expires.as_str());
            content.append("\n");
            Ok(content)
        },
    }
}

// ---------------------------------------------------------------------------
// The steps of the setup
// ---------------------------------------------------------------------------

/// What the setup does next.
#[derive(Clone, Debug, PartialEq, Eq)]
pub enum SetupAction {
    /// Ask whether the configuration that is there shall stay.
    AskKeep,
    /// Leave everything as it is.
    KeepExisting,
    /// Ask for a bot token.
    AskToken,
    /// Write the configuration for this token; the bot has this name.
    Save { token: String, bot_name: String },
}

/// An existing configuration is only overwritten after a question, or by force.
pub fn setup_begin(existing: &str, forced: bool) -> (r: SetupAction)
    ensures
        r == (if !is_blank(existing@) && !forced {
            SetupAction::AskKeep
        } else {
            SetupAction::AskToken
        }),
{
    if !is_blank_text(existing) && !forced {
        SetupAction::AskKeep
    } else {
        SetupAction::AskToken
    }
}

pub fn setup_after_keep(keep: bool) -> (r: SetupAction)
    ensures
        r == (if keep {
            SetupAction::KeepExisting
        } else {
            SetupAction::AskToken
        }),
{
    if keep {
        SetupAction::KeepExisting
    } else {
        SetupAction::AskToken
    }
}

/// A token is asked for again until Telegram knows it; `bot_name` is the name that
/// Telegram gave for it.
pub fn setup_after_check(token: String, bot_name: Option<String>) -> (r: SetupAction)
    ensures
        match bot_name {
            Some(name) => r == (SetupAction::Save { token, bot_name: name }),
            None => r == SetupAction::AskToken,
        },
{
    match bot_name {
        Some(name) => SetupAction::Save { token, bot_name: name },
        None => SetupAction::AskToken,
    }
}

/// Where the configuration is read.
#[derive(Clone, Copy, Debug, PartialEq, Eq, Structural)]
pub enum ConfigPlace {
    /// `/etc/boil/config.env`
    System,
    /// `config.env` beside the program
    BesideProgram,
    /// `config.env` in the working directory
    WorkingDirectory,
}

/// The first of the three places where there is a file; the first one where there is none.
pub fn config_place(system: bool, beside_program: bool, working_directory: bool) -> (r: ConfigPlace)
    ensures
        r == (if system || !(beside_program || working_directory) {
            ConfigPlace::System
        } else if beside_program {
            ConfigPlace::BesideProgram
        } else {
            ConfigPlace::WorkingDirectory
        }),
{
    if system {
        ConfigPlace::System
    } else if beside_program {
        ConfigPlace::BesideProgram
    } else if working_directory {
        ConfigPlace::WorkingDirectory
    } else {
        ConfigPlace::System
    }
}

/// The place where the setup writes: the system's, where its directory is there.
pub fn setup_place(system_directory: bool) -> (r: ConfigPlace)
    ensures
        r == (if system_directory {
            ConfigPlace::System
        } else {
            ConfigPlace::WorkingDirectory
        }),
{
    if system_directory {
        ConfigPlace::System
    } else {
        ConfigPlace::WorkingDirectory
    }
}

/// A name without the at signs before it.
pub open spec fn without_ats(s: Seq<char>) -> Seq<char>
    decreases s.len(),
{
    if s.len() > 0 && s[0] == '@' {
        without_ats(rest(s, 1))
    } else {
        s
    }
}

/// The name of a bot as it is written in a chat.
pub fn bot_mention(name: &str) -> (r: String)
    ensures
        r@ == "@"@ + without_ats(name@),
{
    let cs = chars_of(name);
    let mut i: usize = 0;
    assert(rest(name@, 0) =~= name@);
    while i < cs.len() && cs[i] == '@'
        invariant
            i <= cs@.len(),
            cs@ == name@,
            without_ats(name@) == without_ats(rest(name@, i as int)),
        decreases cs@.len() - i,
    {
        proof {
            let t = rest(name@, i as int);
            assert(t[0] == cs@[i as int]);
            assert(rest(t, 1) =~= rest(name@, i + 1));
        }
        i += 1;
    }
    proof {
        let t = rest(name@, i as int);
        if i < cs@.len() {
            assert(t[0] == cs@[i as int]);
        }
        assert(without_ats(t) == t);
    }
    let mut r = "@".to_owned();
    r.append(slice_text(&cs, i, cs.len()).as_str());
    r
}

/// A name is written with one at sign, however many it has in front.
pub proof fn mention_has_one_at(name: Seq<char>) -> (n: int)
    ensures
        0 <= n <= name.len(),
        without_ats(name) == name.subrange(n, name.len() as int),
        forall|i: int| 0 <= i < n ==> #[trigger] name[i] == '@',
        n < name.len() ==> name[n] != '@',
    decreases name.len(),
{
    if name.len() > 0 && name[0] == '@' {
        let t = rest(name, 1);
        let m = mention_has_one_at(t);
        assert(t.subrange(m, t.len() as int) =~= name.subrange(m + 1, name.len() as int));
        assert forall|i: int| 0 <= i < m + 1 implies #[trigger] name[i] == '@' by {
            if i > 0 {
                assert(t[i - 1] == name[i]);
            }
        }
        if m < t.len() {
            assert(t[m] == name[m + 1]);
        }
        m + 1
    } else {
        assert(name.subrange(0, name.len() as int) =~= name);
        0
    }
}

} // verus!
