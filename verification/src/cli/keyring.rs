//! The key material a service is configured with.
//!
//! Two files, both the deployment's to protect: the keyring, which says which callers this service
//! authenticates and what each may do, and the sealing secret key. Neither is ever echoed back in an
//! error: a message that quoted the offending key would put it in every log that captured the
//! failure.

use vstd::prelude::*;
use vstd::string::*;
use vstd::utf8::*;

use crate::cli::error::{config_fault, Error, Fault};
use crate::hexed::{hex_bytes, hex_decode, is_hex};
use crate::path::{utf8_lossy, OsPath};
use crate::text::{copied, copied_texts, decimal, decimal_text, same, texts, trim, trimmed};

verus! {

/// Length of a sealing key, in bytes.
pub const KEY_LEN: usize = 32;

/// What a caller may do.
#[derive(Debug, Clone, Copy, PartialEq, Eq, Structural)]
pub enum Role {
    /// Read.
    Reader,
    /// Read and write.
    Writer,
    /// Read what only operators may.
    Operator,
}

/// One caller's credential as the keyring file spells it.
#[derive(Debug)]
pub struct CallerEntry {
    /// The agent identity it authenticates.
    pub agent: String,
    /// `reader`, `writer` or `operator`.
    pub role: String,
    /// Current signing key, hex encoded.
    pub key: String,
    /// The key most recently rolled away from, still accepted.
    pub previous_key: Option<String>,
    /// Teams whose team-visible records this caller may read.
    pub teams: Vec<String>,
    /// Whether this caller may file records derived from a subject.
    pub files_subject_derived: bool,
}

/// One caller's credential.
#[derive(Debug)]
pub struct Credential {
    /// The agent identity it authenticates.
    pub agent: String,
    /// What the caller may do.
    pub role: Role,
    /// The key it signs with.
    pub current: Vec<u8>,
    /// The key it signed with before the last roll.
    pub previous: Option<Vec<u8>>,
    /// Teams whose team-visible records it may read.
    pub teams: Vec<String>,
    /// Whether it may file records derived from a subject.
    pub files_subject_derived: bool,
}

/// A credential as a contract speaks of it.
pub struct CredentialModel {
    /// The agent.
    pub agent: Seq<char>,
    /// What it may do.
    pub role: Role,
    /// The key it signs with.
    pub current: Seq<u8>,
    /// The key it signed with before.
    pub previous: Option<Seq<u8>>,
    /// Its teams.
    pub teams: Seq<Seq<char>>,
    /// Whether it may file records derived from a subject.
    pub files_subject_derived: bool,
}

impl View for Credential {
    type V = CredentialModel;

    open spec fn view(&self) -> CredentialModel {
        CredentialModel {
            agent: self.agent@,
            role: self.role,
            current: self.current@,
            previous: match self.previous {
                Some(key) => Some(key@),
                None => None,
            },
            teams: texts(self.teams@),
            files_subject_derived: self.files_subject_derived,
        }
    }
}

/// The credentials of a list.
pub open spec fn credential_models(list: Seq<Credential>) -> Seq<CredentialModel> {
    list.map_values(|credential: Credential| credential@)
}

/// The role a name stands for, or the refusal that names the caller it belongs to.
pub open spec fn role_of(named: Seq<char>, agent: Seq<char>) -> Result<Role, Fault> {
    if named == "reader"@ {
        Ok(Role::Reader)
    } else if named == "writer"@ {
        Ok(Role::Writer)
    } else if named == "operator"@ {
        Ok(Role::Operator)
    } else {
        Err(
            config_fault(
                "caller `"@ + agent + "` has role `"@ + named
                    + "`: expected reader, writer or operator"@,
            ),
        )
    }
}

/// One role name, or the refusal that names the caller it belongs to.
pub fn role(named: &str, agent: &str) -> (role: Result<Role, Error>)
    ensures
        match (role, role_of(named@, agent@)) {
            (Ok(role), Ok(model)) => role == model,
            (Err(error), Err(fault)) => error@ == fault,
            _ => false,
        },
{
    if same(named, "reader") {
        Ok(Role::Reader)
    } else if same(named, "writer") {
        Ok(Role::Writer)
    } else if same(named, "operator") {
        Ok(Role::Operator)
    } else {
        Err(
            Error::Config(
                String::from_str("caller `").concat(agent).concat("` has role `").concat(
                    named,
                ).concat("`: expected reader, writer or operator"),
            ),
        )
    }
}

/// The bytes a hex-encoded text stands for once the space around it is gone, if it is one.
pub open spec fn decoded(text: Seq<char>) -> Option<Seq<u8>> {
    let bytes = encode_utf8(trim(text));
    if is_hex(bytes) {
        Some(hex_bytes(bytes))
    } else {
        None
    }
}

/// The signing key a text spells, or the refusal, which names the caller and the field and never the
/// key.
pub open spec fn key_of(text: Seq<char>, agent: Seq<char>, field: Seq<char>) -> Result<
    Seq<u8>,
    Fault,
> {
    match decoded(text) {
        None => Err(config_fault("caller `"@ + agent + "`: "@ + field + " is not hex"@)),
        Some(bytes) => if bytes.len() == 0 {
            Err(config_fault("caller `"@ + agent + "`: "@ + field + " is empty"@))
        } else {
            Ok(bytes)
        },
    }
}

/// One hex-encoded signing key. The key itself never reaches the message.
pub fn key(text: &str, agent: &str, field: &str) -> (key: Result<Vec<u8>, Error>)
    ensures
        match (key, key_of(text@, agent@, field@)) {
            (Ok(key), Ok(model)) => key@ == model,
            (Err(error), Err(fault)) => error@ == fault,
            _ => false,
        },
{
    match hex_decode(trimmed(text).as_str()) {
        None => Err(
            Error::Config(
                String::from_str("caller `").concat(agent).concat("`: ").concat(field).concat(
                    " is not hex",
                ),
            ),
        ),
        Some(bytes) => {
            if bytes.len() == 0 {
                Err(
                    Error::Config(
                        String::from_str("caller `").concat(agent).concat("`: ").concat(
                            field,
                        ).concat(" is empty"),
                    ),
                )
            } else {
                Ok(bytes)
            }
        },
    }
}

/// The credential an entry of the keyring stands for.
pub open spec fn credential_of(entry: CallerEntry) -> Result<CredentialModel, Fault> {
    match role_of(entry.role@, entry.agent@) {
        Err(fault) => Err(fault),
        Ok(role) => match key_of(entry.key@, entry.agent@, "key"@) {
            Err(fault) => Err(fault),
            Ok(current) => match entry.previous_key {
                None => Ok(
                    CredentialModel {
                        agent: entry.agent@,
                        role,
                        current,
                        previous: None,
                        teams: texts(entry.teams@),
                        files_subject_derived: entry.files_subject_derived,
                    },
                ),
                Some(previous) => match key_of(previous@, entry.agent@, "previous_key"@) {
                    Err(fault) => Err(fault),
                    Ok(previous) => Ok(
                        CredentialModel {
                            agent: entry.agent@,
                            role,
                            current,
                            previous: Some(previous),
                            teams: texts(entry.teams@),
                            files_subject_derived: entry.files_subject_derived,
                        },
                    ),
                },
            },
        },
    }
}

/// The credential an entry of the keyring stands for.
pub fn credential(entry: &CallerEntry) -> (credential: Result<Credential, Error>)
    ensures
        match (credential, credential_of(*entry)) {
            (Ok(credential), Ok(model)) => credential@ == model,
            (Err(error), Err(fault)) => error@ == fault,
            _ => false,
        },
{
    let role = match role(entry.role.as_str(), entry.agent.as_str()) {
        Err(error) => {
            return Err(error);
        },
        Ok(role) => role,
    };
    let current = match key(entry.key.as_str(), entry.agent.as_str(), "key") {
        Err(error) => {
            return Err(error);
        },
        Ok(current) => current,
    };
    let previous = match &entry.previous_key {
        None => None,
        Some(text) => match key(text.as_str(), entry.agent.as_str(), "previous_key") {
            Err(error) => {
                return Err(error);
            },
            Ok(previous) => Some(previous),
        },
    };
    Ok(
        Credential {
            agent: copied(&entry.agent),
            role,
            current,
            previous,
            teams: copied_texts(&entry.teams),
            files_subject_derived: entry.files_subject_derived,
        },
    )
}

/// The credentials some entries stand for, or the first thing wrong with them.
pub open spec fn credentials_of(entries: Seq<CallerEntry>) -> Result<Seq<CredentialModel>, Fault>
    decreases entries.len(),
{
    if entries.len() == 0 {
        Ok(seq![])
    } else {
        match credentials_of(entries.drop_last()) {
            Err(fault) => Err(fault),
            Ok(list) => match credential_of(entries.last()) {
                Err(fault) => Err(fault),
                Ok(credential) => Ok(list.push(credential)),
            },
        }
    }
}

proof fn lemma_fault_stays(entries: Seq<CallerEntry>, n: int, fault: Fault)
    requires
        0 <= n <= entries.len(),
        credentials_of(entries.take(n)) == Err::<Seq<CredentialModel>, Fault>(fault),
    ensures
        credentials_of(entries) == Err::<Seq<CredentialModel>, Fault>(fault),
    decreases entries.len() - n,
{
    if n == entries.len() {
        assert(entries.take(n) =~= entries);
    } else {
        assert(entries.take(n + 1).drop_last() =~= entries.take(n));
        lemma_fault_stays(entries, n + 1, fault);
    }
}

/// What a keyring file comes to: a credential for every caller, and at least one caller.
pub open spec fn keyring_of(path: Seq<u8>, entries: Seq<CallerEntry>) -> Result<
    Seq<CredentialModel>,
    Fault,
> {
    if entries.len() == 0 {
        Err(
            config_fault(
                "--keyring "@ + utf8_lossy(path)
                    + " names no callers, so this service would authenticate nobody"@,
            ),
        )
    } else {
        credentials_of(entries)
    }
}

/// Reads the keyring out of the callers its file names, refusing anything it cannot use.
///
/// Checked at startup rather than at the first request: a caller whose key will not decode is a
/// caller that fails to authenticate for ever.
pub fn load(path: &OsPath, entries: &Vec<CallerEntry>) -> (keyring: Result<Vec<Credential>, Error>)
    ensures
        match (keyring, keyring_of(path@, entries@)) {
            (Ok(list), Ok(model)) => credential_models(list@) == model,
            (Err(error), Err(fault)) => error@ == fault,
            _ => false,
        },
{
    if entries.len() == 0 {
        return Err(
            Error::Config(
                String::from_str("--keyring ").concat(path.display().as_str()).concat(
                    " names no callers, so this service would authenticate nobody",
                ),
            ),
        );
    }
    let mut list: Vec<Credential> = Vec::new();
    let mut i: usize = 0;
    assert(credential_models(list@) =~= seq![]);
    while i < entries.len()
        invariant
            i <= entries@.len(),
            entries@.len() > 0,
            credentials_of(entries@.take(i as int)) == Ok::<Seq<CredentialModel>, Fault>(
                credential_models(list@),
            ),
        decreases entries@.len() - i,
    {
        let ghost before = list@;
        proof {
            assert(entries@.take(i + 1).drop_last() =~= entries@.take(i as int));
            assert(entries@.take(i + 1).last() == entries@[i as int]);
        }
        match credential(&entries[i]) {
            Err(error) => {
                proof {
                    lemma_fault_stays(entries@, i + 1, error@);
                }
                return Err(error);
            },
            Ok(one) => {
                list.push(one);
                assert(credential_models(list@) =~= credential_models(before).push(one@));
            },
        }
        i += 1;
    }
    assert(entries@.take(entries@.len() as int) =~= entries@);
    Ok(list)
}

/// A keyring file that could not be read or parsed.
pub fn unusable(path: &OsPath, cause: &str) -> (error: Error)
    ensures
        error@ == config_fault("--keyring "@ + utf8_lossy(path@) + ": "@ + cause@),
{
    Error::Config(
        String::from_str("--keyring ").concat(path.display().as_str()).concat(": ").concat(cause),
    )
}

/// What a sealing-key file comes to: the secret, which has to be hex and of one length.
pub open spec fn unseal_key_of(path: Seq<u8>, text: Seq<char>) -> Result<Seq<u8>, Fault> {
    match decoded(text) {
        None => Err(
            config_fault(
                "--unseal-key-file "@ + utf8_lossy(path) + " is not hex; it holds "@ + decimal(
                    KEY_LEN as nat,
                ) + " bytes of hex-encoded secret key"@,
            ),
        ),
        Some(secret) => if secret.len() != KEY_LEN {
            Err(
                config_fault(
                    "--unseal-key-file "@ + utf8_lossy(path) + " decodes to "@ + decimal(
                        secret.len(),
                    ) + " bytes, expected "@ + decimal(KEY_LEN as nat),
                ),
            )
        } else {
            Ok(secret)
        },
    }
}

/// The secret half of the key sidecars seal to, out of the text of its file.
pub fn unseal_key(path: &OsPath, text: &str) -> (secret: Result<Vec<u8>, Error>)
    ensures
        match (secret, unseal_key_of(path@, text@)) {
            (Ok(secret), Ok(model)) => secret@ == model,
            (Err(error), Err(fault)) => error@ == fault,
            _ => false,
        },
{
    match hex_decode(trimmed(text).as_str()) {
        None => Err(
            Error::Config(
                String::from_str("--unseal-key-file ").concat(path.display().as_str()).concat(
                    " is not hex; it holds ",
                ).concat(decimal_text(KEY_LEN as u64).as_str()).concat(
                    " bytes of hex-encoded secret key",
                ),
            ),
        ),
        Some(secret) => {
            if secret.len() != KEY_LEN {
                Err(
                    Error::Config(
                        String::from_str("--unseal-key-file ").concat(
                            path.display().as_str(),
                        ).concat(" decodes to ").concat(
                            decimal_text(secret.len() as u64).as_str(),
                        ).concat(" bytes, expected ").concat(
                            decimal_text(KEY_LEN as u64).as_str(),
                        ),
                    ),
                )
            } else {
                Ok(secret)
            }
        },
    }
}

/// A sealing-key file that could not be read.
pub fn unreadable_unseal_key(path: &OsPath, cause: &str) -> (error: Error)
    ensures
        error@ == config_fault("--unseal-key-file "@ + utf8_lossy(path@) + ": "@ + cause@),
{
    Error::Config(
        String::from_str("--unseal-key-file ").concat(path.display().as_str()).concat(
            ": ",
        ).concat(cause),
    )
}

/// A refusal does not depend on the key it refuses beyond whether it is hex, so no message can carry
/// one: two texts that are both no keys, and for the same reason, are refused alike.
pub proof fn law_a_refusal_tells_nothing_of_the_key(
    one: Seq<char>,
    other: Seq<char>,
    agent: Seq<char>,
    field: Seq<char>,
    path: Seq<u8>,
)
    requires
        decoded(one) is None <==> decoded(other) is None,
    ensures
        key_of(one, agent, field) is Err && key_of(other, agent, field) is Err ==> key_of(
            one,
            agent,
            field,
        ) == key_of(other, agent, field),
        decoded(one) is None ==> unseal_key_of(path, one) == unseal_key_of(path, other),
{
}

/// Whether a credential is the one its entry spells, field by field: the agent and the teams as they
/// are named, the role by its word, each key the bytes its trimmed hex says, and the grant.
pub open spec fn spells(entry: CallerEntry, credential: CredentialModel) -> bool {
    &&& credential.agent == entry.agent@
    &&& credential.role is Reader <==> entry.role@ == "reader"@
    &&& credential.role is Writer <==> entry.role@ == "writer"@
    &&& credential.role is Operator <==> entry.role@ == "operator"@
    &&& is_hex(encode_utf8(trim(entry.key@)))
    &&& credential.current == hex_bytes(encode_utf8(trim(entry.key@)))
    &&& credential.current.len() > 0
    &&& match (entry.previous_key, credential.previous) {
        (Some(text), Some(key)) => is_hex(encode_utf8(trim(text@))) && key == hex_bytes(
            encode_utf8(trim(text@)),
        ) && key.len() > 0,
        (None, None) => true,
        _ => false,
    }
    &&& texts(entry.teams@) == credential.teams
    &&& credential.files_subject_derived == entry.files_subject_derived
}

/// Whether a text holds a key: hex, whatever white space is around it, and not nothing.
pub open spec fn holds_a_key(text: Seq<char>) -> bool {
    is_hex(encode_utf8(trim(text))) && encode_utf8(trim(text)).len() > 0
}

/// Whether an entry says enough to authenticate its caller.
pub open spec fn is_usable(entry: CallerEntry) -> bool {
    &&& entry.role@ == "reader"@ || entry.role@ == "writer"@ || entry.role@ == "operator"@
    &&& holds_a_key(entry.key@)
    &&& entry.previous_key matches Some(text) ==> holds_a_key(text@)
}

proof fn lemma_role_words()
    ensures
        "reader"@ != "writer"@,
        "reader"@ != "operator"@,
        "writer"@ != "operator"@,
{
    reveal_strlit("reader");
    reveal_strlit("writer");
    reveal_strlit("operator");
    assert("reader"@[0] != "writer"@[0]);
    assert("operator"@.len() == 8);
}

/// A keyring that loads authenticates every caller its file names, in the order it names them, each
/// under its own name, with the role its entry spells and no other, with the keys and the teams its
/// entry gives, and with the grant its entry makes and no other.
pub proof fn law_a_keyring_authenticates_exactly_its_callers(
    path: Seq<u8>,
    entries: Seq<CallerEntry>,
)
    ensures
        keyring_of(path, entries) matches Ok(list) ==> {
            &&& list.len() == entries.len()
            &&& list.len() > 0
            &&& forall|i: int|
                0 <= i < list.len() ==> {
                    &&& (#[trigger] list[i]).agent == entries[i].agent@
                    &&& list[i].role is Reader <==> entries[i].role@ == "reader"@
                    &&& list[i].role is Writer <==> entries[i].role@ == "writer"@
                    &&& list[i].role is Operator <==> entries[i].role@ == "operator"@
                    &&& list[i].current.len() > 0
                    &&& list[i].previous is Some <==> entries[i].previous_key is Some
                    &&& list[i].files_subject_derived == entries[i].files_subject_derived
                    &&& spells(entries[i], list[i])
                }
        },
{
    if entries.len() > 0 {
        lemma_credentials(entries);
    }
}

proof fn lemma_usable(entries: Seq<CallerEntry>)
    ensures
        credentials_of(entries) is Ok <==> forall|i: int|
            0 <= i < entries.len() ==> is_usable(#[trigger] entries[i]),
        credentials_of(entries) matches Err(fault) ==> fault.exit
            == crate::cli::exit::Exit::Config,
    decreases entries.len(),
{
    if entries.len() > 0 {
        let before = entries.drop_last();
        lemma_usable(before);
        let last = entries.last();
        assert(credential_of(last) is Ok <==> is_usable(last));
        assert(entries[entries.len() - 1] == last);
        if credentials_of(entries) is Ok {
            assert forall|i: int| 0 <= i < entries.len() implies is_usable(#[trigger] entries[i]) by {
                if i < before.len() {
                    assert(entries[i] == before[i]);
                }
            }
        } else if credentials_of(before) is Err {
            let i = choose|i: int| 0 <= i < before.len() && !is_usable(#[trigger] before[i]);
            assert(entries[i] == before[i]);
        }
    }
}

/// A keyring loads exactly where it names a caller and every entry is usable: a role it knows, and keys
/// that are hex and not empty. Anything else is a mistake in the configuration. An unsealing key loads
/// exactly where it is hex for thirty-two bytes, and is those bytes.
pub proof fn law_only_a_usable_keyring_loads(
    path: Seq<u8>,
    entries: Seq<CallerEntry>,
    text: Seq<char>,
)
    ensures
        keyring_of(path, entries) is Ok <==> entries.len() > 0 && forall|i: int|
            0 <= i < entries.len() ==> is_usable(#[trigger] entries[i]),
        keyring_of(path, entries) matches Err(fault) ==> fault.exit
            == crate::cli::exit::Exit::Config,
        unseal_key_of(path, text) is Ok <==> is_hex(encode_utf8(trim(text))) && encode_utf8(
            trim(text),
        ).len() == 64,
        unseal_key_of(path, text) matches Ok(secret) ==> secret == hex_bytes(
            encode_utf8(trim(text)),
        ),
        unseal_key_of(path, text) matches Err(fault) ==> fault.exit
            == crate::cli::exit::Exit::Config,
{
    if entries.len() > 0 {
        lemma_usable(entries);
    }
}

proof fn lemma_credentials(entries: Seq<CallerEntry>)
    ensures
        credentials_of(entries) matches Ok(list) ==> {
            &&& list.len() == entries.len()
            &&& forall|i: int|
                0 <= i < list.len() ==> spells(#[trigger] entries[i], list[i])
        },
    decreases entries.len(),
{
    lemma_role_words();
    if entries.len() > 0 {
        lemma_credentials(entries.drop_last());
        match credentials_of(entries) {
            Ok(list) => {
                let before = credentials_of(entries.drop_last())->Ok_0;
                assert forall|i: int| 0 <= i < list.len() implies spells(#[trigger] entries[i], list[i]) by {
                    if i < before.len() {
                        assert(entries.drop_last()[i] == entries[i]);
                        assert(before[i] == list[i]);
                    }
                }
            },
            Err(_) => {},
        }
    }
}

} // verus!
