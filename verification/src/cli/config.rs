//! Configuration, resolved once and shared.
//!
//! Two layers, in one order everywhere: a flag beats an environment variable, and an absent setting
//! either has a documented default or is a refusal. The environment and what the filesystem says
//! arrive as values, so what a deployment's settings come to is a function of its arguments.

use vstd::prelude::*;
use vstd::string::*;
use vstd::utf8::*;

use crate::agent::listener::{socket_models, CallerSocket, SocketModel};
use crate::cli::args::{AgentArgs, EmitArgs, ReadArgs, ServerArgs, StoreArgs};
use crate::cli::error::{config_fault, usage_fault, Error, Fault};
use crate::path::{among, copied_bytes, joined, same_place, utf8_lossy, OsPath};
use crate::text::{
    copied, decimal, decimal_text, lower_text, lowered, optional_text, parse_unsigned, same,
    split_at_first, split_once, trim, trimmed, unsigned, utf8_text,
};

verus! {

/// Environment variable naming the memory tree root.
pub const ENV_ROOT: &'static str = "YAAM_ROOT";

/// Environment variable naming the derived index.
pub const ENV_INDEX: &'static str = "YAAM_INDEX";

/// Environment variable naming the key store root.
pub const ENV_KEY_STORE: &'static str = "YAAM_KEY_STORE";

/// Environment variable naming the file that holds the key-wrapping passphrase.
pub const ENV_KEY_PASSPHRASE_FILE: &'static str = "YAAM_KEY_PASSPHRASE_FILE";

/// Environment variable naming the file that holds the secret pseudonyms are derived under.
pub const ENV_SUBJECT_KEY_FILE: &'static str = "YAAM_SUBJECT_KEY_FILE";

/// Environment variable naming the address the service listens on.
pub const ENV_LISTEN: &'static str = "YAAM_LISTEN";

/// Environment variable naming the keyring file.
pub const ENV_KEYRING: &'static str = "YAAM_KEYRING";

/// Environment variable naming the file holding the service's sealing secret key.
pub const ENV_UNSEAL_KEY: &'static str = "YAAM_UNSEAL_KEY_FILE";

/// Environment variable setting how often the service maintains its store.
pub const ENV_MAINTENANCE_MS: &'static str = "YAAM_MAINTENANCE_MS";

/// Environment variable naming the sidecar's state directory.
pub const ENV_AGENT_STATE: &'static str = "YAAM_AGENT_STATE";

/// Environment variable naming the caller socket records are written to.
pub const ENV_SOCKET: &'static str = "YAAM_SOCKET";

/// Environment variable naming the agent records are attributed to.
pub const ENV_AGENT: &'static str = "YAAM_AGENT";

/// Environment variable naming the caller's read socket.
pub const ENV_READ_SOCKET: &'static str = "YAAM_READ_SOCKET";

/// Environment variable setting the log level.
pub const ENV_LOG: &'static str = "YAAM_LOG";

/// Address the service listens on when nothing names one. Loopback: a default that is reachable from
/// the network is a deployment exposed by omission.
pub const DEFAULT_LISTEN: &'static str = "127.0.0.1:8787";

/// How often the service maintains its store when nothing says, in milliseconds.
pub const DEFAULT_MAINTENANCE_MS: u64 = 30_000;

/// The environment as the process found it: one field per variable that is read, each the bytes the
/// variable holds.
#[derive(Debug, Clone)]
pub struct Env {
    /// [`ENV_ROOT`].
    pub root: Option<Vec<u8>>,
    /// [`ENV_INDEX`].
    pub index: Option<Vec<u8>>,
    /// [`ENV_KEY_STORE`].
    pub key_store: Option<Vec<u8>>,
    /// [`ENV_KEY_PASSPHRASE_FILE`].
    pub key_passphrase_file: Option<Vec<u8>>,
    /// [`ENV_SUBJECT_KEY_FILE`].
    pub subject_key_file: Option<Vec<u8>>,
    /// [`ENV_LISTEN`].
    pub listen: Option<Vec<u8>>,
    /// [`ENV_KEYRING`].
    pub keyring: Option<Vec<u8>>,
    /// [`ENV_UNSEAL_KEY`].
    pub unseal_key_file: Option<Vec<u8>>,
    /// [`ENV_MAINTENANCE_MS`].
    pub maintenance_ms: Option<Vec<u8>>,
    /// [`ENV_AGENT_STATE`].
    pub agent_state: Option<Vec<u8>>,
    /// [`ENV_SOCKET`].
    pub socket: Option<Vec<u8>>,
    /// [`ENV_AGENT`].
    pub agent: Option<Vec<u8>>,
    /// [`ENV_READ_SOCKET`].
    pub read_socket: Option<Vec<u8>>,
    /// [`ENV_LOG`].
    pub log: Option<Vec<u8>>,
}

impl Default for Env {
    fn default() -> (env: Env)
        ensures
            env == (Env {
                root: None,
                index: None,
                key_store: None,
                key_passphrase_file: None,
                subject_key_file: None,
                listen: None,
                keyring: None,
                unseal_key_file: None,
                maintenance_ms: None,
                agent_state: None,
                socket: None,
                agent: None,
                read_socket: None,
                log: None,
            }),
    {
        Env {
            root: None,
            index: None,
            key_store: None,
            key_passphrase_file: None,
            subject_key_file: None,
            listen: None,
            keyring: None,
            unseal_key_file: None,
            maintenance_ms: None,
            agent_state: None,
            socket: None,
            agent: None,
            read_socket: None,
            log: None,
        }
    }
}

// ---------------------------------------------------------------------------------------------
// Precedence

/// The bytes of an optional path.
pub open spec fn path_given(path: Option<OsPath>) -> Option<Seq<u8>> {
    match path {
        Some(path) => Some(path@),
        None => None,
    }
}

/// The bytes of an optional variable.
pub open spec fn variable(value: Option<Vec<u8>>) -> Option<Seq<u8>> {
    match value {
        Some(value) => Some(value@),
        None => None,
    }
}

/// A flag, or the environment, or nothing. An empty variable is not a setting.
pub open spec fn picked(flag: Option<Seq<u8>>, from_env: Option<Seq<u8>>) -> Option<Seq<u8>> {
    match (flag, from_env) {
        (Some(flag), _) => Some(flag),
        (None, Some(value)) if value.len() > 0 => Some(value),
        _ => None,
    }
}

/// As [`picked`], for a setting that is text rather than a path: a variable that is not text is not
/// a setting either.
pub open spec fn picked_text(flag: Option<Seq<char>>, from_env: Option<Seq<u8>>) -> Option<
    Seq<char>,
> {
    match (flag, from_env) {
        (Some(flag), _) => Some(flag),
        (None, Some(value)) if valid_utf8(value) && decode_utf8(value).len() > 0 => Some(
            decode_utf8(value),
        ),
        _ => None,
    }
}

/// A flag, or the environment, or nothing.
pub fn pick(flag: &Option<OsPath>, from_env: &Option<Vec<u8>>) -> (setting: Option<OsPath>)
    ensures
        path_given(setting) == picked(path_given(*flag), variable(*from_env)),
{
    if let Some(flag) = flag {
        return Some(flag.copied());
    }
    if let Some(value) = from_env {
        if value.len() > 0 {
            return Some(OsPath { bytes: copied_bytes(value.as_slice()) });
        }
    }
    None
}

/// As [`pick`], for a setting that is text rather than a path.
pub fn pick_str(flag: &Option<String>, from_env: &Option<Vec<u8>>) -> (setting: Option<String>)
    ensures
        optional_text(setting) == picked_text(optional_text(*flag), variable(*from_env)),
{
    if let Some(flag) = flag {
        return Some(copied(flag));
    }
    if let Some(value) = from_env {
        if let Some(text) = utf8_text(value.as_slice()) {
            if !text.as_str().is_empty() {
                return Some(text);
            }
        }
    }
    None
}

/// A flag always wins, an empty variable is no setting, and nothing else is ever consulted.
pub proof fn law_a_flag_beats_the_environment(
    flag: Option<Seq<u8>>,
    text: Option<Seq<char>>,
    from_env: Option<Seq<u8>>,
)
    ensures
        flag is Some ==> picked(flag, from_env) == flag,
        text is Some ==> picked_text(text, from_env) == text,
        from_env is None ==> picked(flag, from_env) == flag && picked_text(text, from_env) == text,
        from_env == Some(Seq::<u8>::empty()) ==> picked(flag, from_env) == flag && picked_text(
            text,
            from_env,
        ) == text,
{
    let none = Seq::<u8>::empty();
    assert(decode_utf8(none) =~= seq![]);
}

// ---------------------------------------------------------------------------------------------
// The store

/// The paths a store is kept under.
#[derive(Debug)]
pub struct Paths {
    /// Root of the memory tree.
    pub root: OsPath,
    /// The derived index.
    pub index: OsPath,
    /// Root of the key store.
    pub key_store: OsPath,
}

/// The index a root has unless something relocates it.
pub open spec fn default_index(root: Seq<u8>) -> Seq<u8> {
    joined(root, encode_utf8("index.sqlite"@))
}

/// The key store a root has unless something relocates it.
pub open spec fn default_key_store(root: Seq<u8>) -> Seq<u8> {
    joined(root, encode_utf8("keystore"@))
}

impl Paths {
    /// Everything under one root.
    pub fn under(root: OsPath) -> (paths: Paths)
        ensures
            paths.root == root,
            paths.index@ == default_index(root@),
            paths.key_store@ == default_key_store(root@),
    {
        let index = root.join(&OsPath::from_text("index.sqlite"));
        let key_store = root.join(&OsPath::from_text("keystore"));
        Paths { root, index, key_store }
    }

    /// Whether the index is where the root puts it.
    pub fn index_is_default(&self) -> (is: bool)
        ensures
            is == same_place(self.index@, default_index(self.root@)),
    {
        self.index.is_same(&self.root.join(&OsPath::from_text("index.sqlite")))
    }

    /// Whether the key store is where the root puts it.
    pub fn key_store_is_default(&self) -> (is: bool)
        ensures
            is == same_place(self.key_store@, default_key_store(self.root@)),
    {
        self.key_store.is_same(&self.root.join(&OsPath::from_text("keystore")))
    }
}

/// Where this deployment's store is. Held by the service and the operator command line alike.
#[derive(Debug)]
pub struct StoreSettings {
    /// The paths the store is kept under.
    pub paths: Paths,
    /// Where the wrapping passphrase is read from, if key material is protected at all.
    pub key_passphrase_file: Option<OsPath>,
    /// Where the secret pseudonyms are derived under is read from, if there is one.
    pub subject_key_file: Option<OsPath>,
}

/// The memory root the flags and the environment name.
pub open spec fn root_of(flags: StoreArgs, env: Env) -> Option<Seq<u8>> {
    picked(path_given(flags.root), variable(env.root))
}

/// The index the flags and the environment name.
pub open spec fn index_of(flags: StoreArgs, env: Env) -> Option<Seq<u8>> {
    picked(path_given(flags.index), variable(env.index))
}

/// The key store the flags and the environment name.
pub open spec fn key_store_of(flags: StoreArgs, env: Env) -> Option<Seq<u8>> {
    picked(path_given(flags.key_store), variable(env.key_store))
}

/// Where a tree keeps its own configuration.
pub open spec fn spec_dir_of(root: Seq<u8>) -> Seq<u8> {
    joined(root, encode_utf8("spec"@))
}

/// What is wrong with store settings, if anything. `existing` asks for a tree that is already there:
/// a restore's destination is not one yet.
pub open spec fn store_fault(flags: StoreArgs, env: Env, dirs: Seq<OsPath>, existing: bool) -> Option<
    Fault,
> {
    match root_of(flags, env) {
        None => Some(
            config_fault("the memory tree root is not set: pass --root or set "@ + ENV_ROOT@),
        ),
        Some(root) => if existing && !among(root, dirs) {
            Some(config_fault("--root "@ + utf8_lossy(root) + " is not a directory"@))
        } else if existing && !among(spec_dir_of(root), dirs) {
            Some(
                config_fault(
                    "--root "@ + utf8_lossy(root)
                        + " carries no spec/: a memory tree holds its own entity kinds, attribute schema and redaction policy, and one without them rejects every record"@,
                ),
            )
        } else {
            match index_of(flags, env) {
                Some(index) if among(index, dirs) => Some(
                    config_fault(
                        "--index "@ + utf8_lossy(index)
                            + " is a directory; it names the index file itself"@,
                    ),
                ),
                _ => None,
            }
        },
    }
}

/// Whether settings are what the flags and the environment name.
pub open spec fn store_resolved(settings: StoreSettings, flags: StoreArgs, env: Env) -> bool {
    let root = root_of(flags, env)->0;
    &&& settings.paths.root@ == root
    &&& settings.paths.index@ == (match index_of(flags, env) {
        Some(index) => index,
        None => default_index(root),
    })
    &&& settings.paths.key_store@ == (match key_store_of(flags, env) {
        Some(key_store) => key_store,
        None => default_key_store(root),
    })
    &&& path_given(settings.key_passphrase_file) == picked(
        path_given(flags.key_passphrase_file),
        variable(env.key_passphrase_file),
    )
    &&& path_given(settings.subject_key_file) == picked(
        path_given(flags.subject_key_file),
        variable(env.subject_key_file),
    )
}

fn resolve_store(flags: &StoreArgs, env: &Env, dirs: &Vec<OsPath>, existing: bool) -> (settings:
    Result<StoreSettings, Error>)
    ensures
        match (settings, store_fault(*flags, *env, dirs@, existing)) {
            (Ok(settings), None) => root_of(*flags, *env) is Some && store_resolved(
                settings,
                *flags,
                *env,
            ),
            (Err(error), Some(fault)) => error@ == fault,
            _ => false,
        },
{
    let root = match pick(&flags.root, &env.root) {
        None => {
            return Err(
                Error::Config(
                    String::from_str(
                        "the memory tree root is not set: pass --root or set ",
                    ).concat(ENV_ROOT),
                ),
            );
        },
        Some(root) => root,
    };
    if existing && !root.is_among(dirs) {
        return Err(
            Error::Config(
                String::from_str("--root ").concat(root.display().as_str()).concat(
                    " is not a directory",
                ),
            ),
        );
    }
    if existing && !root.join(&OsPath::from_text("spec")).is_among(dirs) {
        return Err(
            Error::Config(
                String::from_str("--root ").concat(root.display().as_str()).concat(
                    " carries no spec/: a memory tree holds its own entity kinds, attribute schema and redaction policy, and one without them rejects every record",
                ),
            ),
        );
    }
    let mut paths = Paths::under(root);
    if let Some(index) = pick(&flags.index, &env.index) {
        if index.is_among(dirs) {
            return Err(
                Error::Config(
                    String::from_str("--index ").concat(index.display().as_str()).concat(
                        " is a directory; it names the index file itself",
                    ),
                ),
            );
        }
        paths.index = index;
    }
    if let Some(key_store) = pick(&flags.key_store, &env.key_store) {
        paths.key_store = key_store;
    }
    Ok(
        StoreSettings {
            paths,
            key_passphrase_file: pick(&flags.key_passphrase_file, &env.key_passphrase_file),
            subject_key_file: pick(&flags.subject_key_file, &env.subject_key_file),
        },
    )
}

/// One setting of a startup log.
#[derive(Debug)]
pub struct Described {
    /// What it is.
    pub name: &'static str,
    /// What it is set to.
    pub value: String,
}

/// A path as a startup log shows it, saying where it is not the default.
pub open spec fn relocated_text(path: Seq<u8>, default: Seq<u8>) -> Seq<char> {
    utf8_lossy(path) + (if same_place(path, default) {
        ""@
    } else {
        " (relocated)"@
    })
}

/// The paths whose being a directory decides what the flags and the environment come to: the root,
/// the spec inside it, and the index.
pub open spec fn asked_of(flags: StoreArgs, env: Env) -> Seq<Seq<u8>> {
    (match root_of(flags, env) {
        Some(root) => seq![root, spec_dir_of(root)],
        None => seq![],
    }) + (match index_of(flags, env) {
        Some(index) => seq![index],
        None => seq![],
    })
}

impl StoreSettings {
    /// The paths whose being a directory decides what the flags and the environment come to.
    pub fn asks(flags: &StoreArgs, env: &Env) -> (paths: Vec<OsPath>)
        ensures
            crate::cli::guard::path_bytes(paths@) == asked_of(*flags, *env),
    {
        let mut paths: Vec<OsPath> = Vec::new();
        if let Some(root) = pick(&flags.root, &env.root) {
            let inside = root.join(&OsPath::from_text("spec"));
            paths.push(root);
            paths.push(inside);
        }
        if let Some(index) = pick(&flags.index, &env.index) {
            paths.push(index);
        }
        assert(crate::cli::guard::path_bytes(paths@) =~= asked_of(*flags, *env));
        paths
    }

    /// Resolves the store settings from flags and the environment. `dirs` holds the paths among
    /// those of [`StoreSettings::asks`] that are directories.
    ///
    /// Refuses rather than guessing: a root that is absent, is not a directory, or carries no
    /// `spec/` is a deployment that would come up and reject every record it was sent.
    pub fn resolve(flags: &StoreArgs, env: &Env, dirs: &Vec<OsPath>) -> (settings: Result<
        StoreSettings,
        Error,
    >)
        ensures
            match (settings, store_fault(*flags, *env, dirs@, true)) {
                (Ok(settings), None) => root_of(*flags, *env) is Some && store_resolved(
                    settings,
                    *flags,
                    *env,
                ),
                (Err(error), Some(fault)) => error@ == fault,
                _ => false,
            },
    {
        resolve_store(flags, env, dirs, true)
    }

    /// As [`StoreSettings::resolve`], for the destination of a restore, which is not a store yet:
    /// `spec/` arrives inside the backup.
    pub fn resolve_destination(flags: &StoreArgs, env: &Env, dirs: &Vec<OsPath>) -> (settings: Result<
        StoreSettings,
        Error,
    >)
        ensures
            match (settings, store_fault(*flags, *env, dirs@, false)) {
                (Ok(settings), None) => root_of(*flags, *env) is Some && store_resolved(
                    settings,
                    *flags,
                    *env,
                ),
                (Err(error), Some(fault)) => error@ == fault,
                _ => false,
            },
    {
        resolve_store(flags, env, dirs, false)
    }

    /// The effective settings, as one line per setting, for a startup log. Paths only: nothing here
    /// may carry a key, a keyring entry or a signing secret.
    pub fn describe(&self) -> (lines: Vec<Described>)
        ensures
            lines@.len() == 3,
            lines@[0].name@ == "root"@,
            lines@[0].value@ == utf8_lossy(self.paths.root@),
            lines@[1].name@ == "index"@,
            lines@[1].value@ == relocated_text(
                self.paths.index@,
                default_index(self.paths.root@),
            ),
            lines@[2].name@ == "key-store"@,
            lines@[2].value@ == relocated_text(
                self.paths.key_store@,
                default_key_store(self.paths.root@),
            ),
    {
        let index = self.paths.index.display().concat(
            if self.paths.index_is_default() {
                ""
            } else {
                " (relocated)"
            },
        );
        let key_store = self.paths.key_store.display().concat(
            if self.paths.key_store_is_default() {
                ""
            } else {
                " (relocated)"
            },
        );
        let mut lines: Vec<Described> = Vec::new();
        lines.push(Described { name: "root", value: self.paths.root.display() });
        lines.push(Described { name: "index", value: index });
        lines.push(Described { name: "key-store", value: key_store });
        lines
    }
}

// ---------------------------------------------------------------------------------------------
// Opening it

/// A passphrase file without the line ending it was written with: one newline, and then one carriage
/// return.
pub open spec fn unterminated(read: Seq<u8>) -> Seq<u8> {
    let line = if read.len() > 0 && read.last() == 10 {
        read.drop_last()
    } else {
        read
    };
    if line.len() > 0 && line.last() == 13 {
        line.drop_last()
    } else {
        line
    }
}

/// The passphrase a file holds.
///
/// The line ending goes, because a file written by `echo` and one written by a secret manager would
/// otherwise derive two different keys from the same secret. Nothing else is trimmed.
pub fn passphrase(read: &Vec<u8>, path: &OsPath) -> (passphrase: Result<Vec<u8>, Error>)
    ensures
        match passphrase {
            Ok(bytes) => bytes@ == unterminated(read@) && bytes@.len() > 0,
            Err(error) => unterminated(read@).len() == 0 && error@ == config_fault(
                utf8_lossy(path@)
                    + " is empty: a wrapper derived from nothing protects nothing"@,
            ),
        },
{
    let mut bytes = copied_bytes(read.as_slice());
    if bytes.len() > 0 && bytes[bytes.len() - 1] == 10 {
        let _ = bytes.pop();
        assert(bytes@ =~= read@.drop_last());
    }
    if bytes.len() > 0 && bytes[bytes.len() - 1] == 13 {
        let ghost before = bytes@;
        let _ = bytes.pop();
        assert(bytes@ =~= before.drop_last());
    }
    if bytes.len() == 0 {
        return Err(
            Error::Config(
                path.display().concat(
                    " is empty: a wrapper derived from nothing protects nothing",
                ),
            ),
        );
    }
    Ok(bytes)
}

/// A passphrase file that could not be read.
pub fn unreadable_passphrase(path: &OsPath, cause: &str) -> (error: Error)
    ensures
        error@ == config_fault("cannot read "@ + utf8_lossy(path@) + ": "@ + cause@),
{
    Error::Config(
        String::from_str("cannot read ").concat(path.display().as_str()).concat(": ").concat(cause),
    )
}

/// An index a newer build wrote. The remedy is outside this process: run the build that wrote it, or
/// delete the index and rebuild from the tree.
pub fn schema_too_new(index: &OsPath, found: u32, supported: u32) -> (error: Error)
    ensures
        error@ == config_fault(
            "the index at "@ + utf8_lossy(index@) + " is at schema version "@ + decimal(
                found as nat,
            ) + " and this build reads up to "@ + decimal(supported as nat)
                + ": run the build that wrote it, or delete the index and rebuild from the tree"@,
        ),
{
    Error::Config(
        String::from_str("the index at ").concat(index.display().as_str()).concat(
            " is at schema version ",
        ).concat(decimal_text(found as u64).as_str()).concat(
            " and this build reads up to ",
        ).concat(decimal_text(supported as u64).as_str()).concat(
            ": run the build that wrote it, or delete the index and rebuild from the tree",
        ),
    )
}

// ---------------------------------------------------------------------------------------------
// The service

/// Everything the service needs beyond the store.
#[derive(Debug)]
pub struct ServerSettings {
    /// Where the store is.
    pub store: StoreSettings,
    /// Address to accept on, as `host:port`.
    pub listen: String,
    /// The keyring file: which callers this service authenticates.
    pub keyring: OsPath,
    /// File holding the secret half of the key sidecars seal to. Without one the service accepts
    /// plain JSON only.
    pub unseal_key_file: Option<OsPath>,
    /// How often the store is maintained, in milliseconds.
    pub maintenance_ms: u64,
}

/// The address the flags and the environment name, or loopback.
pub open spec fn listen_of(flags: ServerArgs, env: Env) -> Seq<char> {
    match picked_text(optional_text(flags.listen), variable(env.listen)) {
        Some(listen) => listen,
        None => DEFAULT_LISTEN@,
    }
}

/// How often the flags and the environment say to maintain, or the default. A variable that spells
/// no number is not an answer.
pub open spec fn maintenance_of(flags: ServerArgs, env: Env) -> Option<nat> {
    match flags.maintenance_ms {
        Some(ms) => Some(ms as nat),
        None => match picked_text(None, variable(env.maintenance_ms)) {
            None => Some(DEFAULT_MAINTENANCE_MS as nat),
            Some(text) => unsigned(text, u64::MAX as nat),
        },
    }
}

/// What is wrong with the service's settings, if anything. `refused` is why the address does not
/// parse, where it does not.
pub open spec fn server_fault(
    flags: ServerArgs,
    env: Env,
    dirs: Seq<OsPath>,
    refused: Option<Seq<char>>,
) -> Option<Fault> {
    match store_fault(flags.store, env, dirs, true) {
        Some(fault) => Some(fault),
        None => match refused {
            Some(cause) => Some(
                config_fault(
                    "--listen "@ + listen_of(flags, env) + " is not an address as host:port ("@
                        + cause + "); an IPv6 address needs brackets, as [::1]:8787"@,
                ),
            ),
            None => if picked(path_given(flags.keyring), variable(env.keyring)) is None {
                Some(
                    config_fault(
                        "no keyring: pass --keyring or set "@ + ENV_KEYRING@
                            + ". A service without one authenticates nobody, so every request it received would be rejected"@,
                    ),
                )
            } else if maintenance_of(flags, env) is None {
                Some(config_fault(ENV_MAINTENANCE_MS@ + " is not a number of milliseconds"@))
            } else {
                None
            },
        },
    }
}

impl ServerSettings {
    /// The address the flags and the environment name, or loopback.
    pub fn listen(flags: &ServerArgs, env: &Env) -> (listen: String)
        ensures
            listen@ == listen_of(*flags, *env),
    {
        match pick_str(&flags.listen, &env.listen) {
            Some(listen) => listen,
            None => String::from_str(DEFAULT_LISTEN),
        }
    }

    /// Resolves the service's settings from flags and the environment. `refused` is why the address
    /// of [`ServerSettings::listen`] does not parse, where it does not.
    pub fn resolve(
        flags: &ServerArgs,
        env: &Env,
        dirs: &Vec<OsPath>,
        refused: &Option<String>,
    ) -> (settings: Result<ServerSettings, Error>)
        ensures
            match (settings, server_fault(*flags, *env, dirs@, optional_text(*refused))) {
                (Ok(settings), None) => {
                    &&& root_of(flags.store, *env) is Some
                    &&& store_resolved(settings.store, flags.store, *env)
                    &&& settings.listen@ == listen_of(*flags, *env)
                    &&& Some(settings.keyring@) == picked(
                        path_given(flags.keyring),
                        variable(env.keyring),
                    )
                    &&& path_given(settings.unseal_key_file) == picked(
                        path_given(flags.unseal_key_file),
                        variable(env.unseal_key_file),
                    )
                    &&& maintenance_of(*flags, *env) == Some(settings.maintenance_ms as nat)
                },
                (Err(error), Some(fault)) => error@ == fault,
                _ => false,
            },
    {
        let store = match StoreSettings::resolve(&flags.store, env, dirs) {
            Err(error) => {
                return Err(error);
            },
            Ok(store) => store,
        };
        let listen = ServerSettings::listen(flags, env);
        if let Some(cause) = refused {
            return Err(
                Error::Config(
                    String::from_str("--listen ").concat(listen.as_str()).concat(
                        " is not an address as host:port (",
                    ).concat(cause.as_str()).concat(
                        "); an IPv6 address needs brackets, as [::1]:8787",
                    ),
                ),
            );
        }
        let keyring = match pick(&flags.keyring, &env.keyring) {
            None => {
                return Err(
                    Error::Config(
                        String::from_str("no keyring: pass --keyring or set ").concat(
                            ENV_KEYRING,
                        ).concat(
                            ". A service without one authenticates nobody, so every request it received would be rejected",
                        ),
                    ),
                );
            },
            Some(keyring) => keyring,
        };
        let maintenance_ms: u64 = match flags.maintenance_ms {
            Some(ms) => ms,
            None => match pick_str(&None, &env.maintenance_ms) {
                None => DEFAULT_MAINTENANCE_MS,
                Some(text) => match parse_unsigned(text.as_str(), u64::MAX) {
                    Some(ms) => ms,
                    None => {
                        return Err(
                            Error::Config(
                                String::from_str(ENV_MAINTENANCE_MS).concat(
                                    " is not a number of milliseconds",
                                ),
                            ),
                        );
                    },
                },
            },
        };
        Ok(
            ServerSettings {
                store,
                listen,
                keyring,
                unseal_key_file: pick(&flags.unseal_key_file, &env.unseal_key_file),
                maintenance_ms,
            },
        )
    }
}

// ---------------------------------------------------------------------------------------------
// The sidecar

/// Everything the sidecar needs. No store settings: a sidecar never opens the tree, the index or the
/// key store.
#[derive(Debug)]
pub struct AgentSettings {
    /// Directory holding `upstream.json` and the spool.
    pub state_dir: OsPath,
    /// Sockets to serve. Empty means one per configured signing key.
    pub sockets: Vec<CallerSocket>,
    /// Spool bound, overriding the configuration file.
    pub spool_capacity: Option<usize>,
    /// Retry cadence, overriding the configuration file.
    pub retry_interval_ms: Option<u64>,
}

/// An `agent=path` socket specification, split at its first `=`; both halves have to say something.
pub open spec fn socket_of(spec: Seq<char>) -> Result<SocketModel, Fault> {
    match split_once(spec, '=') {
        None => Err(
            usage_fault(
                "--socket "@ + spec
                    + " is not `agent=path`; the agent is what records from that socket are attributed to"@,
            ),
        ),
        Some((agent, path)) => if agent.len() == 0 || path.len() == 0 {
            Err(usage_fault("--socket "@ + spec + " needs both an agent and a path"@))
        } else {
            Ok(SocketModel { agent, path: encode_utf8(path) })
        },
    }
}

/// Parses one `agent=path` socket specification, at the first `=`: a path may contain one and an
/// agent name may not.
pub fn socket_spec(spec: &str) -> (socket: Result<CallerSocket, Error>)
    ensures
        match (socket, socket_of(spec@)) {
            (Ok(socket), Ok(model)) => socket@ == model,
            (Err(error), Err(fault)) => error@ == fault,
            _ => false,
        },
{
    match split_at_first(spec, '=') {
        None => Err(
            Error::Usage(
                String::from_str("--socket ").concat(spec).concat(
                    " is not `agent=path`; the agent is what records from that socket are attributed to",
                ),
            ),
        ),
        Some((agent, path)) => {
            if agent.as_str().is_empty() || path.as_str().is_empty() {
                Err(
                    Error::Usage(
                        String::from_str("--socket ").concat(spec).concat(
                            " needs both an agent and a path",
                        ),
                    ),
                )
            } else {
                Ok(CallerSocket { agent, path: OsPath::from_text(path.as_str()) })
            }
        },
    }
}

/// The sockets some specifications name, or the first thing wrong with them.
pub open spec fn sockets_of(specs: Seq<Seq<char>>) -> Result<Seq<SocketModel>, Fault>
    decreases specs.len(),
{
    if specs.len() == 0 {
        Ok(seq![])
    } else {
        match sockets_of(specs.drop_last()) {
            Err(fault) => Err(fault),
            Ok(list) => match socket_of(specs.last()) {
                Err(fault) => Err(fault),
                Ok(socket) => Ok(list.push(socket)),
            },
        }
    }
}

proof fn lemma_socket_fault_stays(specs: Seq<Seq<char>>, n: int, fault: Fault)
    requires
        0 <= n <= specs.len(),
        sockets_of(specs.take(n)) == Err::<Seq<SocketModel>, Fault>(fault),
    ensures
        sockets_of(specs) == Err::<Seq<SocketModel>, Fault>(fault),
    decreases specs.len() - n,
{
    if n == specs.len() {
        assert(specs.take(n) =~= specs);
    } else {
        assert(specs.take(n + 1).drop_last() =~= specs.take(n));
        lemma_socket_fault_stays(specs, n + 1, fault);
    }
}

fn socket_specs(specs: &Vec<String>) -> (sockets: Result<Vec<CallerSocket>, Error>)
    ensures
        match (sockets, sockets_of(crate::text::texts(specs@))) {
            (Ok(sockets), Ok(model)) => socket_models(sockets@) == model,
            (Err(error), Err(fault)) => error@ == fault,
            _ => false,
        },
{
    let ghost all = crate::text::texts(specs@);
    let mut sockets: Vec<CallerSocket> = Vec::new();
    let mut i: usize = 0;
    assert(socket_models(sockets@) =~= seq![]);
    while i < specs.len()
        invariant
            i <= specs@.len(),
            all == crate::text::texts(specs@),
            sockets_of(all.take(i as int)) == Ok::<Seq<SocketModel>, Fault>(
                socket_models(sockets@),
            ),
        decreases specs@.len() - i,
    {
        let ghost before = sockets@;
        proof {
            assert(all.take(i + 1).drop_last() =~= all.take(i as int));
            assert(all.take(i + 1).last() == specs@[i as int]@);
        }
        match socket_spec(specs[i].as_str()) {
            Err(error) => {
                proof {
                    lemma_socket_fault_stays(all, i + 1, error@);
                }
                return Err(error);
            },
            Ok(socket) => {
                sockets.push(socket);
                assert(socket_models(sockets@) =~= socket_models(before).push(socket@));
            },
        }
        i += 1;
    }
    assert(all.take(all.len() as int) =~= all);
    Ok(sockets)
}

/// The state directory the flags and the environment name.
pub open spec fn state_dir_of(flags: AgentArgs, env: Env) -> Option<Seq<u8>> {
    picked(path_given(flags.state_dir), variable(env.agent_state))
}

/// What is wrong with the sidecar's settings, if anything.
pub open spec fn agent_fault(flags: AgentArgs, env: Env, dirs: Seq<OsPath>) -> Option<Fault> {
    match state_dir_of(flags, env) {
        None => Some(
            config_fault(
                "the sidecar state directory is not set: pass --state-dir or set "@
                    + ENV_AGENT_STATE@,
            ),
        ),
        Some(state_dir) => if !among(state_dir, dirs) {
            Some(config_fault("--state-dir "@ + utf8_lossy(state_dir) + " is not a directory"@))
        } else {
            match sockets_of(crate::text::texts(flags.sockets@)) {
                Err(fault) => Some(fault),
                Ok(_) => if flags.spool_capacity == Some(0usize) {
                    Some(
                        config_fault(
                            "--spool-capacity 0 would refuse every record the service cannot take right now"@,
                        ),
                    )
                } else if flags.retry_interval_ms == Some(0u64) {
                    Some(
                        config_fault(
                            "--retry-interval-ms 0 would retry a down service in a tight loop"@,
                        ),
                    )
                } else {
                    None
                },
            }
        },
    }
}

impl AgentSettings {
    /// Resolves the sidecar's settings from flags and the environment. `dirs` holds the state
    /// directory where it is one.
    pub fn resolve(flags: &AgentArgs, env: &Env, dirs: &Vec<OsPath>) -> (settings: Result<
        AgentSettings,
        Error,
    >)
        ensures
            match (settings, agent_fault(*flags, *env, dirs@)) {
                (Ok(settings), None) => {
                    &&& Some(settings.state_dir@) == state_dir_of(*flags, *env)
                    &&& sockets_of(crate::text::texts(flags.sockets@)) == Ok::<
                        Seq<SocketModel>,
                        Fault,
                    >(socket_models(settings.sockets@))
                    &&& settings.spool_capacity == flags.spool_capacity
                    &&& settings.retry_interval_ms == flags.retry_interval_ms
                },
                (Err(error), Some(fault)) => error@ == fault,
                _ => false,
            },
    {
        let state_dir = match pick(&flags.state_dir, &env.agent_state) {
            None => {
                return Err(
                    Error::Config(
                        String::from_str(
                            "the sidecar state directory is not set: pass --state-dir or set ",
                        ).concat(ENV_AGENT_STATE),
                    ),
                );
            },
            Some(state_dir) => state_dir,
        };
        if !state_dir.is_among(dirs) {
            return Err(
                Error::Config(
                    String::from_str("--state-dir ").concat(state_dir.display().as_str()).concat(
                        " is not a directory",
                    ),
                ),
            );
        }
        let sockets = match socket_specs(&flags.sockets) {
            Err(error) => {
                return Err(error);
            },
            Ok(sockets) => sockets,
        };
        if let Some(capacity) = flags.spool_capacity {
            if capacity == 0 {
                return Err(
                    Error::Config(
                        String::from_str(
                            "--spool-capacity 0 would refuse every record the service cannot take right now",
                        ),
                    ),
                );
            }
        }
        if let Some(interval) = flags.retry_interval_ms {
            if interval == 0 {
                return Err(
                    Error::Config(
                        String::from_str(
                            "--retry-interval-ms 0 would retry a down service in a tight loop",
                        ),
                    ),
                );
            }
        }
        Ok(
            AgentSettings {
                state_dir,
                sockets,
                spool_capacity: flags.spool_capacity,
                retry_interval_ms: flags.retry_interval_ms,
            },
        )
    }
}

// ---------------------------------------------------------------------------------------------
// The emitter and the reader

/// What the emitter needs.
#[derive(Debug)]
pub struct EmitSettings {
    /// The caller socket to write to. A dry run needs none.
    pub socket: Option<OsPath>,
    /// The agent a record is attributed to.
    pub agent: String,
}

impl EmitSettings {
    /// Resolves the emitter's settings from flags and the environment.
    ///
    /// The agent is required: it is a field of the record. The socket is refused at the send rather
    /// than here, because a dry run has none to name.
    pub fn resolve(flags: &EmitArgs, env: &Env) -> (settings: Result<EmitSettings, Error>)
        ensures
            match (settings, picked_text(optional_text(flags.agent), variable(env.agent))) {
                (Ok(settings), Some(agent)) => settings.agent@ == agent && path_given(
                    settings.socket,
                ) == picked(path_given(flags.socket), variable(env.socket)),
                (Err(error), None) => error@ == config_fault(
                    "no agent: pass --agent or set "@ + ENV_AGENT@
                        + ". It is the agent the record is attributed to"@,
                ),
                _ => false,
            },
    {
        match pick_str(&flags.agent, &env.agent) {
            None => Err(
                Error::Config(
                    String::from_str("no agent: pass --agent or set ").concat(ENV_AGENT).concat(
                        ". It is the agent the record is attributed to",
                    ),
                ),
            ),
            Some(agent) => Ok(EmitSettings { socket: pick(&flags.socket, &env.socket), agent }),
        }
    }
}

/// What the reader needs.
#[derive(Debug)]
pub struct ReadSettings {
    /// The caller's read socket. A dry run needs none.
    pub socket: Option<OsPath>,
}

impl ReadSettings {
    /// Resolves the reader's settings from flags and the environment.
    pub fn resolve(flags: &ReadArgs, env: &Env) -> (settings: ReadSettings)
        ensures
            path_given(settings.socket) == picked(
                path_given(flags.socket),
                variable(env.read_socket),
            ),
    {
        ReadSettings { socket: pick(&flags.socket, &env.read_socket) }
    }
}

// ---------------------------------------------------------------------------------------------
// Logging

/// How much is logged.
#[derive(Debug, Clone, Copy, PartialEq, Eq, Structural)]
pub enum Level {
    /// Everything.
    Trace,
    /// What a developer asks for.
    Debug,
    /// What an operator reads.
    Info,
    /// What deserves attention.
    Warn,
    /// What went wrong.
    Error,
}

/// The level a variable names, whatever its letter case and the space around it.
pub open spec fn level_of(value: Option<Seq<u8>>) -> Level {
    match value {
        Some(value) if valid_utf8(value) => {
            let name = lowered(trim(decode_utf8(value)));
            if name == "trace"@ {
                Level::Trace
            } else if name == "debug"@ {
                Level::Debug
            } else if name == "warn"@ {
                Level::Warn
            } else if name == "error"@ {
                Level::Error
            } else {
                Level::Info
            }
        },
        _ => Level::Info,
    }
}

/// The log level, from the environment, defaulting to `info`: an unreadable level must not turn
/// logging off.
pub fn log_level(env: &Env) -> (level: Level)
    ensures
        level == level_of(variable(env.log)),
{
    if let Some(value) = &env.log {
        if let Some(text) = utf8_text(value.as_slice()) {
            let name = lower_text(trimmed(text.as_str()).as_str());
            if same(name.as_str(), "trace") {
                return Level::Trace;
            }
            if same(name.as_str(), "debug") {
                return Level::Debug;
            }
            if same(name.as_str(), "warn") {
                return Level::Warn;
            }
            if same(name.as_str(), "error") {
                return Level::Error;
            }
        }
    }
    Level::Info
}

/// The same secret derives the same passphrase however its file ends: bare, with a newline, or with
/// a carriage return and a newline.
pub proof fn law_a_line_ending_is_not_passphrase(secret: Seq<u8>)
    requires
        secret.len() > 0,
        secret.last() != 10,
        secret.last() != 13,
    ensures
        unterminated(secret) == secret,
        unterminated(secret.push(10)) == secret,
        unterminated(secret.push(13).push(10)) == secret,
{
    assert(secret.push(10).drop_last() =~= secret);
    assert(secret.push(13).push(10).drop_last() =~= secret.push(13));
    assert(secret.push(13).drop_last() =~= secret);
}

} // verus!
