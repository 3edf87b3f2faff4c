//! Bringing the service up: what a startup log says about the settings it runs with and about its key
//! material, and what one round of maintenance is worth saying.

use vstd::prelude::*;
use vstd::string::*;

use crate::cli::config::{
    default_index, default_key_store, relocated_text, ServerSettings,
};
use crate::cli::keyring::KEY_LEN;
use crate::cli::notice::{
    notice_models, optional_constant, state, stated, warn, warned, Notice, NoticeModel,
    CONFIGURATION,
};
use crate::cli::ops::KeyMaterial;
use crate::hexed::{hex_encode, hex_text};
use crate::path::utf8_lossy;
use crate::text::{copied, decimal, decimal_text};

verus! {

/// Fan-out jobs one maintenance round takes. Bounded so one round cannot hold the write lock for an
/// unbounded time behind a burst; what it does not get through is still queued for the next.
pub const MAINTENANCE_JOBS: usize = 256;

/// Key material on disk that anyone who can read the files can use.
pub const KEYS_EXPOSED: &'static str =
    "subject keys on disk are stored unwrapped, so a key file recovered from a snapshot, a stale volume or a decommissioned disk is a usable key. Fit a wrapper: until then, destroying a key erases nothing that a copy of that file can still open";

/// Nothing on disk yet, and this service about to write key material in the clear.
pub const KEYS_WILL_BE_IN_THE_CLEAR: &'static str =
    "this store holds no key material yet, and no --key-passphrase-file: the first subject key this service mints will be stored as written. Fit a wrapper before this store holds anyone's data — a wrapper fitted afterwards leaves the keys written before it unreadable rather than migrating them";

/// Key material on disk this service holds no wrapper for.
pub const KEYS_UNREADABLE: &'static str =
    "the key material on disk is wrapped and this service was given no --key-passphrase-file: it cannot unwrap a single subject key, so every sealed body it is asked for will fail to open. Point it at the passphrase the store was written under";

/// A service that opens no sealed body.
pub const NO_UNSEAL_KEY: &'static str =
    "no --unseal-key-file: this service accepts plain JSON only and will refuse a sealed body. A sidecar posting to it would spool for ever";

/// What a startup log has to say about key material: what the key files on disk carry, and what this
/// service would write. Treating the second as the first would report a wrapped store as bare.
#[derive(Debug)]
pub struct KeyReport {
    /// What the key material already on disk says about its own protection.
    pub on_disk: KeyMaterial,
    /// The same, as the key store words it.
    pub wrapping: String,
    /// How the wrapper this service holds would protect a key it writes.
    pub wrapper: String,
    /// Whether that wrapper protects at all.
    pub wrapper_protects: bool,
}

/// Whether some key file can be used by anyone who can read it.
pub open spec fn exposed(material: KeyMaterial) -> bool {
    material is Unwrapped || material is Mixed
}

/// What a startup log warns about key material, where something is wrong.
pub open spec fn warning_of(on_disk: KeyMaterial, wrapper_protects: bool) -> Option<Seq<char>> {
    if exposed(on_disk) {
        Some(KEYS_EXPOSED@)
    } else if wrapper_protects {
        None
    } else if on_disk is Absent {
        Some(KEYS_WILL_BE_IN_THE_CLEAR@)
    } else {
        Some(KEYS_UNREADABLE@)
    }
}

/// What a startup log warns about key material, or nothing where nothing is wrong.
///
/// The exposure comes first: key material somebody can read is there to be read whatever this process
/// holds. A store with no key material has nothing exposed, so what it is told is in the future tense,
/// and only where this service is the one about to write in the clear.
pub fn key_warning(keys: &KeyReport) -> (warning: Option<&'static str>)
    ensures
        optional_constant(warning) == warning_of(keys.on_disk, keys.wrapper_protects),
{
    match &keys.on_disk {
        KeyMaterial::Unwrapped { .. } | KeyMaterial::Mixed { .. } => Some(KEYS_EXPOSED),
        KeyMaterial::Absent => {
            if keys.wrapper_protects {
                None
            } else {
                Some(KEYS_WILL_BE_IN_THE_CLEAR)
            }
        },
        KeyMaterial::Wrapped { .. } => {
            if keys.wrapper_protects {
                None
            } else {
                Some(KEYS_UNREADABLE)
            }
        },
    }
}

/// The settings a service says it runs with.
pub open spec fn settings_notices(settings: ServerSettings, address: Seq<char>) -> Seq<NoticeModel> {
    seq![
        stated("root"@, utf8_lossy(settings.store.paths.root@), CONFIGURATION@),
        stated(
            "index"@,
            relocated_text(
                settings.store.paths.index@,
                default_index(settings.store.paths.root@),
            ),
            CONFIGURATION@,
        ),
        stated(
            "key-store"@,
            relocated_text(
                settings.store.paths.key_store@,
                default_key_store(settings.store.paths.root@),
            ),
            CONFIGURATION@,
        ),
        stated("listen"@, address, CONFIGURATION@),
        stated("keyring"@, utf8_lossy(settings.keyring@), CONFIGURATION@),
        stated("maintenance-ms"@, decimal(settings.maintenance_ms as nat), CONFIGURATION@),
    ]
}

/// What a service says about sealed bodies: the public half of its key, or that it opens none.
pub open spec fn sealing_notice(public: Option<Seq<u8>>) -> NoticeModel {
    match public {
        Some(public) => stated(
            "sealing-public-key"@,
            hex_text(public),
            "configuration: configure each sidecar with this"@,
        ),
        None => warned(NO_UNSEAL_KEY@),
    }
}

/// Everything a service says at startup.
pub open spec fn announcement(
    settings: ServerSettings,
    address: Seq<char>,
    public: Option<Seq<u8>>,
    keys: KeyReport,
) -> Seq<NoticeModel> {
    let said = settings_notices(settings, address).push(sealing_notice(public)).push(
        stated("key wrapping"@, keys.wrapping@, CONFIGURATION@),
    ).push(
        stated(
            "key wrapper"@,
            keys.wrapper@,
            "configuration: what this service writes new keys under"@,
        ),
    );
    match warning_of(keys.on_disk, keys.wrapper_protects) {
        Some(warning) => said.push(warned(warning)),
        None => said,
    }
}

/// The public half of a sealing key, as a contract speaks of it.
pub open spec fn public_half(public: Option<Vec<u8>>) -> Option<Seq<u8>> {
    match public {
        Some(public) => Some(public@),
        None => None,
    }
}

/// The effective configuration, for the startup log.
///
/// Paths, the address, and whether sealed bodies can be opened. The secret half of a key is never
/// here, and the public half is, because a sidecar has to be configured with it.
pub fn announce(
    settings: &ServerSettings,
    address: &str,
    public: &Option<Vec<u8>>,
    keys: &KeyReport,
) -> (notices: Vec<Notice>)
    requires
        public matches Some(public) ==> public@.len() == KEY_LEN,
    ensures
        notice_models(notices@) == announcement(*settings, address@, public_half(*public), *keys),
{
    let mut notices: Vec<Notice> = Vec::new();
    let mut described = settings.store.describe();
    let key_store = described.remove(2);
    let index = described.remove(1);
    let root = described.remove(0);
    state(&mut notices, root.name, root.value, CONFIGURATION);
    state(&mut notices, index.name, index.value, CONFIGURATION);
    state(&mut notices, key_store.name, key_store.value, CONFIGURATION);
    state(&mut notices, "listen", address.to_owned(), CONFIGURATION);
    state(&mut notices, "keyring", settings.keyring.display(), CONFIGURATION);
    state(&mut notices, "maintenance-ms", decimal_text(settings.maintenance_ms), CONFIGURATION);
    assert(notice_models(notices@) =~= settings_notices(*settings, address@));
    match public {
        Some(public) => state(
            &mut notices,
            "sealing-public-key",
            hex_encode(public.as_slice()),
            "configuration: configure each sidecar with this",
        ),
        None => warn(&mut notices, NO_UNSEAL_KEY),
    }
    state(&mut notices, "key wrapping", copied(&keys.wrapping), CONFIGURATION);
    state(
        &mut notices,
        "key wrapper",
        copied(&keys.wrapper),
        "configuration: what this service writes new keys under",
    );
    match key_warning(keys) {
        Some(warning) => warn(&mut notices, warning),
        None => {},
    }
    notices
}

/// What one round of maintenance came to.
#[derive(Debug)]
pub enum Round {
    /// It ran, and this is what it did.
    Ran {
        /// Whether that was nothing.
        did_nothing: bool,
    },
    /// It failed.
    Failed,
    /// It panicked.
    Panicked,
}

/// What is said of a round of maintenance.
#[derive(Debug, Clone, Copy, PartialEq, Eq, Structural)]
pub enum Said {
    /// Nothing.
    Nothing,
    /// What it did.
    Info,
    /// That it failed.
    Warning,
    /// That it panicked.
    Error,
}

/// How loudly a round of maintenance is spoken of.
pub open spec fn said_of(round: Round) -> Said {
    match round {
        Round::Ran { did_nothing } => if did_nothing {
            Said::Nothing
        } else {
            Said::Info
        },
        Round::Failed => Said::Warning,
        Round::Panicked => Said::Error,
    }
}

/// What to say of a round of maintenance. No round is fatal: one that fails at boot fails on the timer
/// too, and a store that cannot be swept is a reason to say so and serve.
pub fn maintained(round: &Round) -> (said: Said)
    ensures
        said == said_of(*round),
{
    match round {
        Round::Ran { did_nothing } => {
            if *did_nothing {
                Said::Nothing
            } else {
                Said::Info
            }
        },
        Round::Failed => Said::Warning,
        Round::Panicked => Said::Error,
    }
}

/// Both directions of the key warning: a key anyone can use is always said out loud, whatever this
/// service holds, and a service whose wrapper protects is warned of nothing else.
pub proof fn law_a_warning_is_said_where_it_is_deserved(
    on_disk: KeyMaterial,
    wrapper_protects: bool,
)
    ensures
        exposed(on_disk) <==> warning_of(on_disk, wrapper_protects) == Some(KEYS_EXPOSED@),
        wrapper_protects && !exposed(on_disk) ==> warning_of(on_disk, wrapper_protects) is None,
        !wrapper_protects ==> warning_of(on_disk, wrapper_protects) is Some,
{
    reveal_strlit(
        "subject keys on disk are stored unwrapped, so a key file recovered from a snapshot, a stale volume or a decommissioned disk is a usable key. Fit a wrapper: until then, destroying a key erases nothing that a copy of that file can still open",
    );
    reveal_strlit(
        "this store holds no key material yet, and no --key-passphrase-file: the first subject key this service mints will be stored as written. Fit a wrapper before this store holds anyone's data — a wrapper fitted afterwards leaves the keys written before it unreadable rather than migrating them",
    );
    reveal_strlit(
        "the key material on disk is wrapped and this service was given no --key-passphrase-file: it cannot unwrap a single subject key, so every sealed body it is asked for will fail to open. Point it at the passphrase the store was written under",
    );
    assert(KEYS_EXPOSED@[0] == 's');
    assert(KEYS_WILL_BE_IN_THE_CLEAR@[0] == 't');
    assert(KEYS_UNREADABLE@[0] == 't');
}

} // verus!
