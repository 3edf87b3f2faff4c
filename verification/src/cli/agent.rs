//! Bringing the sidecar up: which sockets to serve, where they go, and the refusals that belong
//! before anything is listening.
//!
//! The default is one caller per agent the configuration holds a signing key for. The sidecar refuses
//! to bind a socket it cannot sign as, so deriving the socket list from the key list makes the two
//! impossible to configure out of step.

use vstd::prelude::*;
use vstd::string::*;
use vstd::utf8::*;

use crate::agent::listener::{
    decoded_key, read_path_of, service_fault, signing_map, socket_models, CallerSocket, Config,
    Limits, SigningEntry, SocketModel, DEFAULT_RETRY_INTERVAL_MS,
};
use crate::agent::spool::DEFAULT_CAPACITY;
use crate::agent::upstream::Upstream;
use crate::cli::config::AgentSettings;
use crate::cli::error::{config_fault, Error, Fault};
use crate::cli::notice::{notice_models, state, stated, Notice, NoticeModel, CONFIGURATION};
use crate::path::{joined, utf8_lossy, OsPath};
use crate::text::{copied, decimal, decimal_text, in_order, sorted_texts, texts};

verus! {

/// Directory the default sockets go in, under the state directory.
pub const SOCKET_DIR: &'static str = "sockets";

/// The file the sidecar's configuration is in, under the state directory.
pub const CONFIG_FILE: &'static str = "upstream.json";

/// The sockets to serve, and the bounds to serve them within.
#[derive(Debug)]
pub struct Plan {
    /// One socket per caller.
    pub sockets: Vec<CallerSocket>,
    /// Where the service is and what to sign as.
    pub upstream: Upstream,
    /// Spool bound and retry cadence.
    pub limits: Limits,
    /// The state directory holding the configuration and the spool.
    pub state_dir: OsPath,
}

/// Where an agent's records go by default.
pub open spec fn default_path(state_dir: Seq<u8>, agent: Seq<char>) -> Seq<u8> {
    joined(
        joined(state_dir, encode_utf8(SOCKET_DIR@)),
        encode_utf8(agent + ".sock"@),
    )
}

/// Whether some sockets are the default ones: one for each agent there is a key for, in the order of
/// their names, each at its own place under the state directory.
pub open spec fn are_default_sockets(
    sockets: Seq<SocketModel>,
    state_dir: Seq<u8>,
    agents: Seq<Seq<char>>,
) -> bool {
    let named = sockets.map_values(|socket: SocketModel| socket.agent);
    &&& in_order(named)
    &&& named.to_multiset() == agents.to_multiset()
    &&& forall|i: int|
        0 <= i < sockets.len() ==> (#[trigger] sockets[i]).path == default_path(
            state_dir,
            sockets[i].agent,
        )
}

/// The agents some entries hold a key for.
pub open spec fn agents_of(entries: Seq<SigningEntry>) -> Seq<Seq<char>> {
    entries.map_values(|entry: SigningEntry| entry.agent@)
}

fn named_agents(entries: &Vec<SigningEntry>) -> (agents: Vec<String>)
    ensures
        texts(agents@) == agents_of(entries@),
{
    let mut agents: Vec<String> = Vec::new();
    let mut i: usize = 0;
    while i < entries.len()
        invariant
            i <= entries@.len(),
            i == agents@.len(),
            forall|k: int| 0 <= k < i ==> (#[trigger] agents@[k])@ == entries@[k].agent@,
        decreases entries@.len() - i,
    {
        agents.push(copied(&entries[i].agent));
        i += 1;
    }
    assert(texts(agents@) =~= agents_of(entries@));
    agents
}

/// The refusal of a configuration that names no caller.
pub open spec fn no_callers() -> Fault {
    config_fault(
        CONFIG_FILE@
            + " holds no signing keys, so there is no caller to serve. Name one there, or pass --socket agent=path"@,
    )
}

/// One caller per configured signing key, under the state directory.
pub fn default_sockets(state_dir: &OsPath, signing_keys: &Vec<SigningEntry>) -> (sockets: Result<
    Vec<CallerSocket>,
    Error,
>)
    ensures
        match sockets {
            Ok(sockets) => signing_keys@.len() > 0 && are_default_sockets(
                socket_models(sockets@),
                state_dir@,
                agents_of(signing_keys@),
            ),
            Err(error) => signing_keys@.len() == 0 && error@ == no_callers(),
        },
{
    if signing_keys.len() == 0 {
        return Err(
            Error::Config(
                String::from_str(CONFIG_FILE).concat(
                    " holds no signing keys, so there is no caller to serve. Name one there, or pass --socket agent=path",
                ),
            ),
        );
    }
    let agents = sorted_texts(&named_agents(signing_keys));
    let dir = state_dir.join(&OsPath::from_text(SOCKET_DIR));
    let mut sockets: Vec<CallerSocket> = Vec::new();
    let mut i: usize = 0;
    while i < agents.len()
        invariant
            i <= agents@.len(),
            i == sockets@.len(),
            dir@ == joined(state_dir@, encode_utf8(SOCKET_DIR@)),
            forall|k: int|
                0 <= k < i ==> (#[trigger] sockets@[k]).agent@ == agents@[k]@ && sockets@[k].path@
                    == default_path(state_dir@, agents@[k]@),
        decreases agents@.len() - i,
    {
        let agent = copied(&agents[i]);
        let path = dir.join(&OsPath::from_text(copied(&agents[i]).concat(".sock").as_str()));
        sockets.push(CallerSocket { agent, path });
        i += 1;
    }
    proof {
        let models = socket_models(sockets@);
        assert(models.map_values(|socket: SocketModel| socket.agent) =~= texts(agents@));
        assert forall|k: int| 0 <= k < models.len() implies (#[trigger] models[k]).path
            == default_path(state_dir@, models[k].agent) by {
            assert(models[k] == sockets@[k]@);
        }
    }
    Ok(sockets)
}

/// The bounds, once the flags have had their say.
pub open spec fn limits_of(settings: AgentSettings, configured: Config) -> Limits {
    Limits {
        spool_capacity: match (settings.spool_capacity, configured.spool_capacity) {
            (Some(capacity), _) => capacity,
            (None, Some(capacity)) => capacity,
            (None, None) => DEFAULT_CAPACITY,
        },
        retry_interval_ms: match (settings.retry_interval_ms, configured.retry_interval_ms) {
            (Some(interval), _) => interval,
            (None, Some(interval)) => interval,
            (None, None) => DEFAULT_RETRY_INTERVAL_MS,
        },
    }
}

/// What keeps a sidecar from being planned, where something does: a configuration that will not load,
/// a service it cannot be pointed at, and a state directory that names no caller.
pub open spec fn plan_fault(settings: AgentSettings, loaded: Result<Config, String>) -> Option<
    Fault,
> {
    match loaded {
        Err(cause) => Some(
            config_fault(
                utf8_lossy(settings.state_dir@) + "/"@ + CONFIG_FILE@ + ": "@ + cause@,
            ),
        ),
        Ok(configured) => match (
            service_fault(configured.service_public_key@),
            signing_map(configured.signing_keys@),
        ) {
            (Some(cause), _) => Some(config_fault(CONFIG_FILE@ + ": "@ + cause)),
            (None, Err(cause)) => Some(config_fault(CONFIG_FILE@ + ": "@ + cause)),
            (None, Ok(_)) => if settings.sockets@.len() == 0 && configured.signing_keys@.len()
                == 0 {
                Some(no_callers())
            } else {
                None
            },
        },
    }
}

fn copied_sockets(list: &Vec<CallerSocket>) -> (copy: Vec<CallerSocket>)
    ensures
        socket_models(copy@) == socket_models(list@),
{
    let mut copy: Vec<CallerSocket> = Vec::new();
    let mut i: usize = 0;
    while i < list.len()
        invariant
            i <= list@.len(),
            i == copy@.len(),
            forall|k: int| 0 <= k < i ==> (#[trigger] copy@[k])@ == list@[k]@,
        decreases list@.len() - i,
    {
        copy.push(list[i].copied());
        i += 1;
    }
    assert(socket_models(copy@) =~= socket_models(list@));
    copy
}

/// Works out what to serve from the settings and the configuration.
///
/// Every refusal is here, before a socket exists: each is something an operator fixes by editing a
/// file, and a sidecar that bound first would have callers writing into it meanwhile.
pub fn plan(settings: &AgentSettings, loaded: Result<Config, String>) -> (plan: Result<
    Plan,
    Error,
>)
    ensures
        match (plan, plan_fault(*settings, loaded)) {
            (Ok(plan), None) => {
                &&& loaded is Ok
                &&& plan.upstream.base_url@ == loaded->Ok_0.base_url@
                &&& decoded_key(loaded->Ok_0.service_public_key@) == Some(
                    plan.upstream.service_public_key@,
                )
                &&& signing_map(loaded->Ok_0.signing_keys@) == Ok::<
                    Map<Seq<char>, Seq<u8>>,
                    Seq<char>,
                >(plan.upstream.credentials@)
                &&& plan.limits == limits_of(*settings, loaded->Ok_0)
                &&& plan.state_dir@ == settings.state_dir@
                &&& if settings.sockets@.len() > 0 {
                    socket_models(plan.sockets@) == socket_models(settings.sockets@)
                } else {
                    are_default_sockets(
                        socket_models(plan.sockets@),
                        settings.state_dir@,
                        agents_of(loaded->Ok_0.signing_keys@),
                    )
                }
            },
            (Err(error), Some(fault)) => error@ == fault,
            _ => false,
        },
{
    let configured = match loaded {
        Err(cause) => {
            return Err(
                Error::Config(
                    settings.state_dir.display().concat("/").concat(CONFIG_FILE).concat(
                        ": ",
                    ).concat(cause.as_str()),
                ),
            );
        },
        Ok(configured) => configured,
    };
    let upstream = match configured.upstream() {
        Err(cause) => {
            return Err(
                Error::Config(String::from_str(CONFIG_FILE).concat(": ").concat(cause.as_str())),
            );
        },
        Ok(upstream) => upstream,
    };
    let sockets = if settings.sockets.len() == 0 {
        match default_sockets(&settings.state_dir, &configured.signing_keys) {
            Err(error) => {
                return Err(error);
            },
            Ok(sockets) => sockets,
        }
    } else {
        copied_sockets(&settings.sockets)
    };
    let bounds = configured.limits();
    let limits = Limits {
        spool_capacity: match settings.spool_capacity {
            Some(capacity) => capacity,
            None => bounds.spool_capacity,
        },
        retry_interval_ms: match settings.retry_interval_ms {
            Some(interval) => interval,
            None => bounds.retry_interval_ms,
        },
    };
    Ok(Plan { sockets, upstream, limits, state_dir: settings.state_dir.copied() })
}

/// A line that names one of a caller's sockets and says what it carries.
pub open spec fn socket_notice(
    agent: Seq<char>,
    serves: Seq<char>,
    path: Seq<u8>,
) -> NoticeModel {
    NoticeModel {
        warns: false,
        setting: Some("socket"@),
        agent: Some(agent),
        serves: Some(serves),
        value: Some(utf8_lossy(path)),
        message: CONFIGURATION@,
    }
}

/// The lines that name each caller's two sockets.
pub open spec fn socket_notices(sockets: Seq<SocketModel>) -> Seq<NoticeModel>
    decreases sockets.len(),
{
    if sockets.len() == 0 {
        seq![]
    } else {
        let socket = sockets.last();
        socket_notices(sockets.drop_last()).push(
            socket_notice(socket.agent, "records"@, socket.path),
        ).push(socket_notice(socket.agent, "reads"@, read_path_of(socket.path)))
    }
}

/// What a sidecar says it runs with.
pub open spec fn announcement(sockets: Seq<SocketModel>, limits: Limits) -> Seq<NoticeModel> {
    socket_notices(sockets).push(
        stated("spool-capacity"@, decimal(limits.spool_capacity as nat), CONFIGURATION@),
    ).push(
        stated("retry-interval-ms"@, decimal(limits.retry_interval_ms as nat), CONFIGURATION@),
    )
}

fn name_socket(notices: &mut Vec<Notice>, agent: &String, serves: &'static str, path: &OsPath)
    ensures
        notice_models(final(notices)@) == notice_models(old(notices)@).push(
            socket_notice(agent@, serves@, path@),
        ),
{
    notices.push(
        Notice {
            warns: false,
            setting: Some("socket"),
            agent: Some(copied(agent)),
            serves: Some(serves),
            value: Some(path.display()),
            message: CONFIGURATION,
        },
    );
    assert(notice_models(notices@) =~= notice_models(old(notices)@).push(
        socket_notice(agent@, serves@, path@),
    ));
}

/// The effective configuration, for the startup log: agent names and paths, and no key material.
///
/// Both of a caller's sockets are named, and each says what it carries: a caller reading the log to
/// find where to connect must not have to know the derivation rule.
pub fn announce(sockets: &Vec<CallerSocket>, limits: &Limits) -> (notices: Vec<Notice>)
    ensures
        notice_models(notices@) == announcement(socket_models(sockets@), *limits),
{
    let ghost all = socket_models(sockets@);
    let mut notices: Vec<Notice> = Vec::new();
    let mut i: usize = 0;
    assert(notice_models(notices@) =~= socket_notices(all.take(0)));
    while i < sockets.len()
        invariant
            i <= sockets@.len(),
            all == socket_models(sockets@),
            notice_models(notices@) == socket_notices(all.take(i as int)),
        decreases sockets@.len() - i,
    {
        let socket = &sockets[i];
        name_socket(&mut notices, &socket.agent, "records", &socket.path);
        name_socket(&mut notices, &socket.agent, "reads", &socket.read_path());
        proof {
            assert(all.take(i + 1).drop_last() =~= all.take(i as int));
            assert(all.take(i + 1).last() == sockets@[i as int]@);
        }
        i += 1;
    }
    assert(all.take(all.len() as int) =~= all);
    state(
        &mut notices,
        "spool-capacity",
        decimal_text(limits.spool_capacity as u64),
        CONFIGURATION,
    );
    state(
        &mut notices,
        "retry-interval-ms",
        decimal_text(limits.retry_interval_ms),
        CONFIGURATION,
    );
    notices
}

} // verus!
