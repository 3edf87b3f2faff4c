//! What holds of every run: what a flag means, where a setting comes from, what is announced and what
//! the process exits with.

use vstd::prelude::*;
use vstd::utf8::*;

use crate::agent::listener::{
    read_path_of, service_fault, signing_map, socket_models, CallerSocket, Config, Limits,
    SigningEntry, SocketModel,
};
use crate::cli::agent::{
    agents_of, announcement as sidecar_announcement, are_default_sockets, limits_of, plan_fault,
    socket_notices,
};
use crate::cli::args::{
    contract_outcome, contract_visibility, stored_outcome, AgentArgs, Command, OutcomeArg, ServerArgs,
    StoreArgs, VisibilityArg,
};
use crate::cli::config::{
    agent_fault, asked_of, default_index, default_key_store, index_of, key_store_of, level_of,
    listen_of, maintenance_of, path_given, picked, picked_text, relocated_text, root_of,
    server_fault, socket_of, sockets_of, spec_dir_of, state_dir_of, store_fault, store_resolved,
    unterminated, AgentSettings, Env, ServerSettings, StoreSettings,
};
use crate::cli::error::{attempted, outcome_code, printed, Error, Fault};
use crate::cli::exit::{exit_code, succeeds, Exit};
use crate::cli::keyring::{credential_models, Credential};
use crate::cli::notice::{notice_models, Notice, NoticeModel};
use crate::cli::ops::KeyMaterial;
use crate::cli::run::opening_of;
use crate::cli::server::{
    announcement, said_of, warning_of, KeyReport, Round, KEYS_EXPOSED, KEYS_UNREADABLE,
    KEYS_WILL_BE_IN_THE_CLEAR,
};
use crate::hexed::hex_text;
use crate::path::{among, joined, utf8_lossy, OsPath};
use crate::text::{decimal, lowered, occurs, ordered, texts, trim, unsigned};
use crate::text_laws::law_a_cut_is_the_first;

verus! {

// ---------------------------------------------------------------------------------------------
// What a flag means

/// A flag means the value it names and no other: the outcome and the visibility of a record are the
/// ones their flags name, none is widened or narrowed on the way, and an outcome is filtered for by the
/// word it is stored under.
pub proof fn law_a_flag_means_what_it_names(outcome: OutcomeArg, visibility: VisibilityArg)
    ensures
        contract_outcome(outcome) is Success <==> outcome is Success,
        contract_outcome(outcome) is Failure <==> outcome is Failure,
        contract_outcome(outcome) is Partial <==> outcome is Partial,
        contract_outcome(outcome) is Declined <==> outcome is Declined,
        contract_visibility(visibility) is Owner <==> visibility is Owner,
        contract_visibility(visibility) is Team <==> visibility is Team,
        contract_visibility(visibility) is Org <==> visibility is Org,
        contract_visibility(visibility) is Operator <==> visibility is Operator,
        stored_outcome(outcome) == "success"@ <==> outcome is Success,
        stored_outcome(outcome) == "failure"@ <==> outcome is Failure,
        stored_outcome(outcome) == "partial"@ <==> outcome is Partial,
        stored_outcome(outcome) == "declined"@ <==> outcome is Declined,
{
    reveal_strlit("success");
    reveal_strlit("failure");
    reveal_strlit("partial");
    reveal_strlit("declined");
    assert("success"@[0] == 's' && "failure"@[0] == 'f' && "partial"@[0] == 'p' && "declined"@[0]
        == 'd');
}

// ---------------------------------------------------------------------------------------------
// What a process exits with

/// The code of each outcome, which scripts branch on.
pub proof fn law_each_exit_has_its_documented_code(exit: Exit)
    ensures
        exit_code(exit) == 0 <==> exit is Done,
        exit_code(exit) == 1 <==> exit is Failed,
        exit_code(exit) == 2 <==> exit is Usage,
        exit_code(exit) == 3 <==> exit is Config,
        exit_code(exit) == 4 <==> exit is Degraded,
        exit_code(exit) == 5 <==> exit is Unconfirmed,
        exit_code(exit) == 6 <==> exit is Incomplete,
        exit_code(exit) == 7 <==> exit is Spooled,
        exit_code(exit) == 8 <==> exit is Rejected,
        exit_code(exit) == 9 <==> exit is Unreachable,
        succeeds(exit) <==> exit_code(exit) == 0 || exit_code(exit) == 7,
{
}

/// An error exits as its kind and says its own text: a mistake in the command and one in the settings
/// say which they are first, and the others say their text alone; one with a cause says what was
/// attempted before it. A command that did not fail exits as it says.
pub proof fn law_an_error_exits_as_its_kind(context: Seq<char>, text: String, exit: Exit)
    ensures
        outcome_code(Err(Error::Usage(text))) == 2,
        outcome_code(Err(Error::Config(text))) == 3,
        outcome_code(Err(Error::Unconfirmed(text))) == 5,
        outcome_code(Err(Error::Rejected(text))) == 8,
        outcome_code(Err(Error::Unreachable(text))) == 9,
        outcome_code(Err(Error::Failed(text))) == 1,
        outcome_code(Ok(exit)) == exit_code(exit),
        attempted(context, text@) == context + ": "@ + text@,
        printed(Error::Usage(text)@) == "usage: "@ + text@,
        printed(Error::Config(text)@) == "config: "@ + text@,
        printed(Error::Unconfirmed(text)@) == text@,
        printed(Error::Rejected(text)@) == text@,
        printed(Error::Unreachable(text)@) == text@,
        printed(Error::Failed(text)@) == text@,
{
}

/// What an operator command needs open before it runs: a restore only a place to put a store, a guard
/// and the knowledge commands only the root of one, printing the hook nothing, and every other command
/// an open store.
pub proof fn law_a_command_opens_what_it_needs(command: Command)
    ensures
        opening_of(command) is Destination <==> command is Restore,
        opening_of(command) is Nothing <==> (command matches Command::GuardCommit { print_hook, .. }
            && print_hook),
        opening_of(command) is Root <==> command is Knowledge || (
        command matches Command::GuardCommit { print_hook, .. } && !print_hook),
        opening_of(command) is Store <==> !(command is Restore) && !(command is GuardCommit) && !(
        command is Knowledge),
{
}

// ---------------------------------------------------------------------------------------------
// Where a setting comes from

/// Whether a setting is what its flag gives, or else what its variable holds where that is not empty,
/// or else nothing.
pub open spec fn comes_from(
    setting: Option<Seq<u8>>,
    flag: Option<OsPath>,
    variable: Option<Vec<u8>>,
) -> bool {
    match flag {
        Some(path) => setting == Some(path@),
        None => match variable {
            Some(value) => if value@.len() > 0 {
                setting == Some(value@)
            } else {
                setting is None
            },
            None => setting is None,
        },
    }
}

/// Every setting of a store comes from its own flag or its own variable. The index and the key store
/// stand under the root where nothing says otherwise, and the two files that are read have no default.
pub proof fn law_each_store_setting_has_its_own_source(
    settings: StoreSettings,
    flags: StoreArgs,
    env: Env,
)
    requires
        store_resolved(settings, flags, env),
        root_of(flags, env) is Some,
    ensures
        comes_from(Some(settings.paths.root@), flags.root, env.root),
        comes_from(Some(settings.paths.index@), flags.index, env.index) || (comes_from(
            None,
            flags.index,
            env.index,
        ) && settings.paths.index@ == joined(settings.paths.root@, encode_utf8("index.sqlite"@))),
        comes_from(Some(settings.paths.key_store@), flags.key_store, env.key_store) || (comes_from(
            None,
            flags.key_store,
            env.key_store,
        ) && settings.paths.key_store@ == joined(settings.paths.root@, encode_utf8("keystore"@))),
        comes_from(
            path_given(settings.key_passphrase_file),
            flags.key_passphrase_file,
            env.key_passphrase_file,
        ),
        comes_from(
            path_given(settings.subject_key_file),
            flags.subject_key_file,
            env.subject_key_file,
        ),
{
}

/// What a store needs before anything opens it: a root, and, where the store has to be there already,
/// that the root and the `spec` below it are directories; and never an index that is one. What is
/// missing is a mistake in the configuration.
pub proof fn law_a_store_is_refused_where_it_cannot_be_one(
    flags: StoreArgs,
    env: Env,
    dirs: Seq<OsPath>,
    existing: bool,
)
    ensures
        store_fault(flags, env, dirs, existing) matches Some(fault) ==> fault.exit == Exit::Config,
        store_fault(flags, env, dirs, existing) is None <==> {
            &&& root_of(flags, env) is Some
            &&& existing ==> among(root_of(flags, env)->0, dirs) && among(
                joined(root_of(flags, env)->0, encode_utf8("spec"@)),
                dirs,
            )
            &&& index_of(flags, env) matches Some(index) ==> !among(index, dirs)
        },
        comes_from(root_of(flags, env), flags.root, env.root),
        comes_from(index_of(flags, env), flags.index, env.index),
        comes_from(key_store_of(flags, env), flags.key_store, env.key_store),
{
}

/// What has to be known of the filesystem before a store is resolved: of the root and the `spec` below
/// it, and of an index that was named.
pub proof fn law_a_store_asks_about_its_own_paths(flags: StoreArgs, env: Env)
    ensures
        asked_of(flags, env).len() == (if root_of(flags, env) is Some {
            2int
        } else {
            0
        }) + (if index_of(flags, env) is Some {
            1int
        } else {
            0
        }),
        root_of(flags, env) matches Some(root) ==> asked_of(flags, env)[0] == root && asked_of(
            flags,
            env,
        )[1] == joined(root, encode_utf8("spec"@)),
        index_of(flags, env) matches Some(index) ==> asked_of(flags, env).last() == index,
{
}

/// A variable counts where its flag was not given and it is not empty, and a text only where it is text.
pub proof fn law_a_variable_counts_where_it_says_something(value: Seq<u8>)
    ensures
        value.len() > 0 ==> picked(None, Some(value)) == Some(value),
        value.len() == 0 ==> picked(None, Some(value)) is None,
        valid_utf8(value) && decode_utf8(value).len() > 0 ==> picked_text(None, Some(value)) == Some(
            decode_utf8(value),
        ),
        !(valid_utf8(value) && decode_utf8(value).len() > 0) ==> picked_text(None, Some(value))
            is None,
        picked(None, None) is None,
        picked_text(None, None) is None,
{
}

/// Where nothing says otherwise, the index and the keys of a store stand under its root.
pub proof fn law_a_store_keeps_together(root: Seq<u8>)
    ensures
        default_index(root) == joined(root, encode_utf8("index.sqlite"@)),
        default_key_store(root) == joined(root, encode_utf8("keystore"@)),
        spec_dir_of(root) == joined(root, encode_utf8("spec"@)),
{
}

/// The service listens where its flag or its variable says, and on the loopback address where neither
/// does; it is maintained as often as its flag says, or its variable where that is a number, and every
/// thirty seconds where neither is set. A variable that is no number is refused rather than ignored.
pub proof fn law_a_service_listens_and_sweeps_as_it_is_told(flags: ServerArgs, env: Env)
    ensures
        flags.listen matches Some(listen) ==> listen_of(flags, env) == listen@,
        flags.listen is None && env.listen is None ==> listen_of(flags, env) == "127.0.0.1:8787"@,
        flags.listen is None ==> (env.listen matches Some(value) ==> valid_utf8(value@)
            && decode_utf8(value@).len() > 0 ==> listen_of(flags, env) == decode_utf8(value@)),
        flags.listen is None ==> (env.listen matches Some(value) ==> !(valid_utf8(value@)
            && decode_utf8(value@).len() > 0) ==> listen_of(flags, env) == "127.0.0.1:8787"@),
        flags.maintenance_ms matches Some(ms) ==> maintenance_of(flags, env) == Some(ms as nat),
        flags.maintenance_ms is None && env.maintenance_ms is None ==> maintenance_of(flags, env)
            == Some(30_000nat),
        flags.maintenance_ms is None ==> (env.maintenance_ms matches Some(value) ==> valid_utf8(
            value@,
        ) && decode_utf8(value@).len() > 0 ==> maintenance_of(flags, env) == unsigned(
            decode_utf8(value@),
            u64::MAX as nat,
        )),
{
}

/// A service starts exactly where its store is one, its address is accepted, it was given a keyring and
/// its maintenance interval is a number. What is missing is a mistake in the configuration.
pub proof fn law_a_service_is_refused_where_it_cannot_start(
    flags: ServerArgs,
    env: Env,
    dirs: Seq<OsPath>,
    refused: Option<Seq<char>>,
)
    ensures
        server_fault(flags, env, dirs, refused) matches Some(fault) ==> fault.exit == Exit::Config,
        server_fault(flags, env, dirs, refused) is None <==> {
            &&& store_fault(flags.store, env, dirs, true) is None
            &&& refused is None
            &&& !comes_from(None, flags.keyring, env.keyring)
            &&& maintenance_of(flags, env) is Some
        },
{
}

proof fn lemma_sockets(specs: Seq<Seq<char>>)
    ensures
        sockets_of(specs) matches Ok(list) ==> {
            &&& list.len() == specs.len()
            &&& forall|i: int|
                0 <= i < list.len() ==> socket_of(#[trigger] specs[i]) == Ok::<SocketModel, Fault>(
                    list[i],
                )
        },
        sockets_of(specs) matches Err(fault) ==> fault.exit == Exit::Usage && exists|i: int|
            0 <= i < specs.len() && socket_of(#[trigger] specs[i]) is Err,
    decreases specs.len(),
{
    if specs.len() > 0 {
        let before = specs.drop_last();
        lemma_sockets(before);
        match sockets_of(specs) {
            Ok(list) => {
                assert forall|i: int| 0 <= i < list.len() implies socket_of(#[trigger] specs[i])
                    == Ok::<SocketModel, Fault>(list[i]) by {
                    if i < before.len() {
                        assert(specs[i] == before[i]);
                    }
                }
            },
            Err(_) => {
                if sockets_of(before) is Err {
                    let i = choose|i: int| 0 <= i < before.len() && socket_of(#[trigger] before[i])
                        is Err;
                    assert(specs[i] == before[i]);
                } else {
                    assert(socket_of(specs[specs.len() - 1]) is Err);
                }
            },
        }
    }
}

/// A socket is `agent=path`, cut at its first `=`, with both halves there. A sidecar's sockets are the
/// ones its flags name, in order.
pub proof fn law_a_socket_is_an_agent_and_a_path(specs: Seq<Seq<char>>)
    ensures
        sockets_of(specs) matches Ok(list) ==> {
            &&& list.len() == specs.len()
            &&& forall|i: int|
                0 <= i < list.len() ==> {
                    let one = #[trigger] list[i];
                    &&& one.agent.len() > 0
                    &&& !one.agent.contains('=')
                    &&& exists|path: Seq<char>|
                        path.len() > 0 && one.path == encode_utf8(path) && #[trigger] (one.agent
                            + seq!['='] + path) == specs[i]
                }
        },
        sockets_of(specs) matches Err(fault) ==> fault.exit == Exit::Usage,
{
    lemma_sockets(specs);
    match sockets_of(specs) {
        Ok(list) => {
            assert forall|i: int| 0 <= i < list.len() implies ({
                let one = #[trigger] list[i];
                &&& one.agent.len() > 0
                &&& !one.agent.contains('=')
                &&& exists|path: Seq<char>|
                    path.len() > 0 && one.path == encode_utf8(path) && #[trigger] (one.agent
                        + seq!['='] + path) == specs[i]
            }) by {
                law_a_cut_is_the_first(specs[i], '=');
                assert(socket_of(specs[i]) == Ok::<SocketModel, Fault>(list[i]));
                let (agent, path) = crate::text::split_once(specs[i], '=')->0;
                assert(list[i].agent + seq!['='] + path == specs[i]);
            }
        },
        Err(_) => {},
    }
}

/// A sidecar is refused where it has no state directory, a socket is not `agent=path`, its spool would
/// hold nothing or it would retry without waiting; and where none of that holds it is not.
pub proof fn law_a_sidecar_is_refused_where_it_cannot_serve(
    flags: AgentArgs,
    env: Env,
    dirs: Seq<OsPath>,
)
    ensures
        agent_fault(flags, env, dirs) is None <==> {
            &&& state_dir_of(flags, env) matches Some(dir) && among(dir, dirs)
            &&& sockets_of(texts(flags.sockets@)) is Ok
            &&& flags.spool_capacity != Some(0usize)
            &&& flags.retry_interval_ms != Some(0u64)
        },
        agent_fault(flags, env, dirs) matches Some(fault) ==> {
            &&& fault.exit == Exit::Config || fault.exit == Exit::Usage
            &&& fault.exit == Exit::Usage ==> sockets_of(texts(flags.sockets@)) is Err
        },
        comes_from(state_dir_of(flags, env), flags.state_dir, env.agent_state),
{
    lemma_sockets(texts(flags.sockets@));
}

/// How much is logged is one of five words, in any case and with white space around it; anything else,
/// and nothing at all, is the level an operator reads.
pub proof fn law_a_level_is_named(value: Option<Seq<u8>>, name: Seq<char>)
    requires
        value matches Some(value) ==> valid_utf8(value) && name == lowered(trim(decode_utf8(value))),
    ensures
        level_of(value) is Trace <==> value is Some && name == "trace"@,
        level_of(value) is Debug <==> value is Some && name == "debug"@,
        level_of(value) is Warn <==> value is Some && name == "warn"@,
        level_of(value) is Error <==> value is Some && name == "error"@,
        level_of(value) is Info <==> value is None || (name != "trace"@ && name != "debug"@ && name
            != "warn"@ && name != "error"@),
{
    reveal_strlit("trace");
    reveal_strlit("debug");
    reveal_strlit("warn");
    reveal_strlit("error");
    assert("trace"@[0] == 't' && "debug"@[0] == 'd' && "warn"@[0] == 'w' && "error"@[0] == 'e');
}

/// A level that is not even text is the level an operator reads.
pub proof fn law_a_level_that_is_not_text_is_the_default(value: Seq<u8>)
    requires
        !valid_utf8(value),
    ensures
        level_of(Some(value)) is Info,
{
}

/// A passphrase loses one line ending and nothing else.
pub proof fn law_a_passphrase_loses_its_line_ending_only(read: Seq<u8>)
    ensures
        unterminated(read) == read || unterminated(read).push(10) == read || unterminated(read).push(
            13,
        ) == read || unterminated(read).push(13).push(10) == read,
        read.len() > 0 && read.last() == 10 ==> unterminated(read) != read,
{
    if read.len() > 0 && read.last() == 10 {
        let line = read.drop_last();
        assert(line.push(10) =~= read);
        if line.len() > 0 && line.last() == 13 {
            assert(line.drop_last().push(13) =~= line);
        }
    } else if read.len() > 0 && read.last() == 13 {
        assert(read.drop_last().push(13) =~= read);
    }
}

// ---------------------------------------------------------------------------------------------
// What a sidecar plans

/// A limit is what the command line says, or else what the configuration says, or else its default:
/// a thousand and twenty-four entries, and five seconds between tries. Neither limit is taken for the
/// other.
pub proof fn law_a_limit_has_one_source(settings: AgentSettings, configured: Config)
    ensures
        settings.spool_capacity matches Some(n) ==> limits_of(settings, configured).spool_capacity
            == n,
        settings.spool_capacity is None ==> (configured.spool_capacity matches Some(n) ==> limits_of(
            settings,
            configured,
        ).spool_capacity == n),
        settings.spool_capacity is None && configured.spool_capacity is None ==> limits_of(
            settings,
            configured,
        ).spool_capacity == 1024,
        settings.retry_interval_ms matches Some(ms) ==> limits_of(
            settings,
            configured,
        ).retry_interval_ms == ms,
        settings.retry_interval_ms is None ==> (configured.retry_interval_ms matches Some(ms)
            ==> limits_of(settings, configured).retry_interval_ms == ms),
        settings.retry_interval_ms is None && configured.retry_interval_ms is None ==> limits_of(
            settings,
            configured,
        ).retry_interval_ms == 5_000,
{
}

/// Whether one of some sockets is an agent's.
pub open spec fn is_served(sockets: Seq<SocketModel>, agent: Seq<char>) -> bool {
    exists|i: int| 0 <= i < sockets.len() && (#[trigger] sockets[i]).agent == agent
}

/// A sidecar that names no socket binds one for each agent it signs as, and no other: below `sockets`
/// in its state directory, under the agent's name.
pub proof fn law_default_sockets_are_named_after_their_agents(
    sockets: Seq<SocketModel>,
    state_dir: Seq<u8>,
    agents: Seq<Seq<char>>,
)
    requires
        are_default_sockets(sockets, state_dir, agents),
    ensures
        sockets.len() == agents.len(),
        forall|i: int, j: int|
            0 <= i <= j < sockets.len() ==> ordered(
                (#[trigger] sockets[i]).agent,
                (#[trigger] sockets[j]).agent,
            ),
        forall|k: int| 0 <= k < agents.len() ==> is_served(sockets, #[trigger] agents[k]),
        forall|i: int|
            0 <= i < sockets.len() ==> {
                &&& (#[trigger] sockets[i]).path == joined(
                    joined(state_dir, encode_utf8("sockets"@)),
                    encode_utf8(sockets[i].agent + ".sock"@),
                )
                &&& agents.contains(sockets[i].agent)
            },
{
    let named = sockets.map_values(|socket: SocketModel| socket.agent);
    named.to_multiset_ensures();
    agents.to_multiset_ensures();
    assert(named.len() == agents.len());
    assert forall|i: int, j: int| 0 <= i <= j < sockets.len() implies ordered(
        (#[trigger] sockets[i]).agent,
        (#[trigger] sockets[j]).agent,
    ) by {
        assert(named[i] == sockets[i].agent && named[j] == sockets[j].agent);
    }
    assert forall|k: int| 0 <= k < agents.len() implies is_served(
        sockets,
        #[trigger] agents[k],
    ) by {
        assert(agents.contains(agents[k]));
        assert(agents.to_multiset().contains(agents[k]));
        assert(named.contains(agents[k]));
        let i = choose|i: int| 0 <= i < named.len() && named[i] == agents[k];
        assert(sockets[i].agent == agents[k]);
    }
    assert forall|i: int| 0 <= i < sockets.len() implies agents.contains(
        (#[trigger] sockets[i]).agent,
    ) by {
        assert(named[i] == sockets[i].agent);
        assert(named.contains(sockets[i].agent));
        assert(named.to_multiset().contains(sockets[i].agent));
    }
}

/// A plan is refused where the configuration could not be read, its public key or a signing key is
/// unusable, or there is no caller to serve: all of them mistakes in the configuration. It is made
/// wherever none of that holds.
pub proof fn law_a_plan_is_refused_where_nobody_could_be_served(
    settings: AgentSettings,
    loaded: Result<Config, String>,
)
    ensures
        plan_fault(settings, loaded) matches Some(fault) ==> fault.exit == Exit::Config,
        plan_fault(settings, loaded) is None <==> (loaded matches Ok(configured) && {
            &&& service_fault(configured.service_public_key@) is None
            &&& signing_map(configured.signing_keys@) is Ok
            &&& settings.sockets@.len() > 0 || configured.signing_keys@.len() > 0
        }),
        loaded matches Err(cause) ==> (plan_fault(settings, loaded) matches Some(fault) && occurs(
            fault.text,
            cause@,
        )),
{
    broadcast use crate::text_laws::group_says;
}

// ---------------------------------------------------------------------------------------------
// What is announced

/// Whether a notice states a setting of the process and its value, and warns of nothing.
pub open spec fn states(notice: NoticeModel, setting: Seq<char>, value: Seq<char>) -> bool {
    !notice.warns && notice.setting == Some(setting) && notice.value == Some(value)
}

/// A service announces where its store, its index and its keys are, where it listens, which keyring it
/// reads, how often it sweeps, what its sidecars seal to and how its keys are wrapped, each value under
/// its own name; where nothing can be unsealed it warns of that instead; and it warns of its keys
/// exactly where there is something to warn of.
pub proof fn law_a_service_announces_its_settings(
    settings: ServerSettings,
    address: Seq<char>,
    public: Option<Seq<u8>>,
    keys: KeyReport,
)
    ensures
        ({
            let said = announcement(settings, address, public, keys);
            &&& said.len() == 9 + (if warning_of(keys.on_disk, keys.wrapper_protects) is Some {
                1int
            } else {
                0
            })
            &&& states(said[0], "root"@, utf8_lossy(settings.store.paths.root@))
            &&& said[1].setting == Some("index"@)
            &&& said[1].value matches Some(value) && occurs(
                value,
                utf8_lossy(settings.store.paths.index@),
            )
            &&& said[2].setting == Some("key-store"@)
            &&& said[2].value matches Some(value) && occurs(
                value,
                utf8_lossy(settings.store.paths.key_store@),
            )
            &&& states(said[3], "listen"@, address)
            &&& states(said[4], "keyring"@, utf8_lossy(settings.keyring@))
            &&& states(said[5], "maintenance-ms"@, decimal(settings.maintenance_ms as nat))
            &&& public matches Some(public) ==> states(
                said[6],
                "sealing-public-key"@,
                hex_text(public),
            )
            &&& public is None ==> said[6].warns
            &&& states(said[7], "key wrapping"@, keys.wrapping@)
            &&& states(said[8], "key wrapper"@, keys.wrapper@)
            &&& said.len() == 10 ==> said[9].warns && Some(said[9].message) == warning_of(
                keys.on_disk,
                keys.wrapper_protects,
            )
        }),
{
    broadcast use crate::text_laws::group_says;
}

/// The one warning a service gives of its keys: keys anyone can use are always said out loud; without a
/// wrapper, a store without keys is warned of what will be written, and one with wrapped keys of what
/// cannot be read; a service that holds a wrapper is warned of nothing else.
pub proof fn law_each_key_warning_has_its_cause(on_disk: KeyMaterial, wrapper_protects: bool)
    ensures
        on_disk is Unwrapped || on_disk is Mixed ==> warning_of(on_disk, wrapper_protects) == Some(
            KEYS_EXPOSED@,
        ),
        on_disk is Absent && !wrapper_protects ==> warning_of(on_disk, wrapper_protects) == Some(
            KEYS_WILL_BE_IN_THE_CLEAR@,
        ),
        !(on_disk is Unwrapped || on_disk is Mixed || on_disk is Absent) && !wrapper_protects
            ==> warning_of(on_disk, wrapper_protects) == Some(KEYS_UNREADABLE@),
        !(on_disk is Unwrapped || on_disk is Mixed) && wrapper_protects ==> warning_of(
            on_disk,
            wrapper_protects,
        ) is None,
{
}

/// A path is announced as it is, and as relocated exactly where it is not the default one.
pub proof fn law_a_relocated_path_is_said_to_be(path: Seq<u8>, default: Seq<u8>)
    ensures
        relocated_text(path, default) == (if crate::path::same_place(path, default) {
            utf8_lossy(path)
        } else {
            utf8_lossy(path) + " (relocated)"@
        }),
{
    reveal_strlit("");
    assert(utf8_lossy(path) + ""@ =~= utf8_lossy(path));
}

/// A round of maintenance is spoken of as loudly as it deserves: one that did nothing is not spoken of
/// at all.
pub proof fn law_a_round_is_said_as_it_went(round: Round)
    ensures
        said_of(round) is Nothing <==> (round matches Round::Ran { did_nothing } && did_nothing),
        said_of(round) is Info <==> (round matches Round::Ran { did_nothing } && !did_nothing),
        said_of(round) is Warning <==> round is Failed,
        said_of(round) is Error <==> round is Panicked,
{
}

proof fn lemma_socket_notices(sockets: Seq<SocketModel>)
    ensures
        socket_notices(sockets).len() == 2 * sockets.len(),
        forall|i: int|
            0 <= i < sockets.len() ==> {
                let records = socket_notices(sockets)[2 * i];
                let reads = socket_notices(sockets)[2 * i + 1];
                &&& records.agent == Some((#[trigger] sockets[i]).agent)
                &&& records.serves == Some("records"@)
                &&& states(records, "socket"@, utf8_lossy(sockets[i].path))
                &&& reads.agent == Some(sockets[i].agent)
                &&& reads.serves == Some("reads"@)
                &&& states(reads, "socket"@, utf8_lossy(read_path_of(sockets[i].path)))
            },
    decreases sockets.len(),
{
    if sockets.len() > 0 {
        let before = sockets.drop_last();
        lemma_socket_notices(before);
        assert forall|i: int| 0 <= i < sockets.len() implies ({
            let records = socket_notices(sockets)[2 * i];
            let reads = socket_notices(sockets)[2 * i + 1];
            &&& records.agent == Some((#[trigger] sockets[i]).agent)
            &&& records.serves == Some("records"@)
            &&& states(records, "socket"@, utf8_lossy(sockets[i].path))
            &&& reads.agent == Some(sockets[i].agent)
            &&& reads.serves == Some("reads"@)
            &&& states(reads, "socket"@, utf8_lossy(read_path_of(sockets[i].path)))
        }) by {
            if i < before.len() {
                assert(before[i] == sockets[i]);
            }
        }
    }
}

/// A sidecar announces both sockets of every caller, the one for records and the one for reads, in the
/// order of its callers, and then its two limits, each under its own name.
pub proof fn law_a_sidecar_announces_its_sockets(sockets: Seq<SocketModel>, limits: Limits)
    ensures
        ({
            let said = sidecar_announcement(sockets, limits);
            let n = sockets.len() as int;
            &&& said.len() == 2 * n + 2
            &&& forall|i: int|
                0 <= i < n ==> {
                    let records = said[2 * i];
                    let reads = said[2 * i + 1];
                    &&& records.agent == Some((#[trigger] sockets[i]).agent)
                    &&& records.serves == Some("records"@)
                    &&& states(records, "socket"@, utf8_lossy(sockets[i].path))
                    &&& reads.agent == Some(sockets[i].agent)
                    &&& reads.serves == Some("reads"@)
                    &&& states(reads, "socket"@, utf8_lossy(read_path_of(sockets[i].path)))
                }
            &&& states(said[2 * n], "spool-capacity"@, decimal(limits.spool_capacity as nat))
            &&& states(
                said[2 * n + 1],
                "retry-interval-ms"@,
                decimal(limits.retry_interval_ms as nat),
            )
        }),
{
    lemma_socket_notices(sockets);
}

/// A list is spoken of item by item, in its own order: sockets, agents, credentials and notices.
pub proof fn law_a_list_is_spoken_of_item_by_item(
    sockets: Seq<CallerSocket>,
    entries: Seq<SigningEntry>,
    credentials: Seq<Credential>,
    notices: Seq<Notice>,
    i: int,
)
    ensures
        socket_models(sockets).len() == sockets.len(),
        0 <= i < sockets.len() ==> socket_models(sockets)[i].agent == sockets[i].agent@
            && socket_models(sockets)[i].path == sockets[i].path@,
        agents_of(entries).len() == entries.len(),
        0 <= i < entries.len() ==> agents_of(entries)[i] == entries[i].agent@,
        credential_models(credentials).len() == credentials.len(),
        0 <= i < credentials.len() ==> {
            let model = credential_models(credentials)[i];
            &&& model.agent == credentials[i].agent@
            &&& model.role == credentials[i].role
            &&& model.current == credentials[i].current@
            &&& credentials[i].previous matches Some(key) ==> model.previous == Some(key@)
            &&& credentials[i].previous is None ==> model.previous is None
            &&& model.teams == texts(credentials[i].teams@)
            &&& model.files_subject_derived == credentials[i].files_subject_derived
        },
        notice_models(notices).len() == notices.len(),
        0 <= i < notices.len() ==> notice_models(notices)[i] == notices[i]@,
{
}

} // verus!
