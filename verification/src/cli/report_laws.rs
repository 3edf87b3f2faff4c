//! What holds of every report a command prints: what it exits with, and which figure stands behind
//! which label.

use vstd::prelude::*;

use crate::cli::error::Fault;
use crate::cli::exit::Exit;
use crate::cli::knowledge::{
    build_report, drift_note, erasable_note, evidence_report, json_lines, key_of, limit_note,
    listed_line, listed_lines, note_report, scoped_note, search_report, status_report, tree_of,
    unanswered_note, BuildReport, NoteLine, SyncState,
};
use crate::cli::ops::{
    attested_line, attested_lines, backlog_note, backup_report, check_report, drain_remainder,
    drain_report, drain_text, drift_advice, duration_text, erase_report, excluded_line,
    excluded_lines, fanout_note, fanout_text, health_figures, logged_line, logged_lines,
    mixed_advice, quarantine_advice, quarantine_age, quarantine_parts, reindex_report,
    restore_keys_report, restore_report, resurrected_advice, returned_note, skipped_note,
    timelines_note, tombstoned_note, unblocked_note, undone_note, unknown_note, verify_report,
    waiting_note, walked_back_text, Attestation, Attested, BackupReport, DrainReport, ErasePreview,
    Erasing, HealthReport, KeyMaterial, KeyRestorePreview, KeyRestoreReport, LoggedErasure,
    ManifestEntry, ReindexReport, RestoreReport, DEAD_LETTERED, HELD, NO_ERASURE_RECORDED, RETAINED,
};
use crate::cli::query_laws::is_entity;
use crate::cli::report::{row, text_row};
use crate::cli::retention::{
    epoch_line, epoch_lines, held_text, hold_lines, hold_text, holds_text, list_report,
    place_report, release_report, retain_report, unaged_text, unheld_note, EpochKeys, Hold,
    RetainReport,
};
use crate::text::{decimal, join, occurs, texts};
use crate::text_laws::{group_says, law_a_cut_is_the_first, lemma_said_within};

verus! {

// ---------------------------------------------------------------------------------------------
// What a command exits with

/// A recovery that was confirmed succeeds exactly where every erasure on record is attested, and is
/// incomplete exactly where one is not.
pub proof fn law_a_recovery_succeeds_where_every_erasure_is_attested(
    from: Seq<u8>,
    into: Seq<u8>,
    preview: KeyRestorePreview,
    report: KeyRestoreReport,
)
    ensures
        restore_keys_report(from, into, preview, Some(report)).outcome == Ok::<Exit, Fault>(
            Exit::Done,
        ) <==> report.all_attested,
        restore_keys_report(from, into, preview, Some(report)).outcome == Ok::<Exit, Fault>(
            Exit::Incomplete,
        ) <==> !report.all_attested,
{
}

/// A command that leaves nothing for an operator is done, and one that leaves something is degraded:
/// a drain, a rebuild and a restore by what the drained queue says, or that it could not be drained at
/// all; a check by the store's own judgement; a backup by a file beside the store that no manifest
/// names; a build by a source or a stamp that would not parse. None of them fails.
pub proof fn law_a_command_is_degraded_where_something_is_left_to_do(
    place: Seq<u8>,
    other: Seq<u8>,
    drained: DrainReport,
    after: Result<DrainReport, String>,
    rebuilt: ReindexReport,
    restored: RestoreReport,
    health: HealthReport,
    copied: BackupReport,
    excluded: Seq<ManifestEntry>,
    built: BuildReport,
)
    ensures
        drain_report(place, drained).outcome == Ok::<Exit, Fault>(Exit::Degraded)
            <==> drained.needs_attention,
        drain_report(place, drained).outcome == Ok::<Exit, Fault>(Exit::Done)
            <==> !drained.needs_attention,
        reindex_report(place, rebuilt, after).outcome == Ok::<Exit, Fault>(Exit::Done) <==> (
        after matches Ok(drained) && !drained.needs_attention),
        reindex_report(place, rebuilt, after).outcome == Ok::<Exit, Fault>(Exit::Degraded) <==> (
        after matches Ok(drained) ==> drained.needs_attention),
        restore_report(place, other, restored, after).outcome == Ok::<Exit, Fault>(Exit::Done)
            <==> (after matches Ok(drained) && !drained.needs_attention),
        restore_report(place, other, restored, after).outcome == Ok::<Exit, Fault>(Exit::Degraded)
            <==> (after matches Ok(drained) ==> drained.needs_attention),
        check_report(place, other, health).outcome == Ok::<Exit, Fault>(Exit::Degraded)
            <==> health.needs_attention,
        check_report(place, other, health).outcome == Ok::<Exit, Fault>(Exit::Done)
            <==> !health.needs_attention,
        backup_report(place, other, copied, excluded).outcome == Ok::<Exit, Fault>(Exit::Degraded)
            <==> copied.unclassified@.len() > 0,
        backup_report(place, other, copied, excluded).outcome == Ok::<Exit, Fault>(Exit::Done)
            <==> copied.unclassified@.len() == 0,
        build_report(place, built).outcome == Ok::<Exit, Fault>(Exit::Degraded) <==> (
        built.skipped_untimed > 0 || built.skipped_unreadable > 0),
        build_report(place, built).outcome == Ok::<Exit, Fault>(Exit::Done) <==> (
        built.skipped_untimed == 0 && built.skipped_unreadable == 0),
{
}

/// Reading what is known never fails for finding nothing: a note, a search, the evidence behind a fact
/// and the holds that stand are answers whatever they hold. Only a tree that no build completed is
/// degraded, and only a hold that could not be lifted is rejected.
pub proof fn law_an_empty_answer_is_an_answer(
    root: Seq<u8>,
    state: Option<SyncState>,
    kind: Seq<char>,
    id: Seq<char>,
    rendered: Option<Seq<char>>,
    limit: usize,
    notes: Seq<NoteLine>,
    asked: nat,
    found: Seq<Seq<char>>,
    holds: Seq<Hold>,
    released: Result<Hold, String>,
    reason: Seq<char>,
    operator: Seq<char>,
)
    ensures
        status_report(root, state).outcome == Ok::<Exit, Fault>(Exit::Done) <==> state is Some,
        status_report(root, state).outcome == Ok::<Exit, Fault>(Exit::Degraded) <==> state is None,
        note_report(kind, id, rendered).outcome == Ok::<Exit, Fault>(Exit::Done),
        rendered matches Some(text) ==> note_report(kind, id, rendered).text == text,
        search_report(kind, limit, notes).outcome == Ok::<Exit, Fault>(Exit::Done),
        evidence_report(asked, found).outcome == Ok::<Exit, Fault>(Exit::Done),
        place_report(holds).outcome == Ok::<Exit, Fault>(Exit::Done),
        list_report(holds).outcome == Ok::<Exit, Fault>(Exit::Done),
        release_report(released, reason, operator).outcome == (match released {
            Ok(_) => Ok::<Exit, Fault>(Exit::Done),
            Err(cause) => Err(Fault { exit: Exit::Rejected, text: cause@ }),
        }),
{
}

// ---------------------------------------------------------------------------------------------
// Which figure stands behind which label

/// A line of figures starts with its label, indented by two, ends its line, and holds the figure after
/// enough room that short labels line up.
pub proof fn law_a_row_is_its_label_and_its_figure(label: Seq<char>, count: nat, value: Seq<char>)
    ensures
        row(label, count) == text_row(label, decimal(count)),
        text_row(label, value).len() == 2 + (if label.len() < 20 {
            20
        } else {
            label.len()
        }) + value.len() + 1,
        text_row(label, value).subrange(2, 2 + label.len() as int) == label,
        text_row(label, value).subrange(
            text_row(label, value).len() - 1 - value.len(),
            text_row(label, value).len() - 1,
        ) == value,
        text_row(label, value).last() == '\n',
{
    reveal_strlit("  ");
    reveal_strlit("\n");
    let line = text_row(label, value);
    assert(line.subrange(2, 2 + label.len() as int) =~= label);
    assert(line.subrange(line.len() - 1 - value.len(), line.len() - 1) =~= value);
}

/// A drain says how many jobs were settled, how many are left, how many were set aside and what bounded
/// it, each behind its own label; it explains what is left exactly where something is, and what was set
/// aside where something was.
pub proof fn law_a_drain_says_its_figures(root: Seq<u8>, report: DrainReport)
    ensures
        ({
            let text = drain_report(root, report).text;
            &&& occurs(text, row("jobs settled"@, report.settled as nat))
            &&& occurs(text, row("jobs still queued"@, report.remaining as nat))
            &&& occurs(text, row("set aside"@, report.dead_lettered as nat))
            &&& occurs(text, row("bound"@, report.budget as nat))
            &&& report.dead_lettered > 0 ==> occurs(text, DEAD_LETTERED@)
        }),
        drain_remainder(report).len() == 0 <==> !report.hit_bound && report.remaining == 0,
        report.hit_bound ==> drain_remainder(report)[0] == 't',
        !report.hit_bound && report.remaining > 0 ==> drain_remainder(report)[0] == 'w',
{
    broadcast use group_says;
    reveal_strlit("");
    reveal_strlit(
        "the bound stopped this drain, not an empty queue: it is one pass over the work, so that a command cannot be held open by a writer filling the queue beside it. Run `yaam drain` again for the rest.\n",
    );
    reveal_strlit(
        "what is left failed and is waiting out its retry delay. It stays queued: run `yaam drain` again in a moment, or let a running service converge it.\n",
    );
}

/// A rebuild says where its rows came from, what it replayed, dropped and skipped, each behind its own
/// label, and then what draining its fan-out came to.
pub proof fn law_a_rebuild_says_its_figures(
    index: Seq<u8>,
    report: ReindexReport,
    drained: Result<DrainReport, String>,
)
    ensures
        ({
            let text = reindex_report(index, report, drained).text;
            &&& occurs(text, row("from the tree"@, report.from_tree as nat))
            &&& occurs(text, row("from cold manifests"@, report.from_manifests as nat))
            &&& occurs(text, row("erasures replayed"@, report.tombstones_replayed as nat))
            &&& occurs(text, row("timelines dropped"@, report.timelines_dropped as nat))
            &&& occurs(text, row("files skipped"@, report.skipped as nat))
            &&& drained matches Ok(drained) ==> occurs(text, drain_text(drained))
            &&& drained matches Err(cause) ==> occurs(text, cause@)
        }),
{
    broadcast use group_says;
}

/// An erasure shows what it would destroy before it destroys anything, each figure behind its own
/// label; one that was carried out says what it destroyed and names the tombstone to confirm it by.
pub proof fn law_an_erasure_says_its_figures(
    subject: Seq<char>,
    preview: ErasePreview,
    erasing: Erasing,
)
    ensures
        ({
            let text = erase_report(subject, preview, erasing).text;
            &&& occurs(text, subject)
            &&& occurs(text, row("records naming it"@, preview.records as nat))
            &&& occurs(text, row("readable bodies"@, preview.bodies_readable as nat))
            &&& occurs(text, row("keys, all epochs"@, preview.keys as nat))
            &&& occurs(text, row("quarantined records"@, preview.quarantined as nat))
            &&& occurs(text, RETAINED@)
            &&& preview.already_tombstoned ==> occurs(
                text,
                "this subject is already tombstoned; re-running settles anything that arrived since\n"@,
            )
            &&& preview.records == 0 && preview.keys == 0 && preview.quarantined == 0 ==> occurs(
                text,
                "nothing here names this subject. Check the pseudonym before confirming: the store cannot tell a subject with no records from one whose hash was mistyped\n"@,
            )
            &&& erasing is Held ==> occurs(text, HELD@)
            &&& erasing matches Erasing::Carried(erased) ==> {
                &&& occurs(text, row("bodies sealed off"@, erased.report.bodies_sealed_off as nat))
                &&& occurs(text, row("keys destroyed"@, erased.report.keys_destroyed as nat))
                &&& occurs(text, row("quarantine settled"@, erased.report.quarantine_settled as nat))
                &&& occurs(text, erased.report.tombstone_id@)
                &&& occurs(text, fanout_text(erased.drained))
            }
        }),
        !preview.already_tombstoned ==> tombstoned_note(preview).len() == 0,
        preview.records > 0 || preview.keys > 0 || preview.quarantined > 0 ==> unknown_note(
            preview,
        ).len() == 0,
{
    broadcast use group_says;
    reveal_strlit("");
}

/// What is still owed before an erasure can be attested says how many keys are back, whether the
/// subject is blocked, and whether the window has passed or how long it has to run.
pub proof fn law_an_attestation_says_what_is_owed(tombstone: Seq<char>, attestation: Attestation)
    ensures
        ({
            let text = verify_report(tombstone, false, attestation).text;
            &&& occurs(text, tombstone)
            &&& occurs(text, row("key files present"@, attestation.keys_present as nat))
            &&& attestation.tombstoned ==> occurs(text, text_row("subject blocked"@, "yes"@))
            &&& !attestation.tombstoned ==> occurs(text, text_row("subject blocked"@, "NO"@))
            &&& attestation.window_passed ==> occurs(text, text_row("window closes in"@, "passed"@))
            &&& !attestation.window_passed ==> occurs(
                text,
                text_row("window closes in"@, duration_text(attestation.remaining_ms as int)),
            )
        }),
{
    broadcast use group_says;
}

proof fn lemma_logged_lines(logged: Seq<LoggedErasure>, i: int)
    requires
        0 <= i < logged.len(),
    ensures
        occurs(logged_lines(logged), logged_line(logged[i])),
    decreases logged.len(),
{
    broadcast use group_says;
    if i < logged.len() - 1 {
        lemma_logged_lines(logged.drop_last(), i);
        assert(logged.drop_last()[i] == logged[i]);
    }
}

proof fn lemma_attested_lines(list: Seq<Attested>, i: int)
    requires
        0 <= i < list.len(),
    ensures
        occurs(attested_lines(list), attested_line(list[i])),
    decreases list.len(),
{
    broadcast use group_says;
    if i < list.len() - 1 {
        lemma_attested_lines(list.drop_last(), i);
        assert(list.drop_last()[i] == list[i]);
    }
}

/// A recovery that was not confirmed shows what it would install and what it would be held to, each
/// figure behind its own label and each logged erasure with when it was ordered.
pub proof fn law_a_recovery_shows_what_it_would_install(
    from: Seq<u8>,
    into: Seq<u8>,
    preview: KeyRestorePreview,
)
    ensures
        ({
            let text = restore_keys_report(from, into, preview, None).text;
            &&& occurs(text, row("key files"@, preview.key_files as nat))
            &&& occurs(text, row("erasure markers"@, preview.markers as nat))
            &&& occurs(text, row("erasures logged"@, preview.logged@.len()))
            &&& occurs(text, row("subjects blocked"@, preview.blocked_here as nat))
            &&& preview.newest_erasure matches Some(ordered) ==> occurs(text, ordered@)
            &&& preview.newest_erasure is None ==> occurs(text, NO_ERASURE_RECORDED@)
            &&& forall|i: int|
                0 <= i < preview.logged@.len() ==> occurs(
                    text,
                    "  "@ + (#[trigger] preview.logged@[i]).tombstone@ + "  ordered "@
                        + preview.logged@[i].ordered@ + "\n"@,
                )
        }),
{
    broadcast use group_says;
    let text = restore_keys_report(from, into, preview, None).text;
    assert(occurs(text, logged_lines(preview.logged@)));
    assert forall|i: int| 0 <= i < preview.logged@.len() implies occurs(
        text,
        "  "@ + (#[trigger] preview.logged@[i]).tombstone@ + "  ordered "@
            + preview.logged@[i].ordered@ + "\n"@,
    ) by {
        lemma_logged_lines(preview.logged@, i);
        lemma_said_within(text, logged_lines(preview.logged@), logged_line(preview.logged@[i]));
    }
}

/// A recovery that was carried out says what it installed and what it walked back, each figure behind
/// its own label, and where every erasure on record stands.
pub proof fn law_a_recovery_says_what_it_did(
    from: Seq<u8>,
    into: Seq<u8>,
    preview: KeyRestorePreview,
    report: KeyRestoreReport,
)
    ensures
        ({
            let text = restore_keys_report(from, into, preview, Some(report)).text;
            &&& occurs(text, row("key files"@, report.files as nat))
            &&& occurs(text, row("erasure markers"@, report.markers as nat))
            &&& occurs(text, row("subjects erased"@, report.reconciled.subjects_erased as nat))
            &&& occurs(text, row("keys walked back"@, report.reconciled.keys_destroyed as nat))
            &&& occurs(text, row("blocklist restored"@, report.reconciled.blocklist_restored as nat))
            &&& report.reconciled.undid_something ==> occurs(
                text,
                "\nthis copy predates "@ + decimal(
                    (report.reconciled.subjects_resurrected
                        + report.reconciled.blocklist_restored) as nat,
                ),
            )
            &&& forall|i: int|
                0 <= i < report.attestations@.len() ==> {
                    let one = #[trigger] report.attestations@[i];
                    occurs(
                        text,
                        "  "@ + one.tombstone@ + "  "@ + (if one.attestation.complete {
                            "complete"@
                        } else if one.attestation.settled {
                            "waiting "@ + duration_text(one.attestation.remaining_ms as int)
                                + " on the key backup window"@
                        } else {
                            "NOT SETTLED — run `yaam verify-erasure` on it"@
                        }) + "\n"@,
                    )
                }
        }),
        walked_back_text(report.reconciled).len() == 0 <==> !report.reconciled.undid_something,
{
    broadcast use group_says;
    reveal_strlit("");
    reveal_strlit("\nthis copy predates ");
    let text = restore_keys_report(from, into, preview, Some(report)).text;
    if report.attestations@.len() > 0 {
        assert(occurs(text, attested_lines(report.attestations@)));
    }
    assert forall|i: int| 0 <= i < report.attestations@.len() implies occurs(
        text,
        attested_line(#[trigger] report.attestations@[i]),
    ) by {
        lemma_attested_lines(report.attestations@, i);
        lemma_said_within(
            text,
            attested_lines(report.attestations@),
            attested_line(report.attestations@[i]),
        );
    }
}

proof fn lemma_excluded_lines(entries: Seq<ManifestEntry>, found: Seq<Seq<char>>, i: int)
    requires
        0 <= i < entries.len(),
    ensures
        occurs(excluded_lines(entries, found), excluded_line(entries[i], found)),
    decreases entries.len(),
{
    broadcast use group_says;
    if i < entries.len() - 1 {
        lemma_excluded_lines(entries.drop_last(), found, i);
        assert(entries.drop_last()[i] == entries[i]);
    }
}

/// A backup says how many files and bytes it copied, names what no manifest names, and says of every
/// entry it leaves behind whether it was there and why it stays.
pub proof fn law_a_backup_says_its_figures(
    root: Seq<u8>,
    to: Seq<u8>,
    report: BackupReport,
    excluded: Seq<ManifestEntry>,
)
    ensures
        ({
            let text = backup_report(root, to, report, excluded).text;
            &&& occurs(text, row("files"@, report.files as nat))
            &&& occurs(text, row("bytes"@, report.bytes as nat))
            &&& report.unclassified@.len() > 0 ==> occurs(
                text,
                join(texts(report.unclassified@), ", "@),
            )
            &&& forall|i: int|
                0 <= i < excluded.len() ==> occurs(
                    text,
                    text_row(
                        (#[trigger] excluded[i]).name@,
                        (if texts(report.excluded@).contains(excluded[i].name@) {
                            "present"@
                        } else {
                            "absent"@
                        }) + ": "@ + excluded[i].reason@,
                    ),
                )
        }),
{
    broadcast use group_says;
    let text = backup_report(root, to, report, excluded).text;
    let found = texts(report.excluded@);
    assert(occurs(text, excluded_lines(excluded, found)));
    assert forall|i: int| 0 <= i < excluded.len() implies occurs(
        text,
        excluded_line(#[trigger] excluded[i], found),
    ) by {
        lemma_excluded_lines(excluded, found, i);
        lemma_said_within(text, excluded_lines(excluded, found), excluded_line(excluded[i], found));
    }
}

/// A restore says what it copied, indexed, replayed and walked back, each behind its own label, and
/// then what draining its fan-out came to.
pub proof fn law_a_restore_says_its_figures(
    root: Seq<u8>,
    from: Seq<u8>,
    report: RestoreReport,
    drained: Result<DrainReport, String>,
)
    ensures
        ({
            let text = restore_report(root, from, report, drained).text;
            &&& occurs(text, row("files copied"@, report.files as nat))
            &&& occurs(text, row("records indexed"@, report.records_indexed as nat))
            &&& occurs(text, row("erasures replayed"@, report.erasures_replayed as nat))
            &&& occurs(text, row("keys walked back"@, report.keys_reconciled.keys_destroyed as nat))
            &&& drained matches Ok(drained) ==> occurs(text, drain_text(drained))
            &&& drained matches Err(cause) ==> occurs(text, cause@)
        }),
{
    broadcast use group_says;
}

/// A check says the store's figures, each behind its own label.
pub proof fn law_a_check_says_its_figures(root: Seq<u8>, index: Seq<u8>, report: HealthReport)
    ensures
        ({
            let text = check_report(root, index, report).text;
            &&& occurs(
                text,
                "\nschema version     "@ + decimal(report.index.schema_version as nat)
                    + " (this build reads up to "@ + decimal(
                    report.index.supported_schema_version as nat,
                ),
            )
            &&& occurs(text, ")\nrecords indexed    "@ + decimal(report.index.records as nat))
            &&& occurs(text, "\nindex drift        "@ + decimal(report.index_drift as nat))
            &&& occurs(
                text,
                "\nsweeper backlog    "@ + decimal(report.sweeper_backlog.total as nat)
                    + " (staging "@ + decimal(report.sweeper_backlog.staged as nat)
                    + ", fan-out pending "@ + decimal(report.sweeper_backlog.fanout_pending as nat)
                    + ", stale claims "@ + decimal(report.sweeper_backlog.stale_claims as nat),
            )
            &&& occurs(text, ")\nquarantine depth   "@ + decimal(report.quarantine_depth as nat))
            &&& occurs(text, "\nresurrected keys   "@ + decimal(report.resurrected_keys as nat))
            &&& occurs(text, "\ndead-lettered      "@ + decimal(report.dead_lettered as nat))
            &&& occurs(text, "\nkey wrapping       "@ + report.key_wrapping@ + "\n"@)
            &&& report.dead_lettered > 0 ==> occurs(text, DEAD_LETTERED@)
        }),
{
    broadcast use group_says;
}

/// What a check adds to its figures, it adds where the figure behind it is not zero, and says the
/// figure: records without a row, keys that came back, held records nobody can age or that waited too
/// long, keys that were never wrapped, and work nobody got through. A healthy store is figures alone.
pub proof fn law_advice_follows_its_figure(root: Seq<u8>, index: Seq<u8>, report: HealthReport)
    ensures
        drift_advice(report).len() == 0 <==> report.index_drift == 0,
        resurrected_advice(report).len() == 0 <==> report.resurrected_keys == 0,
        quarantine_advice(report).len() == 0 <==> report.quarantine_undated == 0
            && !report.quarantine_overdue,
        mixed_advice(report).len() == 0 <==> !(report.key_material is Mixed),
        report.index_drift > 0 ==> occurs(drift_advice(report), decimal(report.index_drift as nat)),
        report.resurrected_keys > 0 ==> occurs(
            resurrected_advice(report),
            decimal(report.resurrected_keys as nat),
        ),
        report.quarantine_undated > 0 ==> occurs(
            quarantine_advice(report),
            decimal(report.quarantine_undated as nat),
        ),
        report.key_material matches KeyMaterial::Mixed { unwrapped, .. } ==> occurs(
            mixed_advice(report),
            decimal(unwrapped as nat),
        ),
        occurs(check_report(root, index, report).text, drift_advice(report)),
        occurs(check_report(root, index, report).text, resurrected_advice(report)),
        occurs(check_report(root, index, report).text, quarantine_advice(report)),
        occurs(check_report(root, index, report).text, mixed_advice(report)),
        report.sweeper_backlog.fanout_pending > 0 ==> occurs(
            check_report(root, index, report).text,
            "run `yaam drain` to run the queued fan-out now.\n"@,
        ),
        report.sweeper_backlog.total == 0 && report.sweeper_backlog.fanout_pending == 0
            && report.dead_lettered == 0 && report.index_drift == 0 && report.resurrected_keys == 0
            && report.quarantine_undated == 0 && !report.quarantine_overdue && !(report.key_material
            is Mixed) ==> check_report(root, index, report).text == health_figures(
            root,
            index,
            report,
        ),
{
    broadcast use group_says;
    reveal_strlit("");
    reveal_strlit("\n");
    reveal_strlit("\nthe oldest held record has waited ");
    if report.sweeper_backlog.total == 0 && report.sweeper_backlog.fanout_pending == 0
        && report.dead_lettered == 0 && report.index_drift == 0 && report.resurrected_keys == 0
        && report.quarantine_undated == 0 && !report.quarantine_overdue && !(report.key_material
        is Mixed) {
        assert(check_report(root, index, report).text =~= health_figures(root, index, report));
    }
}

/// What is held in quarantine is described where anything is: how old the oldest is, how many cannot
/// be aged, and that the limit has passed, each where it holds.
pub proof fn law_a_quarantine_is_described_where_there_is_one(report: HealthReport)
    ensures
        quarantine_age(report).len() == 0 <==> report.quarantine_depth == 0 || (
        report.quarantine_oldest_ms is None && report.quarantine_undated == 0
            && !report.quarantine_overdue),
        quarantine_parts(report).len() == (if report.quarantine_oldest_ms is Some {
            1int
        } else {
            0
        }) + (if report.quarantine_undated > 0 {
            1int
        } else {
            0
        }) + (if report.quarantine_overdue {
            1int
        } else {
            0
        }),
        report.quarantine_oldest_ms matches Some(age) ==> quarantine_parts(report)[0]
            == "oldest held "@ + duration_text(age as int),
        report.quarantine_undated > 0 ==> quarantine_parts(report).contains(
            decimal(report.quarantine_undated as nat) + " undated"@,
        ),
        report.quarantine_overdue ==> quarantine_parts(report).last() == "past the "@
            + duration_text(report.quarantine_sla_ms as int) + " hard stop"@,
{
    reveal_strlit("");
    reveal_strlit(" (");
    if report.quarantine_undated > 0 {
        let at: int = if report.quarantine_oldest_ms is Some {
            1
        } else {
            0
        };
        assert(quarantine_parts(report)[at] == decimal(report.quarantine_undated as nat)
            + " undated"@);
    }
}

/// A duration is said in its two largest units, whole and rounded down: days and hours from a day on,
/// hours and minutes from an hour on, and minutes below that. One that is over is said in minutes.
pub proof fn law_a_duration_is_said_in_its_largest_units(ms: int, d: nat, h: nat, m: nat)
    ensures
        0 < d && h < 24 && 86_400_000 * d + 3_600_000 * h <= ms < 86_400_000 * d + 3_600_000 * (h + 1)
            ==> duration_text(ms) == decimal(d) + "d "@ + decimal(h) + "h"@,
        0 < h < 24 && m < 60 && 3_600_000 * h + 60_000 * m <= ms < 3_600_000 * h + 60_000 * (m + 1)
            ==> duration_text(ms) == decimal(h) + "h "@ + decimal(m) + "m"@,
        m < 60 && 60_000 * m <= ms < 60_000 * (m + 1) ==> duration_text(ms) == decimal(m) + "m"@,
        ms < 0 && m < 60 && 3_600_000 * h + 60_000 * m <= -ms < 3_600_000 * h + 60_000 * (m + 1)
            ==> duration_text(ms) == crate::text::signed(-(m as int)) + "m"@,
{
    if ms >= 0 {
        let seconds = ms / 1000;
        assert(1000 * seconds <= ms < 1000 * seconds + 1000);
        if 0 < d && h < 24 && 86_400_000 * d + 3_600_000 * h <= ms < 86_400_000 * d + 3_600_000 * (h
            + 1) {
            assert(86_400 * d + 3_600 * h <= seconds < 86_400 * d + 3_600 * (h + 1));
            assert(seconds / 86_400 == d);
            assert(seconds % 86_400 == seconds - 86_400 * d);
            assert((seconds % 86_400) / 3_600 == h);
        }
        if 0 < h < 24 && m < 60 && 3_600_000 * h + 60_000 * m <= ms < 3_600_000 * h + 60_000 * (m + 1) {
            assert(3_600 * h + 60 * m <= seconds < 3_600 * h + 60 * (m + 1));
            assert(seconds / 86_400 == 0);
            assert((seconds % 86_400) / 3_600 == h);
            assert(seconds % 3_600 == seconds - 3_600 * h);
            assert((seconds % 3_600) / 60 == m);
        }
        if m < 60 && 60_000 * m <= ms < 60_000 * (m + 1) {
            assert(60 * m <= seconds < 60 * (m + 1));
            assert(seconds / 86_400 == 0);
            assert((seconds % 86_400) / 3_600 == 0);
            assert((seconds % 3_600) / 60 == m);
        }
    } else {
        let seconds = (-ms) / 1000;
        assert(1000 * seconds <= -ms < 1000 * seconds + 1000);
        if m < 60 && 3_600_000 * h + 60_000 * m <= -ms < 3_600_000 * h + 60_000 * (m + 1) {
            assert(3_600 * h + 60 * m <= seconds < 3_600 * h + 60 * (m + 1));
            assert(seconds % 3_600 == seconds - 3_600 * h);
            assert((seconds % 3_600) / 60 == m);
        }
    }
}

/// An entity is `kind:id`, cut at its first colon, with both halves there; anything else is a mistake in
/// what was asked.
pub proof fn law_an_entity_is_a_kind_and_an_identifier(spec: Seq<char>)
    ensures
        key_of(spec) matches Ok((kind, id)) ==> {
            &&& kind + seq![':'] + id == spec
            &&& !kind.contains(':')
            &&& kind.len() > 0
            &&& id.len() > 0
        },
        key_of(spec) matches Err(fault) ==> fault.exit == Exit::Config,
        key_of(spec) is Ok <==> is_entity(spec),
{
    law_a_cut_is_the_first(spec, ':');
    crate::text::lemma_first_of(spec, ':', 0);
    let first = crate::text::first_of(spec, ':', 0);
    if key_of(spec) is Ok {
        assert(spec[first] == ':');
    }
    if is_entity(spec) {
        let at = choose|at: int|
            0 < at < spec.len() - 1 && #[trigger] spec[at] == ':' && forall|i: int|
                0 <= i < at ==> spec[i] != ':';
        assert(first == at);
    }
}

/// A build says its figures, each behind its own label, and explains an exclusion and a drift where
/// there is one.
pub proof fn law_a_build_says_its_figures(root: Seq<u8>, report: BuildReport)
    ensures
        ({
            let text = build_report(root, report).text;
            &&& occurs(text, row("records read"@, report.records_read as nat))
            &&& occurs(text, row("records used"@, report.records_used as nat))
            &&& occurs(text, row("excluded, erasable"@, report.skipped_erasable as nat))
            &&& occurs(text, row("excluded, scoped"@, report.skipped_scoped as nat))
            &&& occurs(text, row("excluded, untimed"@, report.skipped_untimed as nat))
            &&& occurs(text, row("unreadable sources"@, report.skipped_unreadable as nat))
            &&& occurs(text, row("entities"@, report.entities as nat))
            &&& occurs(text, row("facts"@, report.facts as nat))
        }),
{
    broadcast use group_says;
}

/// The state of the knowledge tree says when it was built and the figures of that build, each behind
/// its own label.
pub proof fn law_a_status_says_its_figures(root: Seq<u8>, state: SyncState)
    ensures
        ({
            let text = status_report(root, Some(state)).text;
            &&& occurs(text, text_row("built"@, state.rebuilt@))
            &&& occurs(text, row("records read"@, state.records_read as nat))
            &&& occurs(text, row("records used"@, state.records_used as nat))
            &&& occurs(text, row("entities"@, state.entities as nat))
            &&& occurs(text, row("facts"@, state.facts as nat))
        }),
{
    broadcast use group_says;
}

proof fn lemma_listed_lines(notes: Seq<NoteLine>, i: int)
    requires
        0 <= i < notes.len(),
    ensures
        occurs(listed_lines(notes), listed_line(notes[i])),
    decreases notes.len(),
{
    broadcast use group_says;
    if i < notes.len() - 1 {
        lemma_listed_lines(notes.drop_last(), i);
        assert(notes.drop_last()[i] == notes[i]);
    }
}

proof fn lemma_json_lines(list: Seq<Seq<char>>, i: int)
    requires
        0 <= i < list.len(),
    ensures
        occurs(json_lines(list), list[i] + "\n"@),
    decreases list.len(),
{
    broadcast use group_says;
    if i < list.len() - 1 {
        lemma_json_lines(list.drop_last(), i);
        assert(list.drop_last()[i] == list[i]);
    }
}

/// A search says how many notes it reached and lists every one by its entity and its number of facts,
/// and says that the limit stopped it exactly where it found as many as it may list.
pub proof fn law_a_search_lists_what_it_found(term: Seq<char>, limit: usize, found: Seq<NoteLine>)
    ensures
        ({
            let text = search_report(term, limit, found).text;
            &&& found.len() != 1 ==> occurs(
                text,
                decimal(found.len()) + " notes carry `"@ + term + "`\n"@,
            )
            &&& found.len() == 1 ==> occurs(text, "1 note carries `"@ + term + "`\n"@)
            &&& found.len() == limit ==> occurs(
                text,
                "the --limit stopped this listing, not the tree: there may be more.\n"@,
            )
            &&& forall|i: int|
                0 <= i < found.len() ==> occurs(
                    text,
                    "  "@ + (#[trigger] found[i]).entity.kind@ + ":"@ + found[i].entity.id@ + "  "@
                        + decimal(found[i].facts as nat) + " facts\n"@,
                )
        }),
        found.len() != limit ==> limit_note(limit, found).len() == 0,
{
    broadcast use group_says;
    reveal_strlit("");
    let text = search_report(term, limit, found).text;
    assert(occurs(text, listed_lines(found)));
    assert forall|i: int| 0 <= i < found.len() implies occurs(text, listed_line(#[trigger] found[i])) by {
        lemma_listed_lines(found, i);
        lemma_said_within(text, listed_lines(found), listed_line(found[i]));
    }
}

/// Evidence says how many of the records asked for answered, and prints every one of them on a line of
/// its own.
pub proof fn law_evidence_prints_what_answered(asked: nat, found: Seq<Seq<char>>)
    ensures
        ({
            let text = evidence_report(asked, found).text;
            &&& occurs(
                text,
                decimal(found.len()) + " of "@ + decimal(asked) + " records answered\n"@,
            )
            &&& forall|i: int| 0 <= i < found.len() ==> occurs(text, #[trigger] found[i] + "\n"@)
        }),
{
    broadcast use group_says;
    let text = evidence_report(asked, found).text;
    assert(occurs(text, json_lines(found)));
    assert forall|i: int| 0 <= i < found.len() implies occurs(text, #[trigger] found[i] + "\n"@) by {
        lemma_json_lines(found, i);
        lemma_said_within(text, json_lines(found), found[i] + "\n"@);
    }
}

proof fn lemma_epoch_lines(list: Seq<EpochKeys>, done: bool, i: int)
    requires
        0 <= i < list.len(),
    ensures
        occurs(epoch_lines(list, done), epoch_line(list[i], done)),
    decreases list.len(),
{
    broadcast use group_says;
    if i < list.len() - 1 {
        lemma_epoch_lines(list.drop_last(), done, i);
        assert(list.drop_last()[i] == list[i]);
    }
}

/// A retention pass says its figures, each behind its own label: what it would do before it is
/// confirmed, what it did afterwards, and epoch by epoch how many keys go.
pub proof fn law_a_pass_says_its_figures(
    keep: u32,
    preview: RetainReport,
    destroyed: Option<RetainReport>,
)
    ensures
        ({
            let text = retain_report(keep, preview, destroyed).text;
            let report = match destroyed {
                Some(report) => report,
                None => preview,
            };
            &&& occurs(text, text_row("oldest epoch kept"@, report.oldest_kept@))
            &&& occurs(text, row("keys in the store"@, report.keys_walked as nat))
            &&& occurs(text, row("keys kept"@, report.keys_kept as nat))
            &&& occurs(text, row("keys held"@, report.keys_held as nat))
            &&& occurs(text, row("keys unaged"@, report.keys_unreadable as nat))
            &&& destroyed is Some ==> occurs(
                text,
                row("keys destroyed"@, report.keys_destroyed as nat),
            )
            &&& destroyed is None ==> occurs(
                text,
                row("keys to destroy"@, report.keys_destroyed as nat),
            )
            &&& forall|i: int|
                0 <= i < report.destroyed_by_epoch@.len() ==> occurs(
                    text,
                    text_row(
                        (#[trigger] report.destroyed_by_epoch@[i]).epoch@,
                        decimal(report.destroyed_by_epoch@[i].keys as nat) + " key(s)"@ + (
                        if destroyed is Some {
                            " destroyed"@
                        } else {
                            " to destroy"@
                        }),
                    ),
                )
        }),
        occurs(
            retain_report(keep, preview, None).text,
            " before it. No record loses its key before it is "@ + decimal(
                preview.least_months as nat,
            ) + " months old, and the oldest record still holding one is up to "@ + decimal(
                preview.most_months as nat,
            ),
        ),
        preview.keys_held > 0 ==> occurs(
            retain_report(keep, preview, None).text,
            "\n"@ + decimal(preview.keys_held as nat) + " key(s) past the cutoff were kept for "@
                + decimal(preview.subjects_held as nat),
        ),
        held_text(preview).len() == 0 <==> preview.keys_held == 0,
        unaged_text(preview).len() == 0 <==> preview.keys_unreadable == 0,
        occurs(retain_report(keep, preview, None).text, held_text(preview)),
        occurs(retain_report(keep, preview, None).text, unaged_text(preview)),
{
    broadcast use group_says;
    reveal_strlit("");
    reveal_strlit("\n");
    let text = retain_report(keep, preview, destroyed).text;
    let report = match destroyed {
        Some(report) => report,
        None => preview,
    };
    let list = report.destroyed_by_epoch@;
    assert(occurs(text, epoch_lines(list, destroyed is Some)));
    assert forall|i: int| 0 <= i < list.len() implies occurs(
        text,
        epoch_line(#[trigger] list[i], destroyed is Some),
    ) by {
        lemma_epoch_lines(list, destroyed is Some, i);
        lemma_said_within(
            text,
            epoch_lines(list, destroyed is Some),
            epoch_line(list[i], destroyed is Some),
        );
    }
}

proof fn lemma_holds_text(list: Seq<Hold>, i: int)
    requires
        0 <= i < list.len(),
    ensures
        occurs(holds_text(list), hold_text(list[i])),
    decreases list.len(),
{
    broadcast use group_says;
    if i < list.len() - 1 {
        lemma_holds_text(list.drop_last(), i);
        assert(list.drop_last()[i] == list[i]);
    }
}

/// A hold is described by its identifier, and by its subject, when it was placed, who placed it and
/// why, each behind its own label.
pub proof fn law_a_hold_says_who_and_why(hold: Hold)
    ensures
        ({
            let text = hold_text(hold);
            &&& occurs(text, "  "@ + hold.id@ + "\n"@)
            &&& occurs(text, text_row("subject"@, hold.subject@))
            &&& occurs(text, text_row("placed"@, hold.placed@))
            &&& occurs(text, text_row("placed by"@, hold.operator@))
            &&& occurs(text, text_row("reason"@, hold.reason@))
            &&& hold.records@.len() > 0 ==> occurs(
                text,
                text_row("over records"@, join(texts(hold.records@), ", "@)),
            )
        }),
{
    broadcast use group_says;
}

/// Placing and listing holds count and describe every one of them; lifting one describes it and says
/// who lifted it and why.
pub proof fn law_every_hold_is_described(
    holds: Seq<Hold>,
    released: Hold,
    reason: Seq<char>,
    operator: Seq<char>,
)
    ensures
        occurs(place_report(holds).text, "placed "@ + decimal(holds.len()) + " hold(s)\n"@),
        occurs(list_report(holds).text, decimal(holds.len()) + " hold(s) standing\n"@),
        forall|i: int|
            0 <= i < holds.len() ==> occurs(
                place_report(holds).text,
                hold_text(#[trigger] holds[i]),
            ) && occurs(list_report(holds).text, hold_text(holds[i])),
        occurs(release_report(Ok(released), reason, operator).text, hold_text(released)),
        occurs(
            release_report(Ok(released), reason, operator).text,
            text_row("lifted by"@, operator + ": "@ + reason),
        ),
{
    broadcast use group_says;
    assert(occurs(place_report(holds).text, holds_text(holds)));
    assert(occurs(list_report(holds).text, holds_text(holds)));
    assert forall|i: int| 0 <= i < holds.len() implies occurs(
        place_report(holds).text,
        hold_text(#[trigger] holds[i]),
    ) && occurs(list_report(holds).text, hold_text(holds[i])) by {
        lemma_holds_text(holds, i);
        lemma_said_within(place_report(holds).text, holds_text(holds), hold_text(holds[i]));
        lemma_said_within(list_report(holds).text, holds_text(holds), hold_text(holds[i]));
    }
}

/// An entity nothing is held about is named as it was asked for, and the knowledge tree stands under the
/// root of the store.
pub proof fn law_an_entity_nothing_is_held_about_is_named(
    root: Seq<u8>,
    kind: Seq<char>,
    id: Seq<char>,
)
    ensures
        occurs(note_report(kind, id, None).text, kind + ":"@ + id),
        tree_of(root) == crate::path::joined(root, vstd::utf8::encode_utf8("knowledge"@)),
{
    broadcast use group_says;
}

proof fn lemma_hold_lines(list: Seq<Seq<char>>, i: int)
    requires
        0 <= i < list.len(),
    ensures
        occurs(hold_lines(list), "  "@ + list[i] + "\n"@),
    decreases list.len(),
{
    broadcast use group_says;
    if i < list.len() - 1 {
        lemma_hold_lines(list.drop_last(), i);
        assert(list.drop_last()[i] == list[i]);
    }
}

/// A pass that kept a key for a hold names every hold it kept one for.
pub proof fn law_a_pass_names_the_holds(report: RetainReport)
    requires
        report.keys_held > 0,
    ensures
        forall|i: int|
            0 <= i < report.holds@.len() ==> occurs(
                held_text(report),
                "  "@ + (#[trigger] report.holds@[i])@ + "\n"@,
            ),
{
    broadcast use group_says;
    let list = texts(report.holds@);
    assert(occurs(held_text(report), hold_lines(list)));
    assert forall|i: int| 0 <= i < report.holds@.len() implies occurs(
        held_text(report),
        "  "@ + (#[trigger] report.holds@[i])@ + "\n"@,
    ) by {
        lemma_hold_lines(list, i);
        assert(list[i] == report.holds@[i]@);
        lemma_said_within(held_text(report), hold_lines(list), "  "@ + list[i] + "\n"@);
    }
}

/// What is owed before an erasure can be attested is explained where it is owed and nowhere else: a key that is back, a
/// subject that is not blocked, and a wait where nothing else is.
pub proof fn law_what_is_owed_is_explained(tombstone: Seq<char>, attestation: Attestation)
    ensures
        ({
            let text = verify_report(tombstone, false, attestation).text;
            &&& attestation.keys_present > 0 ==> occurs(
                text,
                "\na key file for this subject is under the key root. That is not a wait: a destroyed key that is back on disk is a key store recovered from a copy taken before the destruction, and the body it opens is readable again until it is gone. Recover a key store with `yaam restore-keys --from <copy>`, which reconciles as part of installing it; over a key store already in place, `yaam reindex --all` re-applies the log.\n"@,
            )
            &&& !attestation.tombstoned ==> occurs(
                text,
                "\nthe key store's blocklist does not name this subject, so the next record naming it would mint a fresh key and un-erase them. The same two commands put it back.\n"@,
            )
            &&& attestation.settled ==> occurs(
                text,
                "\nthe destruction stands and nothing recoverable is on disk; only the attestation waits. A key copy taken before the destruction can still be inside its retention window, and this is the timestamp an erasure would be attested by.\n"@,
            )
        }),
        attestation.keys_present == 0 ==> returned_note(attestation).len() == 0,
        attestation.tombstoned ==> unblocked_note(attestation).len() == 0,
        !attestation.settled ==> waiting_note(attestation).len() == 0,
{
    broadcast use group_says;
    reveal_strlit("");
}

/// What a rebuild dropped or skipped, what a restore walked back, and that there is nothing to attest or
/// work nobody got through, are explained where they hold and nowhere else.
pub proof fn law_what_was_left_out_is_explained(
    place: Seq<u8>,
    other: Seq<u8>,
    rebuilt: ReindexReport,
    restored: RestoreReport,
    drained: Result<DrainReport, String>,
    preview: KeyRestorePreview,
    recovered: KeyRestoreReport,
    health: HealthReport,
)
    ensures
        rebuilt.timelines_dropped > 0 ==> occurs(
            reindex_report(place, rebuilt, drained).text,
            "a materialised timeline is dropped with the index rows that say which lines it already holds; the fan-out this queued writes them again, which is the drain below\n"@,
        ),
        rebuilt.skipped > 0 ==> occurs(
            reindex_report(place, rebuilt, drained).text,
            "a skipped file is one whose frontmatter would not parse; it is still in the tree, and its rows are not in the index\n"@,
        ),
        restored.keys_reconciled.undid_something ==> occurs(
            restore_report(place, other, restored, drained).text,
            "this store's key root already held key material, and the restored log names erasures it had not had applied to it. Those keys are gone again — which is what makes the order of a recovery stop mattering\n"@,
        ),
        recovered.attestations@.len() == 0 ==> occurs(
            restore_keys_report(other, place, preview, Some(recovered)).text,
            "\nthe log records no erasure, so there is nothing to attest.\n"@,
        ),
        health.sweeper_backlog.total > 0 ==> occurs(
            check_report(place, other, health).text,
            "\nthere is work the sweeper has not got through. A running service converges on its own; a backlog that does not shrink means nothing is draining it.\n"@,
        ),
        rebuilt.timelines_dropped == 0 ==> timelines_note(rebuilt).len() == 0,
        rebuilt.skipped == 0 ==> skipped_note(rebuilt).len() == 0,
        !restored.keys_reconciled.undid_something ==> undone_note(restored).len() == 0,
        health.sweeper_backlog.total == 0 ==> backlog_note(health).len() == 0,
        health.sweeper_backlog.fanout_pending == 0 ==> fanout_note(health).len() == 0,
{
    broadcast use group_says;
    reveal_strlit("");
}

/// What a build excluded and what drifted, that some of what was asked for did not answer, and that
/// nothing is held, are explained where they hold and nowhere else.
pub proof fn law_what_is_missing_is_explained(
    root: Seq<u8>,
    report: BuildReport,
    asked: nat,
    found: Seq<Seq<char>>,
    holds: Seq<Hold>,
)
    ensures
        report.skipped_erasable > 0 ==> occurs(
            build_report(root, report).text,
            "an erasable body is excluded on purpose. A note is an aggregate, and an aggregate cannot be un-aggregated from a backup: subtracting one record's contribution reaches the live copy and not last night's, so a record a key protects contributes nothing rather than contributing something an erasure would have to chase.\n"@,
        ),
        report.skipped_scoped > 0 ==> occurs(
            build_report(root, report).text,
            "a record that is not readable org-wide is excluded because a note is a shared file with no scope of its own, and deriving from one would move restricted structure somewhere the restriction does not apply.\n"@,
        ),
        report.skipped_untimed > 0 || report.skipped_unreadable > 0 ==> occurs(
            build_report(root, report).text,
            "a source that would not parse, or a stamp that would not, is drift between the tree and what can be derived from it. Nothing is lost — the record is still in the tree, and a build after the cause is fixed picks it up.\n"@,
        ),
        found.len() < asked ==> occurs(
            evidence_report(asked, found).text,
            "an identifier that is not answered names a record this derivation would not have used — one whose body is erasable, one not readable org-wide, one whose stamp will not parse — or a record no longer in the tree. The read applies the same gate the derivation does, so naming such a record is not a way to read its structure.\n"@,
        ),
        holds.len() == 0 ==> occurs(
            list_report(holds).text,
            "nothing is held, so `erase` and `retain` are unconditional here. A hold placed against a subject this store has never heard of would still show, which is what makes an empty answer mean what it says.\n"@,
        ),
        report.skipped_erasable == 0 ==> erasable_note(report).len() == 0,
        report.skipped_scoped == 0 ==> scoped_note(report).len() == 0,
        report.skipped_untimed == 0 && report.skipped_unreadable == 0 ==> drift_note(report).len()
            == 0,
        found.len() >= asked ==> unanswered_note(asked, found).len() == 0,
        holds.len() > 0 ==> unheld_note(holds).len() == 0,
{
    broadcast use group_says;
    reveal_strlit("");
}

} // verus!
