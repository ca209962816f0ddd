//! What people are shown of numbers, lists and reports.

use vstd::prelude::*;

use crate::model;
use crate::model::{
    AgentSession, Execution, ExecutionStatsView, HealthView, InitiatorStatsView, Workspace,
};
use crate::promises::words;
use crate::report;
use crate::text;

verus! {

/// Entries one after the other, each a label and a value.
pub open spec fn in_a_row(entries: Seq<(Seq<char>, Seq<char>)>) -> Seq<char>
    decreases entries.len(),
{
    if entries.len() == 0 {
        Seq::empty()
    } else {
        in_a_row(entries.drop_last()) + entries.last().0 + entries.last().1
    }
}

/// Whether a text says of what a label names that it is this value.
pub open spec fn says(shown: Seq<char>, label: Seq<char>, value: Seq<char>) -> bool {
    text::occurs(shown, label + value)
}

proof fn each_is_said(entries: Seq<(Seq<char>, Seq<char>)>, i: int)
    requires
        0 <= i < entries.len(),
    ensures
        says(in_a_row(entries), entries[i].0, entries[i].1),
    decreases entries.len(),
{
    let all = in_a_row(entries);
    let front = in_a_row(entries.drop_last());
    let entry = entries[i].0 + entries[i].1;
    if i == entries.len() - 1 {
        let at = front.len() as int;
        assert(all.subrange(at, at + entry.len()) =~= entry);
        assert(text::stands_at(all, entry, at));
    } else {
        each_is_said(entries.drop_last(), i);
        let at = choose|at: int| #[trigger] text::stands_at(front, entry, at);
        assert(all.subrange(at, at + entry.len()) =~= front.subrange(at, at + entry.len()));
        assert(text::stands_at(all, entry, at));
    }
}

/// The entries of a report on executions.
pub open spec fn stats_entries(stats: ExecutionStatsView) -> Seq<(Seq<char>, Seq<char>)> {
    seq![
        ("Workspace: "@, stats.workspace.name),
        (" ("@, report::shortened(stats.workspace.id)),
        (")\nWindow: "@, text::signed_decimal(stats.since_ms as int)),
        (".."@, text::signed_decimal(stats.until_ms as int)),
        (" (epoch ms)\nExecutions: "@, text::decimal(stats.total as nat)),
        ("\nStatus:\n  queued: "@, text::decimal(stats.status.queued as nat)),
        ("\n  running: "@, text::decimal(stats.status.running as nat)),
        ("\n  exited 0: "@, text::decimal(stats.status.exited_zero as nat)),
        ("\n  exited nonzero: "@, text::decimal(stats.status.exited_nonzero as nat)),
        ("\n  signaled: "@, text::decimal(stats.status.signaled as nat)),
        ("\n  spawn error: "@, text::decimal(stats.status.spawn_error as nat)),
        ("\n  cancelled: "@, text::decimal(stats.status.cancelled as nat)),
        ("\n  interrupted: "@, text::decimal(stats.status.interrupted as nat)),
        ("\n  unknown terminal: "@, text::decimal(stats.status.unknown_terminal as nat)),
        ("\nInitiators: "@, report::shown_initiators(stats.by_initiator)),
        ("\nCaptured output: "@, report::shown_bytes(stats.captured_bytes)),
        ("\nTruncated executions: "@, text::decimal(stats.truncated_executions as nat)),
        ("\nDuration samples: "@, text::decimal(stats.duration_samples as nat)),
        ("\nDuration p50: "@, report::shown_duration(stats.duration_p50_ms)),
        ("\nDuration p95: "@, report::shown_duration(stats.duration_p95_ms)),
    ]
}

proof fn stats_are_in_a_row(stats: ExecutionStatsView)
    ensures
        report::shown_stats(stats) == in_a_row(stats_entries(stats)),
{
    let entries = stats_entries(stats);
    reveal_with_fuel(in_a_row, 21);
    assert(Seq::<char>::empty() + "Workspace: "@ =~= "Workspace: "@);
    let e19 = entries.drop_last();
    let e18 = e19.drop_last();
    let e17 = e18.drop_last();
    let e16 = e17.drop_last();
    let e15 = e16.drop_last();
    let e14 = e15.drop_last();
    let e13 = e14.drop_last();
    let e12 = e13.drop_last();
    let e11 = e12.drop_last();
    let e10 = e11.drop_last();
    let e9 = e10.drop_last();
    let e8 = e9.drop_last();
    let e7 = e8.drop_last();
    let e6 = e7.drop_last();
    let e5 = e6.drop_last();
    let e4 = e5.drop_last();
    let e3 = e4.drop_last();
    let e2 = e3.drop_last();
    let e1 = e2.drop_last();
    assert(in_a_row(e1) =~= "Workspace: "@ + stats.workspace.name);
    assert(in_a_row(e5) == in_a_row(e4) + e5.last().0 + e5.last().1);
    assert(in_a_row(e10) == in_a_row(e9) + e10.last().0 + e10.last().1);
    assert(in_a_row(e15) == in_a_row(e14) + e15.last().0 + e15.last().1);
}

/// A report on executions says of each thing how often it came, under its own
/// name.
pub proof fn statistics_are_shown_under_their_names(stats: ExecutionStatsView)
    ensures
        ({
            let shown = report::shown_stats(stats);
            &&& says(shown, "Workspace: "@, stats.workspace.name)
            &&& says(shown, "\nWindow: "@, text::signed_decimal(stats.since_ms as int))
            &&& says(shown, ".."@, text::signed_decimal(stats.until_ms as int))
            &&& says(shown, "\nExecutions: "@, text::decimal(stats.total as nat))
            &&& says(shown, "  queued: "@, text::decimal(stats.status.queued as nat))
            &&& says(shown, "\n  running: "@, text::decimal(stats.status.running as nat))
            &&& says(shown, "\n  exited 0: "@, text::decimal(stats.status.exited_zero as nat))
            &&& says(
                shown,
                "\n  exited nonzero: "@,
                text::decimal(stats.status.exited_nonzero as nat),
            )
            &&& says(shown, "\n  signaled: "@, text::decimal(stats.status.signaled as nat))
            &&& says(shown, "\n  spawn error: "@, text::decimal(stats.status.spawn_error as nat))
            &&& says(shown, "\n  cancelled: "@, text::decimal(stats.status.cancelled as nat))
            &&& says(shown, "\n  interrupted: "@, text::decimal(stats.status.interrupted as nat))
            &&& says(shown, "\nCaptured output: "@, report::shown_bytes(stats.captured_bytes))
            &&& says(
                shown,
                "\nTruncated executions: "@,
                text::decimal(stats.truncated_executions as nat),
            )
            &&& says(
                shown,
                "\nDuration samples: "@,
                text::decimal(stats.duration_samples as nat),
            )
            &&& says(shown, "\nDuration p50: "@, report::shown_duration(stats.duration_p50_ms))
            &&& says(shown, "\nDuration p95: "@, report::shown_duration(stats.duration_p95_ms))
        }),
{
    let entries = stats_entries(stats);
    let shown = report::shown_stats(stats);
    stats_are_in_a_row(stats);
    each_is_said(entries, 0);
    each_is_said(entries, 2);
    reveal_strlit(")\nWindow: ");
    reveal_strlit("\nWindow: ");
    assert(")\nWindow: "@ =~= seq![')'] + "\nWindow: "@);
    said_without(shown, seq![')'], "\nWindow: "@, entries[2].1);
    each_is_said(entries, 3);
    each_is_said(entries, 4);
    reveal_strlit(" (epoch ms)\nExecutions: ");
    reveal_strlit(" (epoch ms)");
    reveal_strlit("\nExecutions: ");
    assert(" (epoch ms)\nExecutions: "@ =~= " (epoch ms)"@ + "\nExecutions: "@);
    said_without(shown, " (epoch ms)"@, "\nExecutions: "@, entries[4].1);
    each_is_said(entries, 5);
    reveal_strlit("\nStatus:\n  queued: ");
    reveal_strlit("\nStatus:\n");
    reveal_strlit("  queued: ");
    assert("\nStatus:\n  queued: "@ =~= "\nStatus:\n"@ + "  queued: "@);
    said_without(shown, "\nStatus:\n"@, "  queued: "@, entries[5].1);
    each_is_said(entries, 6);
    each_is_said(entries, 7);
    each_is_said(entries, 8);
    each_is_said(entries, 9);
    each_is_said(entries, 10);
    each_is_said(entries, 11);
    each_is_said(entries, 12);
    each_is_said(entries, 15);
    each_is_said(entries, 16);
    each_is_said(entries, 17);
    each_is_said(entries, 18);
    each_is_said(entries, 19);
}

proof fn said_without(shown: Seq<char>, before: Seq<char>, label: Seq<char>, value: Seq<char>)
    requires
        says(shown, before + label, value),
    ensures
        says(shown, label, value),
{
    let whole = before + label + value;
    let entry = label + value;
    let at = choose|at: int| #[trigger] text::stands_at(shown, whole, at);
    let from = at + before.len();
    assert(shown.subrange(from, from + entry.len()) =~= entry) by {
        assert forall|i: int| 0 <= i < entry.len() implies shown.subrange(
            from,
            from + entry.len(),
        )[i] == entry[i] by {
            assert(shown.subrange(at, at + whole.len())[before.len() + i] == whole[before.len()
                + i]);
        }
    }
    assert(text::stands_at(shown, entry, from));
}

/// The entries of a report on the daemon.
pub open spec fn health_entries(health: HealthView, workspaces: nat) -> Seq<
    (Seq<char>, Seq<char>),
> {
    seq![
        ("daemon: ok (pid "@, text::decimal(health.daemon_pid as nat)),
        (")\nprotocol: v"@, text::decimal(health.protocol_version as nat)),
        (
            "\nserver: "@,
            match health.server_version {
                Some(version) => version,
                None => "unknown"@,
            },
        ),
        ("\ncapabilities: "@, report::separated(health.capabilities, ", "@)),
        ("\nactive executions: "@, report::shown_count(health.active_executions)),
        ("\nactive sessions: "@, report::shown_count(health.active_sessions)),
        ("\nsocket: "@, health.socket_path),
        ("\ndatabase: "@, health.database_path),
        ("\nworkspaces: "@, text::decimal(workspaces)),
    ]
}

/// A report on the daemon says of each thing what it is, under its own name.
pub proof fn health_is_shown_under_its_names(health: HealthView, workspaces: nat)
    ensures
        ({
            let shown = report::shown_health(health, workspaces);
            &&& says(shown, "pid "@, text::decimal(health.daemon_pid as nat))
            &&& says(shown, "\nprotocol: v"@, text::decimal(health.protocol_version as nat))
            &&& health.server_version matches Some(version) ==> says(
                shown,
                "\nserver: "@,
                version,
            )
            &&& health.active_executions matches Some(count) ==> says(
                shown,
                "\nactive executions: "@,
                text::decimal(count as nat),
            )
            &&& health.active_sessions matches Some(count) ==> says(
                shown,
                "\nactive sessions: "@,
                text::decimal(count as nat),
            )
            &&& says(shown, "\nsocket: "@, health.socket_path)
            &&& says(shown, "\ndatabase: "@, health.database_path)
            &&& says(shown, "\nworkspaces: "@, text::decimal(workspaces))
        }),
{
    let entries = health_entries(health, workspaces);
    let shown = report::shown_health(health, workspaces);
    reveal_with_fuel(in_a_row, 10);
    let e8 = entries.drop_last();
    let e7 = e8.drop_last();
    let e6 = e7.drop_last();
    let e5 = e6.drop_last();
    let e4 = e5.drop_last();
    let e3 = e4.drop_last();
    let e2 = e3.drop_last();
    let e1 = e2.drop_last();
    assert(in_a_row(e1) =~= "daemon: ok (pid "@ + text::decimal(health.daemon_pid as nat));
    assert(in_a_row(e4) == in_a_row(e3) + e4.last().0 + e4.last().1);
    assert(shown == in_a_row(entries));
    each_is_said(entries, 0);
    reveal_strlit("daemon: ok (pid ");
    reveal_strlit("daemon: ok (");
    reveal_strlit("pid ");
    assert("daemon: ok (pid "@ =~= "daemon: ok ("@ + "pid "@);
    said_without(shown, "daemon: ok ("@, "pid "@, entries[0].1);
    each_is_said(entries, 1);
    reveal_strlit(")\nprotocol: v");
    reveal_strlit("\nprotocol: v");
    assert(")\nprotocol: v"@ =~= seq![')'] + "\nprotocol: v"@);
    said_without(shown, seq![')'], "\nprotocol: v"@, entries[1].1);
    each_is_said(entries, 2);
    each_is_said(entries, 4);
    each_is_said(entries, 5);
    each_is_said(entries, 6);
    each_is_said(entries, 7);
    each_is_said(entries, 8);
}

/// A text that is filled up begins with itself, goes on with spaces, and is as
/// wide as asked unless it was wider.
pub proof fn filling_up_keeps_the_text(own: Seq<char>, width: int)
    ensures
        ({
            let filled = report::padded(own, width);
            &&& filled.take(own.len() as int) == own
            &&& forall|i: int| own.len() <= i < filled.len() ==> #[trigger] filled[i] == ' '
            &&& own.len() <= width ==> filled.len() == width
            &&& own.len() >= width ==> filled == own
        }),
{
    let filled = report::padded(own, width);
    assert(filled.take(own.len() as int) =~= own);
    if own.len() >= width {
        assert(filled =~= own);
    }
}

/// A shortened identifier is the beginning of the identifier: eight characters
/// where it is written in ASCII and has as many.
pub proof fn a_short_identifier_begins_it(id: Seq<char>)
    ensures
        report::shortened(id).is_prefix_of(id),
        id.len() >= 8 && (forall|i: int| 0 <= i < 8 ==> (#[trigger] id[i]) as u32 <= 127)
            ==> report::shortened(id) == id.take(8),
        id.len() < 8 && (forall|i: int| 0 <= i < id.len() ==> (#[trigger] id[i]) as u32 <= 127)
            ==> report::shortened(id) == id,
{
    cut_within(id, 8);
    if forall|i: int| 0 <= i < 8 && i < id.len() ==> (#[trigger] id[i]) as u32 <= 127 {
        cut_in_ascii(id, 8);
    }
    assert(id.subrange(0, id.len() as int) =~= id);
    match report::chars_in(id, 8) {
        Some(count) => {
            assert(id.take(count) =~= id.subrange(0, count));
        },
        None => {},
    }
}

proof fn cut_within(own: Seq<char>, bytes: int)
    ensures
        report::chars_in(own, bytes) matches Some(count) ==> 0 <= count <= own.len(),
    decreases own.len(),
{
    if bytes > 0 && own.len() > 0 {
        cut_within(own.drop_first(), bytes - report::char_width(own[0]));
    }
}

proof fn cut_in_ascii(own: Seq<char>, bytes: int)
    requires
        bytes >= 0,
        forall|i: int| 0 <= i < bytes && i < own.len() ==> (#[trigger] own[i]) as u32 <= 127,
    ensures
        report::chars_in(own, bytes) == (if bytes <= own.len() {
            Some(bytes)
        } else {
            None
        }),
    decreases own.len(),
{
    if bytes > 0 && own.len() > 0 {
        let rest = own.drop_first();
        assert(own[0] as u32 <= 127);
        assert forall|i: int| 0 <= i < bytes - 1 && i < rest.len() implies (
        #[trigger] rest[i]) as u32 <= 127 by {
            assert(own[i + 1] as u32 <= 127);
        }
        cut_in_ascii(rest, bytes - 1);
    }
}

/// The line of an execution in a list begins with its identifier and ends with
/// its command; its state stands between them.
pub proof fn an_execution_is_listed_with_its_command(execution: &Execution, line: String)
    requires
        call_ensures(report::execution_line, (execution,), line),
    ensures
        report::shortened(execution@.id).is_prefix_of(line@),
        execution@.command_display.len() <= line@.len() && line@.skip(
            line@.len() - execution@.command_display.len(),
        ) == execution@.command_display,
        text::occurs(line@, model::state_name(execution@.state)),
        text::occurs(line@, report::shortened(execution@.workspace_id)),
{
    let id = report::shortened(execution@.id);
    let state = model::state_name(execution@.state);
    let place = report::shortened(execution@.workspace_id);
    let command = execution@.command_display;
    assert(id =~= line@.subrange(0, id.len() as int));
    assert(line@.skip(line@.len() - command.len()) =~= command);
    reveal_strlit(" ");
    let at = (report::padded(id, 12).len() + 1) as int;
    assert(line@.subrange(at, at + state.len()) =~= state);
    assert(text::stands_at(line@, state, at));
    let next = at + report::padded(state, 11).len() + 1;
    assert(line@.subrange(next, next + place.len()) =~= place);
    assert(text::stands_at(line@, place, next));
}

/// The line of a session in a list begins with its identifier and ends with its
/// name, or else with its command; its state stands between them.
pub proof fn a_session_is_listed_with_its_name(session: &AgentSession, line: String)
    requires
        call_ensures(report::session_line, (session,), line),
    ensures
        report::shortened(session@.id).is_prefix_of(line@),
        session@.name matches Some(name) ==> name.len() <= line@.len() && line@.skip(
            line@.len() - name.len(),
        ) == name,
        session@.name is None ==> session@.command_display.len() <= line@.len() && line@.skip(
            line@.len() - session@.command_display.len(),
        ) == session@.command_display,
        text::occurs(line@, model::session_state_name(session@.state)),
        text::occurs(line@, session@.agent_kind),
{
    let id = report::shortened(session@.id);
    let state = model::session_state_name(session@.state);
    let kind = session@.agent_kind;
    assert(id =~= line@.subrange(0, id.len() as int));
    reveal_strlit(" ");
    match session@.name {
        Some(name) => {
            assert(line@.skip(line@.len() - name.len()) =~= name);
        },
        None => {
            let command = session@.command_display;
            assert(line@.skip(line@.len() - command.len()) =~= command);
        },
    }
    let at = (report::padded(id, 12).len() + 1) as int;
    assert(line@.subrange(at, at + state.len()) =~= state);
    assert(text::stands_at(line@, state, at));
    let next = at + report::padded(state, 12).len() + 1;
    assert(line@.subrange(next, next + kind.len()) =~= kind);
    assert(text::stands_at(line@, kind, next));
}

/// The line of a workspace in a list begins with its name and ends with its
/// root.
pub proof fn a_workspace_is_listed_with_its_root(workspace: &Workspace, line: String)
    requires
        call_ensures(report::workspace_line, (workspace,), line),
    ensures
        workspace@.name.is_prefix_of(line@),
        workspace@.root.len() <= line@.len() && line@.skip(line@.len() - workspace@.root.len())
            == workspace@.root,
        text::occurs(line@, report::shortened(workspace@.id)),
{
    let name = workspace@.name;
    let id = report::shortened(workspace@.id);
    reveal_strlit(" ");
    assert(name =~= line@.subrange(0, name.len() as int));
    assert(line@.skip(line@.len() - workspace@.root.len()) =~= workspace@.root);
    let at = (report::padded(name, 20).len() + 1) as int;
    assert(line@.subrange(at, at + id.len()) =~= id);
    assert(text::stands_at(line@, id, at));
}

/// A number of bytes is shown in the largest unit that it reaches. What is
/// shown lies within half a tenth of that unit, for numbers of up to
/// fifty-three binary digits, and the exact number stands behind it.
pub proof fn sizes_are_shown_to_a_tenth(bytes: u64)
    ensures
        bytes < 1024 ==> report::shown_bytes(bytes) == text::decimal(bytes as nat) + " bytes"@,
        bytes >= 1024 ==> says(
            report::shown_bytes(bytes),
            " ("@,
            text::decimal(bytes as nat) + " bytes)"@,
        ),
        report::byte_unit(bytes) matches Some((size, name)) ==> {
            &&& size <= bytes
            &&& bytes < 1024 * size || size == 1024 * 1024 * 1024 * 1024
            &&& (name == "KiB"@) == (size == 1024)
            &&& (name == "MiB"@) == (size == 1024 * 1024)
            &&& (name == "GiB"@) == (size == 1024 * 1024 * 1024)
            &&& (name == "TiB"@) == (size == 1024 * 1024 * 1024 * 1024)
            &&& bytes < 9_007_199_254_740_992 ==> {
                let tenths = report::rounded(bytes as int * 10, size);
                &&& -size <= 2 * (tenths * size - 10 * bytes) <= size
                &&& report::shown_bytes(bytes) == text::decimal((tenths / 10) as nat) + "."@
                    + text::decimal((tenths % 10) as nat) + " "@ + name + " ("@ + text::decimal(
                    bytes as nat,
                ) + " bytes)"@
            }
        },
{
    reveal_strlit("KiB");
    reveal_strlit("MiB");
    reveal_strlit("GiB");
    reveal_strlit("TiB");
    assert("KiB"@[0] == 'K' && "MiB"@[0] == 'M' && "GiB"@[0] == 'G' && "TiB"@[0] == 'T');
    match report::byte_unit(bytes) {
        Some((size, name)) => {
            let shown = report::shown_bytes(bytes);
            let entry = " ("@ + (text::decimal(bytes as nat) + " bytes)"@);
            let at = shown.len() - entry.len();
            assert(shown.subrange(at, at + entry.len()) =~= entry);
            assert(text::stands_at(shown, entry, at));
            if bytes < 9_007_199_254_740_992 {
                let b = bytes as int;
                assert(report::precision(b) == 1);
                assert(report::rounded(b, 1) == b);
                assert(report::held_number(b) == b);
                nearest(b * 10, size);
                let tenths = report::rounded(b * 10, size);
                assert(tenths >= 0) by (nonlinear_arith)
                    requires
                        -size <= 2 * (tenths * size - 10 * b),
                        size >= 1024,
                        10 * b >= 10 * size,
                ;
                assert(text::decimal((tenths % 10) as nat) =~= seq![
                    text::digit((tenths % 10) as nat),
                ]);
            }
        },
        None => {},
    }
}

proof fn nearest(value: int, unit: int)
    requires
        value >= 0,
        unit > 0,
    ensures
        -unit <= 2 * (report::rounded(value, unit) * unit - value) <= unit,
{
    let whole = value / unit;
    let rest = value % unit;
    vstd::arithmetic::div_mod::lemma_fundamental_div_mod(value, unit);
    vstd::arithmetic::div_mod::lemma_mod_bound(value, unit);
    assert(unit * whole == whole * unit) by (nonlinear_arith);
    assert((whole + 1) * unit == whole * unit + unit) by (nonlinear_arith);
}

/// A duration is shown in milliseconds, and one that is not known is not
/// mistaken for one.
pub proof fn durations_are_shown_in_milliseconds(value: Option<u64>)
    ensures
        match value {
            Some(took) => report::shown_duration(value) == text::decimal(took as nat) + " ms"@,
            None => forall|took: u64|
                report::shown_duration(value) != #[trigger] report::shown_duration(Some(took)),
        },
{
    reveal_strlit("n/a");
    assert forall|took: u64| report::shown_duration(None) != #[trigger] report::shown_duration(
        Some(took),
    ) by {
        words::a_numeral_is_its_number(took as nat);
        let numeral = text::decimal(took as nat);
        assert(report::shown_duration(Some(took))[0] == numeral[0]);
        assert("n/a"@[0] == 'n');
    }
}

/// Who started how much is shown for each of those who did.
pub proof fn initiators_are_all_shown(list: Seq<InitiatorStatsView>, i: int)
    requires
        0 <= i < list.len(),
    ensures
        says(
            report::shown_initiators(list),
            list[i].kind + " "@,
            text::decimal(list[i].count as nat),
        ),
{
    let shown = list.map_values(
        |item: InitiatorStatsView| item.kind + " "@ + text::decimal(item.count as nat),
    );
    assert(shown[i] == list[i].kind + " "@ + text::decimal(list[i].count as nat));
    crate::promises::answers::joined_texts_are_all_there(shown, ", "@, i);
}

/// Rounding goes to the nearest whole number, and from the middle between two
/// to the even one.
pub proof fn rounding_goes_to_the_nearest(value: int, unit: int)
    requires
        value >= 0,
        unit > 0,
    ensures
        ({
            let near = report::rounded(value, unit);
            &&& -unit <= 2 * (near * unit - value) <= unit
            &&& 2 * (near * unit - value) == unit || 2 * (value - near * unit) == unit ==> near % 2
                == 0
        }),
{
    nearest(value, unit);
    let whole = value / unit;
    let rest = value % unit;
    vstd::arithmetic::div_mod::lemma_fundamental_div_mod(value, unit);
    vstd::arithmetic::div_mod::lemma_mod_bound(value, unit);
    assert(unit * whole == whole * unit) by (nonlinear_arith);
    assert((whole + 1) * unit == whole * unit + unit) by (nonlinear_arith);
}

} // verus!
