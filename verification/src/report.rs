//! Texts for people: numbers, lists and reports.

use vstd::prelude::*;

use crate::model;
use crate::model::{
    AgentSession, Execution, ExecutionStats, ExecutionStatsView, Health, HealthView, InitiatorStats,
    InitiatorStatsView, Workspace,
};
use crate::text;
use crate::text::{chars_of, decimal_text, joined, signed_decimal_text, text_between};

verus! {

/// How many bytes a character takes in UTF-8.
pub open spec fn char_width(c: char) -> int {
    if (c as u32) < 0x80 {
        1
    } else if (c as u32) < 0x800 {
        2
    } else if (c as u32) < 0x10000 {
        3
    } else {
        4
    }
}

fn width_of(c: char) -> (width: u32)
    ensures
        width == char_width(c),
        1 <= width <= 4,
{
    let code: u32 = c as u32;
    if code < 0x80 {
        1
    } else if code < 0x800 {
        2
    } else if code < 0x10000 {
        3
    } else {
        4
    }
}

/// How many characters of a text take exactly `bytes` bytes; nothing where the
/// text is shorter or where a character stands across.
pub open spec fn chars_in(text: Seq<char>, bytes: int) -> Option<int>
    decreases text.len(),
{
    if bytes == 0 {
        Some(0)
    } else if bytes < 0 || text.len() == 0 {
        None
    } else {
        match chars_in(text.drop_first(), bytes - char_width(text[0])) {
            Some(rest) => Some(rest + 1),
            None => None,
        }
    }
}

/// The part of an identifier that is shown: its first eight bytes, or all of
/// it where they cannot be cut off.
pub open spec fn shortened(id: Seq<char>) -> Seq<char> {
    match chars_in(id, 8) {
        Some(count) => id.take(count),
        None => id,
    }
}

/// Finds how many characters of a text take exactly `bytes` bytes.
pub fn chars_within(text: &str, bytes: u32) -> (count: Option<usize>)
    ensures
        (match count {
            Some(count) => Some(count as int),
            None => None,
        }) == chars_in(text@, bytes as int),
        count matches Some(count) ==> count <= text@.len(),
{
    let chars = chars_of(text);
    let ghost all = text@;
    let mut left: u32 = bytes;
    let mut i: usize = 0;
    assert(all.skip(0) =~= all);
    while i < chars.len() && left > 0
        invariant
            i <= chars.len(),
            chars@ == all,
            chars_in(all, bytes as int) == (match chars_in(all.skip(i as int), left as int) {
                Some(rest) => Some(rest + i),
                None => None,
            }),
        decreases chars.len() - i,
    {
        let width = width_of(chars[i]);
        proof {
            assert(all.skip(i as int)[0] == chars@[i as int]);
            assert(all.skip(i as int).drop_first() =~= all.skip(i + 1));
        }
        if width > left {
            assert(chars_in(all.skip(i + 1), left - width) is None);
            return None;
        }
        left -= width;
        i += 1;
    }
    if left == 0 {
        Some(i)
    } else {
        None
    }
}

/// Shortens an identifier for people.
pub fn short_id(id: &str) -> (short: String)
    ensures
        short@ == shortened(id@),
{
    match chars_within(id, 8) {
        Some(count) => {
            let chars = chars_of(id);
            let short = text_between(&chars, 0, count);
            assert(short@ =~= id@.take(count as int));
            short
        },
        None => id.to_owned(),
    }
}

/// How a workspace is shown where only its identifier is known.
pub fn workspace_label(id: &str) -> (label: String)
    ensures
        label@ == shortened(id@),
{
    short_id(id)
}

/// Some spaces.
pub open spec fn spaces(count: int) -> Seq<char> {
    Seq::new(
        if count < 0 {
            0
        } else {
            count as nat
        },
        |i: int| ' ',
    )
}

/// A text filled up with spaces to a width.
pub open spec fn padded(text: Seq<char>, width: int) -> Seq<char> {
    text + spaces(width - text.len())
}

/// Fills a text up with spaces to a width.
pub fn pad(text: &str, width: usize) -> (result: String)
    ensures
        result@ == padded(text@, width as int),
{
    let count = chars_of(text).len();
    let mut result = text.to_owned();
    let mut i: usize = count;
    assert(result@ =~= text@ + spaces(0));
    while i < width
        invariant
            count <= i,
            i <= width || i == count,
            count == text@.len(),
            result@ == text@ + spaces(i - count),
        decreases width - i,
    {
        result.push(' ');
        assert(result@ =~= text@ + spaces(i + 1 - count));
        i += 1;
    }
    assert(spaces(i - count) =~= spaces(width - count));
    result
}

/// A line of a list: three columns and a rest.
pub open spec fn columns(
    first: Seq<char>,
    first_width: int,
    second: Seq<char>,
    second_width: int,
    third: Seq<char>,
    third_width: int,
    rest: Seq<char>,
) -> Seq<char> {
    padded(first, first_width) + " "@ + padded(second, second_width) + " "@ + padded(
        third,
        third_width,
    ) + " "@ + rest
}

fn in_columns(
    first: &str,
    first_width: usize,
    second: &str,
    second_width: usize,
    third: &str,
    third_width: usize,
    rest: &str,
) -> (line: String)
    ensures
        line@ == columns(
            first@,
            first_width as int,
            second@,
            second_width as int,
            third@,
            third_width as int,
            rest@,
        ),
{
    let mut line = pad(first, first_width);
    line.append(" ");
    line.append(pad(second, second_width).as_str());
    line.append(" ");
    line.append(pad(third, third_width).as_str());
    line.append(" ");
    line.append(rest);
    line
}

/// The line of an execution in a list.
pub fn execution_line(execution: &Execution) -> (line: String)
    ensures
        line@ == columns(
            shortened(execution@.id),
            12,
            model::state_name(execution@.state),
            11,
            shortened(execution@.workspace_id),
            24,
            execution@.command_display,
        ),
{
    in_columns(
        short_id(execution.id.as_str()).as_str(),
        12,
        execution.state.as_str(),
        11,
        workspace_label(execution.workspace_id.as_str()).as_str(),
        24,
        execution.command_display.as_str(),
    )
}

/// The line of a session in a list: it goes by its name, or by its command
/// where it has none.
pub fn session_line(session: &AgentSession) -> (line: String)
    ensures
        line@ == columns(
            shortened(session@.id),
            12,
            model::session_state_name(session@.state),
            12,
            session@.agent_kind,
            10,
            match session@.name {
                Some(name) => name,
                None => session@.command_display,
            },
        ),
{
    let title = match &session.name {
        Some(name) => name.as_str(),
        None => session.command_display.as_str(),
    };
    in_columns(
        short_id(session.id.as_str()).as_str(),
        12,
        session.state.as_str(),
        12,
        session.agent_kind.as_str(),
        10,
        title,
    )
}

/// The line of a workspace in a list.
pub fn workspace_line(workspace: &Workspace) -> (line: String)
    ensures
        line@ == padded(workspace@.name, 20) + " "@ + padded(shortened(workspace@.id), 12) + " "@
            + workspace@.root,
{
    let mut line = pad(workspace.name.as_str(), 20);
    line.append(" ");
    line.append(pad(short_id(workspace.id.as_str()).as_str(), 12).as_str());
    line.append(" ");
    line.append(workspace.root.as_str());
    line
}

/// A number divided by a unit and rounded to the nearest whole number; one
/// that lies in the middle goes to the even neighbour.
pub open spec fn rounded(value: int, unit: int) -> int {
    let whole = value / unit;
    let rest = value % unit;
    if 2 * rest < unit {
        whole
    } else if 2 * rest > unit {
        whole + 1
    } else if whole % 2 == 0 {
        whole
    } else {
        whole + 1
    }
}

/// The distance between neighbouring numbers of fifty-three significant binary
/// digits around `value`.
pub open spec fn precision(value: int) -> int
    decreases value,
{
    if value < 9_007_199_254_740_992 {
        1
    } else {
        2 * precision(value / 2)
    }
}

/// A number held to fifty-three significant binary digits.
pub open spec fn held_number(value: int) -> int {
    rounded(value, precision(value)) * precision(value)
}

/// The unit that a number of bytes is shown in: its size and its name.
pub open spec fn byte_unit(bytes: u64) -> Option<(int, Seq<char>)> {
    if bytes >= 1_099_511_627_776 {
        Some((1_099_511_627_776, "TiB"@))
    } else if bytes >= 1_073_741_824 {
        Some((1_073_741_824, "GiB"@))
    } else if bytes >= 1_048_576 {
        Some((1_048_576, "MiB"@))
    } else if bytes >= 1024 {
        Some((1024, "KiB"@))
    } else {
        None
    }
}

/// A number of bytes for people: in the largest unit that it reaches, to one
/// decimal, with the exact number behind it.
pub open spec fn shown_bytes(bytes: u64) -> Seq<char> {
    match byte_unit(bytes) {
        Some((size, name)) => {
            let tenths = rounded(held_number(bytes as int) * 10, size);
            text::decimal((tenths / 10) as nat) + "."@ + seq![text::digit((tenths % 10) as nat)] + " "@ + name
                + " ("@ + text::decimal(bytes as nat) + " bytes)"@
        },
        None => text::decimal(bytes as nat) + " bytes"@,
    }
}

fn round_to(value: u128, unit: u128) -> (result: u128)
    requires
        1 <= unit <= 1_099_511_627_776,
        value <= 1_000_000_000_000_000_000_000_000,
    ensures
        result == rounded(value as int, unit as int),
        result <= value + 1,
{
    let whole: u128 = value / unit;
    let rest: u128 = value % unit;
    proof {
        vstd::arithmetic::div_mod::lemma_mod_bound(value as int, unit as int);
        vstd::arithmetic::div_mod::lemma_div_is_ordered_by_denominator(
            value as int,
            1,
            unit as int,
        );
    }
    if 2 * rest < unit {
        whole
    } else if 2 * rest > unit {
        whole + 1
    } else if whole % 2 == 0 {
        whole
    } else {
        whole + 1
    }
}

fn precision_of(value: u64) -> (unit: u64)
    ensures
        unit == precision(value as int),
        1 <= unit,
        value < 9_007_199_254_740_992 ==> unit == 1,
        value >= 9_007_199_254_740_992 ==> unit <= value / 4_503_599_627_370_496,
    decreases value,
{
    if value < 9_007_199_254_740_992 {
        1
    } else {
        let half = precision_of(value / 2);
        2 * half
    }
}

fn in_unit(bytes: u64, size: u64, name: &str) -> (text: String)
    requires
        1024 <= size <= 1_099_511_627_776,
    ensures
        text@ == ({
            let tenths = rounded(held_number(bytes as int) * 10, size as int);
            text::decimal((tenths / 10) as nat) + "."@ + seq![text::digit((tenths % 10) as nat)] + " "@ + name@
                + " ("@ + text::decimal(bytes as nat) + " bytes)"@
        }),
{
    let unit = precision_of(bytes);
    assert(unit <= 4096);
    let count = round_to(bytes as u128, unit as u128);
    assert(count * unit <= 18_446_744_073_709_551_616 * 4096) by (nonlinear_arith)
        requires
            count <= 18_446_744_073_709_551_616,
            unit <= 4096,
    ;
    let held: u128 = count * unit as u128;
    let tenths = round_to(held * 10, size as u128);
    proof {
        let value = held * 10;
        assert(value / size as int <= value / 1024) by {
            vstd::arithmetic::div_mod::lemma_div_is_ordered_by_denominator(
                value as int,
                1024,
                size as int,
            );
        }
        assert(tenths <= value / size as int + 1);
        tight(count as int, unit as int, bytes as int);
    }
    let mut text = decimal_text((tenths / 10) as u64);
    text.append(".");
    let last = decimal_text((tenths % 10) as u64);
    assert(last@ =~= seq![text::digit((tenths % 10) as nat)]);
    text.append(last.as_str());
    text.append(" ");
    text.append(name);
    text.append(" (");
    text.append(decimal_text(bytes).as_str());
    text.append(" bytes)");
    text
}

proof fn tight(count: int, unit: int, bytes: int)
    requires
        1 <= unit <= 4096,
        0 <= bytes <= u64::MAX,
        count == rounded(bytes, unit),
    ensures
        count * unit <= bytes + unit,
{
    vstd::arithmetic::div_mod::lemma_fundamental_div_mod(bytes, unit);
    let whole = bytes / unit;
    assert(count <= whole + 1);
    assert(count * unit <= (whole + 1) * unit) by (nonlinear_arith)
        requires
            count <= whole + 1,
            1 <= unit,
    ;
    assert((whole + 1) * unit == unit * whole + unit) by (nonlinear_arith);
    vstd::arithmetic::div_mod::lemma_mod_bound(bytes, unit);
}

/// Shows a number of bytes for people.
pub fn format_bytes(bytes: u64) -> (text: String)
    ensures
        text@ == shown_bytes(bytes),
{
    if bytes >= 1_099_511_627_776 {
        in_unit(bytes, 1_099_511_627_776, "TiB")
    } else if bytes >= 1_073_741_824 {
        in_unit(bytes, 1_073_741_824, "GiB")
    } else if bytes >= 1_048_576 {
        in_unit(bytes, 1_048_576, "MiB")
    } else if bytes >= 1024 {
        in_unit(bytes, 1024, "KiB")
    } else {
        joined(decimal_text(bytes).as_str(), " bytes")
    }
}

/// A duration for people.
pub open spec fn shown_duration(value: Option<u64>) -> Seq<char> {
    match value {
        None => "n/a"@,
        Some(milliseconds) => text::decimal(milliseconds as nat) + " ms"@,
    }
}

/// Shows a duration for people.
pub fn format_duration(value: Option<u64>) -> (text: String)
    ensures
        text@ == shown_duration(value),
{
    match value {
        None => "n/a".to_owned(),
        Some(milliseconds) => joined(decimal_text(milliseconds).as_str(), " ms"),
    }
}

/// Texts with a separator between them.
pub open spec fn separated(list: Seq<Seq<char>>, separator: Seq<char>) -> Seq<char>
    decreases list.len(),
{
    if list.len() == 0 {
        Seq::empty()
    } else if list.len() == 1 {
        list[0]
    } else {
        separated(list.drop_last(), separator) + separator + list.last()
    }
}

/// Puts texts together with a separator between them.
pub fn join_texts(list: &Vec<String>, separator: &str) -> (text: String)
    ensures
        text@ == separated(text::texts(list@), separator@),
{
    let ghost all = text::texts(list@);
    let mut text = String::new();
    let mut i: usize = 0;
    assert(all.take(0) =~= Seq::empty());
    assert(text@ =~= Seq::empty());
    while i < list.len()
        invariant
            i <= list.len(),
            all == text::texts(list@),
            text@ == separated(all.take(i as int), separator@),
        decreases list.len() - i,
    {
        proof {
            assert(all.take(i + 1).drop_last() =~= all.take(i as int));
            assert(all.take(i + 1).last() == list@[i as int]@);
        }
        if i > 0 {
            text.append(separator);
            text.append(list[i].as_str());
        } else {
            text = list[i].clone();
            assert(all.take(1)[0] == list@[0]@);
        }
        i += 1;
    }
    assert(all.take(i as int) =~= all);
    text
}

/// Who started how much.
pub open spec fn shown_initiators(list: Seq<InitiatorStatsView>) -> Seq<char> {
    if list.len() == 0 {
        "none"@
    } else {
        separated(
            list.map_values(
                |item: InitiatorStatsView| item.kind + " "@ + text::decimal(item.count as nat),
            ),
            ", "@,
        )
    }
}

fn initiators_text(list: &Vec<InitiatorStats>) -> (text: String)
    ensures
        text@ == shown_initiators(list@.map_values(|item: InitiatorStats| item@)),
{
    let ghost views = list@.map_values(|item: InitiatorStats| item@);
    if list.len() == 0 {
        return "none".to_owned();
    }
    let mut parts: Vec<String> = Vec::new();
    let ghost shown = views.map_values(
        |item: InitiatorStatsView| item.kind + " "@ + text::decimal(item.count as nat),
    );
    let mut i: usize = 0;
    while i < list.len()
        invariant
            i <= list.len(),
            parts.len() == i,
            views == list@.map_values(|item: InitiatorStats| item@),
            shown == views.map_values(
                |item: InitiatorStatsView| item.kind + " "@ + text::decimal(item.count as nat),
            ),
            forall|k: int| 0 <= k < i ==> #[trigger] parts@[k]@ == shown[k],
        decreases list.len() - i,
    {
        assert(views[i as int] == list@[i as int]@);
        let mut part = joined(list[i].kind.as_str(), " ");
        part.append(decimal_text(list[i].count).as_str());
        parts.push(part);
        i += 1;
    }
    assert(text::texts(parts@) =~= shown);
    join_texts(&parts, ", ")
}

/// The statistics for people.
pub open spec fn shown_stats(stats: ExecutionStatsView) -> Seq<char> {
    "Workspace: "@ + stats.workspace.name + " ("@ + shortened(stats.workspace.id) + ")\nWindow: "@
        + text::signed_decimal(stats.since_ms as int) + ".."@ + text::signed_decimal(stats.until_ms as int)
        + " (epoch ms)\nExecutions: "@ + text::decimal(stats.total as nat) + "\nStatus:\n  queued: "@
        + text::decimal(stats.status.queued as nat) + "\n  running: "@ + text::decimal(
        stats.status.running as nat,
    ) + "\n  exited 0: "@ + text::decimal(stats.status.exited_zero as nat) + "\n  exited nonzero: "@
        + text::decimal(stats.status.exited_nonzero as nat) + "\n  signaled: "@ + text::decimal(
        stats.status.signaled as nat,
    ) + "\n  spawn error: "@ + text::decimal(stats.status.spawn_error as nat) + "\n  cancelled: "@
        + text::decimal(stats.status.cancelled as nat) + "\n  interrupted: "@ + text::decimal(
        stats.status.interrupted as nat,
    ) + "\n  unknown terminal: "@ + text::decimal(stats.status.unknown_terminal as nat)
        + "\nInitiators: "@ + shown_initiators(stats.by_initiator) + "\nCaptured output: "@
        + shown_bytes(stats.captured_bytes) + "\nTruncated executions: "@ + text::decimal(
        stats.truncated_executions as nat,
    ) + "\nDuration samples: "@ + text::decimal(stats.duration_samples as nat) + "\nDuration p50: "@
        + shown_duration(stats.duration_p50_ms) + "\nDuration p95: "@ + shown_duration(
        stats.duration_p95_ms,
    )
}

fn entry(text: &mut String, label: &str, count: u64)
    ensures
        final(text)@ == old(text)@ + label@ + text::decimal(count as nat),
{
    text.append(label);
    text.append(decimal_text(count).as_str());
}

/// Shows statistics for people.
pub fn format_stats(stats: &ExecutionStats) -> (text: String)
    ensures
        text@ == shown_stats(stats@),
{
    let mut text = joined("Workspace: ", stats.workspace.name.as_str());
    text.append(" (");
    text.append(short_id(stats.workspace.id.as_str()).as_str());
    text.append(")\nWindow: ");
    text.append(signed_decimal_text(stats.since_ms).as_str());
    text.append("..");
    text.append(signed_decimal_text(stats.until_ms).as_str());
    entry(&mut text, " (epoch ms)\nExecutions: ", stats.total);
    entry(&mut text, "\nStatus:\n  queued: ", stats.status.queued);
    entry(&mut text, "\n  running: ", stats.status.running);
    entry(&mut text, "\n  exited 0: ", stats.status.exited_zero);
    entry(&mut text, "\n  exited nonzero: ", stats.status.exited_nonzero);
    entry(&mut text, "\n  signaled: ", stats.status.signaled);
    entry(&mut text, "\n  spawn error: ", stats.status.spawn_error);
    entry(&mut text, "\n  cancelled: ", stats.status.cancelled);
    entry(&mut text, "\n  interrupted: ", stats.status.interrupted);
    entry(&mut text, "\n  unknown terminal: ", stats.status.unknown_terminal);
    text.append("\nInitiators: ");
    text.append(initiators_text(&stats.by_initiator).as_str());
    text.append("\nCaptured output: ");
    text.append(format_bytes(stats.captured_bytes).as_str());
    entry(&mut text, "\nTruncated executions: ", stats.truncated_executions);
    entry(&mut text, "\nDuration samples: ", stats.duration_samples);
    text.append("\nDuration p50: ");
    text.append(format_duration(stats.duration_p50_ms).as_str());
    text.append("\nDuration p95: ");
    text.append(format_duration(stats.duration_p95_ms).as_str());
    text
}

/// A count that may not be known.
pub open spec fn shown_count(count: Option<u64>) -> Seq<char> {
    match count {
        Some(count) => text::decimal(count as nat),
        None => "unknown"@,
    }
}

fn count_text(count: Option<u64>) -> (text: String)
    ensures
        text@ == shown_count(count),
{
    match count {
        Some(count) => decimal_text(count),
        None => "unknown".to_owned(),
    }
}

/// What is said of the daemon and its workspaces.
pub open spec fn shown_health(health: HealthView, workspaces: nat) -> Seq<char> {
    "daemon: ok (pid "@ + text::decimal(health.daemon_pid as nat) + ")\nprotocol: v"@ + text::decimal(
        health.protocol_version as nat,
    ) + "\nserver: "@ + (match health.server_version {
        Some(version) => version,
        None => "unknown"@,
    }) + "\ncapabilities: "@ + separated(health.capabilities, ", "@) + "\nactive executions: "@
        + shown_count(health.active_executions) + "\nactive sessions: "@ + shown_count(
        health.active_sessions,
    ) + "\nsocket: "@ + health.socket_path + "\ndatabase: "@ + health.database_path
        + "\nworkspaces: "@ + text::decimal(workspaces)
}

/// Says how the daemon is.
pub fn format_health(health: &Health, workspaces: usize) -> (text: String)
    ensures
        text@ == shown_health(health@, workspaces as nat),
{
    let mut text = joined("daemon: ok (pid ", decimal_text(health.daemon_pid as u64).as_str());
    entry(&mut text, ")\nprotocol: v", health.protocol_version as u64);
    text.append("\nserver: ");
    match &health.server_version {
        Some(version) => {
            text.append(version.as_str());
        },
        None => {
            text.append("unknown");
        },
    }
    text.append("\ncapabilities: ");
    text.append(join_texts(&health.capabilities, ", ").as_str());
    text.append("\nactive executions: ");
    text.append(count_text(health.active_executions).as_str());
    text.append("\nactive sessions: ");
    text.append(count_text(health.active_sessions).as_str());
    text.append("\nsocket: ");
    text.append(health.socket_path.as_str());
    text.append("\ndatabase: ");
    text.append(health.database_path.as_str());
    entry(&mut text, "\nworkspaces: ", workspaces as u64);
    text
}

} // verus!
