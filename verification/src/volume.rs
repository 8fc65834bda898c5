//! The volume module: the default sink's level and mute state as a label,
//! a tooltip naming the sink (with codec and battery for Bluetooth
//! headsets), scroll and click commands, and the decisions of the loop that
//! talks to the sound server.

use vstd::prelude::*;
use crate::command::{CommandLine, Scroll};
use crate::text::{
    contains, contains_seq, decimal, find_char, first_index, owned, push_int, push_str,
    str_eq, lemma_contains_in_piece, parse_i32_spec, lemma_decimal_parses_back,
};

verus! {

/// Sound-server volume that counts as 100%.
pub open spec fn volume_norm() -> int {
    65536
}

/// The level in percent of a raw volume: `raw / 65536 * 100` rounded to the
/// nearest integer, halves rounded up.
pub open spec fn percent_of(raw: int) -> int {
    (raw * 100 + 32768) / 65536
}

/// The level in percent of a raw sound-server volume.
pub fn volume_percent(raw: u32) -> (p: i32)
    ensures
        p == percent_of(raw as int),
        p as int * volume_norm() - 32768 <= raw as int * 100 < p as int * volume_norm() + 32768,
{
    let q: u64 = (raw as u64 * 100 + 32768) / 65536;
    assert(q <= 6553600) by (nonlinear_arith)
        requires
            q == (raw as u64 * 100 + 32768) / 65536,
            raw <= u32::MAX,
    ;
    q as i32
}

/// Levels above 100% are flagged.
pub fn is_loud(percent: i32) -> (r: bool)
    ensures
        r == (percent >= 101),
{
    percent >= 101
}

/// The label: a speaker glyph (crossed out when muted), then the level.
pub open spec fn label_text(muted: bool, percent: i32) -> Seq<char> {
    (if muted {
        "\u{f6a9}"@
    } else {
        "\u{f028}"@
    }) + "  "@ + decimal(percent as int) + "%"@
}

/// The label for a sink at `percent`, muted or not.
pub fn label(muted: bool, percent: i32) -> (s: String)
    ensures
        s@ == label_text(muted, percent),
        s@.len() >= 5,
        s@[0] == if muted { '\u{f6a9}' } else { '\u{f028}' },
        s@[1] == ' ' && s@[2] == ' ',
        s@.last() == '%',
        parse_i32_spec(s@.subrange(3, s@.len() - 1)) == Some(percent),
{
    proof {
        lemma_label_shows_percent(muted, percent);
    }
    let mut s = if muted {
        owned("\u{f6a9}")
    } else {
        owned("\u{f028}")
    };
    push_str(&mut s, "  ");
    push_int(&mut s, percent as i64);
    push_str(&mut s, "%");
    s
}

/// The label shown before the first reading.
pub fn initial_label() -> (s: String)
    ensures
        s@ == "\u{f028} ...%"@,
{
    owned("\u{f028} ...%")
}

/// Scrolling up raises the default sink's volume by 5%, down lowers it.
pub fn scroll_command(dir: Scroll) -> (c: CommandLine)
    ensures
        dir == Scroll::Up ==> c.is("pactl"@, seq!["set-sink-volume"@, "@DEFAULT_SINK@"@, "+5%"@]),
        dir == Scroll::Down ==> c.is("pactl"@, seq!["set-sink-volume"@, "@DEFAULT_SINK@"@, "-5%"@]),
{
    let step = match dir {
        Scroll::Up => "+5%",
        Scroll::Down => "-5%",
    };
    let args = ["set-sink-volume", "@DEFAULT_SINK@", step];
    let c = CommandLine::new("pactl", &args);
    proof {
        assert(args@.map_values(|a: &str| a@) =~= seq!["set-sink-volume"@, "@DEFAULT_SINK@"@, step@]);
    }
    c
}

/// A click toggles the default sink's mute state.
pub fn click_command() -> (c: CommandLine)
    ensures
        c.is("pactl"@, seq!["set-sink-mute"@, "@DEFAULT_SINK@"@, "toggle"@]),
{
    let args = ["set-sink-mute", "@DEFAULT_SINK@", "toggle"];
    let c = CommandLine::new("pactl", &args);
    proof {
        assert(args@.map_values(|a: &str| a@) =~= seq!["set-sink-mute"@, "@DEFAULT_SINK@"@, "toggle"@]);
    }
    c
}

/// States of the connection to the sound server.
#[derive(Clone, Copy, PartialEq, Eq, Structural)]
pub enum ContextState {
    Unconnected,
    Connecting,
    Authorizing,
    SettingName,
    Ready,
    Failed,
    Terminated,
}

/// The connected states (those on the way to, or at, `Ready`).
pub open spec fn is_good_spec(state: ContextState) -> bool {
    state == ContextState::Connecting || state == ContextState::Authorizing
        || state == ContextState::SettingName || state == ContextState::Ready
}

/// Whether a state is one of the connected states.
pub fn is_good(state: ContextState) -> (r: bool)
    ensures
        r == is_good_spec(state),
{
    match state {
        ContextState::Connecting | ContextState::Authorizing | ContextState::SettingName
        | ContextState::Ready => true,
        _ => false,
    }
}

/// What to do while waiting for the connection to come up.
#[derive(Clone, Copy, PartialEq, Eq, Structural)]
pub enum ConnectStep {
    /// Run the main loop once more and look again.
    Wait,
    /// The connection is ready: go on.
    Proceed,
    /// The connection failed: stop the module's sound-server thread.
    GiveUp,
}

/// Ready: go on; not a connected state: give up; otherwise keep waiting.
pub fn connect_step(state: ContextState) -> (step: ConnectStep)
    ensures
        state == ContextState::Ready ==> step == ConnectStep::Proceed,
        state != ContextState::Ready && !is_good_spec(state) ==> step == ConnectStep::GiveUp,
        state != ContextState::Ready && is_good_spec(state) ==> step == ConnectStep::Wait,
{
    if state == ContextState::Ready {
        ConnectStep::Proceed
    } else if !is_good(state) {
        ConnectStep::GiveUp
    } else {
        ConnectStep::Wait
    }
}

/// Kinds of object that a sound-server change event is about.
#[derive(Clone, Copy, PartialEq, Eq, Structural)]
pub enum Facility {
    Sink,
    Source,
    SinkInput,
    SourceOutput,
    Module,
    Client,
    SampleCache,
    Server,
    Card,
}

/// Changes to sinks or to the server (the default sink) call for a refresh.
pub fn should_refresh(facility: Option<Facility>) -> (r: bool)
    ensures
        r == (facility == Some(Facility::Sink) || facility == Some(Facility::Server)),
{
    match facility {
        Some(Facility::Sink) | Some(Facility::Server) => true,
        _ => false,
    }
}


/// A line with its trailing carriage return removed, if it has one.
pub open spec fn strip_cr(line: Seq<char>) -> Seq<char> {
    if line.len() > 0 && line.last() == '\r' {
        line.drop_last()
    } else {
        line
    }
}

/// The lines of a text as `str::lines` gives them: split after each `\n`,
/// the `\n` (and a `\r` just before it) removed; a last line without `\n`
/// is kept as it is; no line after a final `\n`.
pub open spec fn text_lines(t: Seq<char>) -> Seq<Seq<char>>
    decreases t.len(),
{
    if t.len() == 0 {
        seq![]
    } else {
        match first_index(t, '\n') {
            Some(k) => if 0 <= k < t.len() {
                seq![strip_cr(t.take(k))] + text_lines(t.skip(k + 1))
            } else {
                seq![t]
            },
            None => seq![t],
        }
    }
}

/// Where a line of `bluetoothctl info` output reports the battery level.
pub open spec fn battery_marker() -> Seq<char> {
    "Battery Percentage:"@
}

/// The tooltip note for one line of `bluetoothctl info` output: for a line
/// with the battery marker, a `(` and a `)`, what stands between the first
/// `(` and the first `)`.
pub open spec fn battery_note(line: Seq<char>) -> Seq<char> {
    if contains_seq(line, battery_marker()) {
        match (first_index(line, '('), first_index(line, ')')) {
            (Some(s), Some(e)) => "\nBattery: "@ + line.subrange(s + 1, e) + "%"@,
            _ => Seq::empty(),
        }
    } else {
        Seq::empty()
    }
}

/// A line that can be read: if it carries the marker and both brackets,
/// the first `)` comes after the first `(`.
pub open spec fn note_defined(line: Seq<char>) -> bool {
    contains_seq(line, battery_marker()) ==> match (first_index(line, '('), first_index(line, ')')) {
        (Some(s), Some(e)) => s < e,
        _ => true,
    }
}

/// The notes of a run of lines, in order.
pub open spec fn battery_notes(lines: Seq<Seq<char>>) -> Seq<char>
    decreases lines.len(),
{
    if lines.len() == 0 {
        Seq::empty()
    } else {
        battery_note(lines[0]) + battery_notes(lines.drop_first())
    }
}

/// Every line of a run can be read.
pub open spec fn notes_defined(lines: Seq<Seq<char>>) -> bool
    decreases lines.len(),
{
    if lines.len() == 0 {
        true
    } else {
        note_defined(lines[0]) && notes_defined(lines.drop_first())
    }
}

/// A `bluetoothctl info` report all of whose lines can be read.
pub open spec fn readable_report(report: Seq<char>) -> bool {
    notes_defined(text_lines(report))
}

proof fn lemma_cons_lines(l: Seq<char>, rest: Seq<Seq<char>>)
    ensures
        battery_notes(seq![l] + rest) == battery_note(l) + battery_notes(rest),
        notes_defined(seq![l] + rest) == (note_defined(l) && notes_defined(rest)),
{
    assert((seq![l] + rest).drop_first() =~= rest);
}

proof fn lemma_lines_break(t: Seq<char>, k: int)
    requires
        0 <= k < t.len(),
        first_index(t, '\n') == Some(k),
    ensures
        text_lines(t) == seq![strip_cr(t.take(k))] + text_lines(t.skip(k + 1)),
{
    reveal(text_lines);
}

proof fn lemma_lines_last(t: Seq<char>)
    requires
        t.len() > 0,
        first_index(t, '\n') is None,
    ensures
        text_lines(t) == seq![t],
{
    reveal(text_lines);
}

proof fn lemma_lines_empty()
    ensures
        text_lines(Seq::<char>::empty()) == Seq::<Seq<char>>::empty(),
{
    reveal(text_lines);
}

/// Splits off the line that starts at `pos`: the line, and where the next
/// one starts.
#[verifier::spinoff_prover]
#[verifier::rlimit(40)]
fn split_line(t: &str, pos: usize) -> (r: (&str, usize))
    requires
        pos < t@.len(),
    ensures
        pos < r.1 <= t@.len(),
        text_lines(t@.skip(pos as int)) == seq![r.0@] + text_lines(t@.skip(r.1 as int)),
{
    let n = t.unicode_len();
    let ghost rest = t@.skip(pos as int);
    let mut j: usize = pos;
    while j < n
        invariant
            n == t@.len(),
            pos <= j <= n,
            rest == t@.skip(pos as int),
            forall|i: int| pos <= i < j ==> t@[i] != '\n',
        decreases n - j,
    {
        if t.get_char(j) == '\n' {
            let k = j - pos;
            proof {
                assert forall|i: int| 0 <= i < k implies rest[i] != '\n' by {
                    assert(rest[i] == t@[pos + i]);
                }
                crate::text::lemma_first_index(rest, '\n', k as int);
                lemma_lines_break(rest, k as int);
                assert(rest.skip(k + 1) =~= t@.skip(j + 1));
                assert(rest.take(k as int) =~= t@.subrange(pos as int, j as int));
            }
            let end = if j > pos && t.get_char(j - 1) == '\r' {
                j - 1
            } else {
                j
            };
            let line = t.substring_char(pos, end);
            proof {
                assert(line@ =~= strip_cr(rest.take(k as int)));
            }
            return (line, j + 1);
        }
        j = j + 1;
    }
    proof {
        assert(first_index(rest, '\n') is None) by {
            if exists|i: int| 0 <= i < rest.len() && rest[i] == '\n' {
                let i = choose|i: int| 0 <= i < rest.len() && rest[i] == '\n';
                assert(t@[pos + i] == '\n');
            }
        }
        assert(t@.skip(n as int) =~= Seq::<char>::empty());
        lemma_lines_last(rest);
        lemma_lines_empty();
        assert(seq![rest] + Seq::<Seq<char>>::empty() =~= seq![rest]);
    }
    let line = t.substring_char(pos, n);
    proof {
        assert(line@ =~= rest);
    }
    (line, n)
}

/// Whether a line can be read (see `note_defined`).
fn line_readable(line: &str) -> (r: bool)
    ensures
        r == note_defined(line@),
{
    proof {
        reveal_strlit("Battery Percentage:");
    }
    if !contains(line, "Battery Percentage:") {
        return true;
    }
    match (find_char(line, '('), find_char(line, ')')) {
        (Some(s), Some(e)) => s < e,
        _ => true,
    }
}

/// The note for one line (see `battery_note`).
fn line_note(line: &str) -> (r: String)
    requires
        note_defined(line@),
    ensures
        r@ == battery_note(line@),
{
    if !contains(line, "Battery Percentage:") {
        return String::new();
    }
    match (find_char(line, '('), find_char(line, ')')) {
        (Some(s), Some(e)) => {
            let mut r = owned("\nBattery: ");
            push_str(&mut r, line.substring_char(s + 1, e));
            push_str(&mut r, "%");
            r
        },
        _ => String::new(),
    }
}

/// Whether every line of a `bluetoothctl info` report can be read.
#[verifier::spinoff_prover]
#[verifier::rlimit(40)]
pub fn is_readable_report(report: &str) -> (r: bool)
    ensures
        r == readable_report(report@),
{
    let n = report.unicode_len();
    let mut pos: usize = 0;
    proof {
        assert(report@.skip(0) =~= report@);
    }
    while pos < n
        invariant
            n == report@.len(),
            pos <= n,
            readable_report(report@) == notes_defined(text_lines(report@.skip(pos as int))),
        decreases n - pos,
    {
        let (line, next) = split_line(report, pos);
        proof {
            lemma_cons_lines(line@, text_lines(report@.skip(next as int)));
        }
        if !line_readable(line) {
            return false;
        }
        pos = next;
    }
    proof {
        assert(report@.skip(pos as int) =~= Seq::<char>::empty());
        lemma_lines_empty();
    }
    true
}

/// The battery notes of a `bluetoothctl info` report, line by line.
#[verifier::spinoff_prover]
#[verifier::rlimit(40)]
pub fn report_notes(report: &str) -> (r: String)
    requires
        readable_report(report@),
    ensures
        r@ == battery_notes(text_lines(report@)),
{
    let n = report.unicode_len();
    let mut pos: usize = 0;
    let mut out = String::new();
    proof {
        assert(report@.skip(0) =~= report@);
    }
    while pos < n
        invariant
            n == report@.len(),
            pos <= n,
            notes_defined(text_lines(report@.skip(pos as int))),
            battery_notes(text_lines(report@)) == out@ + battery_notes(text_lines(report@.skip(pos as int))),
        decreases n - pos,
    {
        let (line, next) = split_line(report, pos);
        let ghost rest = text_lines(report@.skip(next as int));
        let ghost before = out@;
        proof {
            lemma_cons_lines(line@, rest);
        }
        let note = line_note(line);
        push_str(&mut out, note.as_str());
        pos = next;
        proof {
            assert(before + (battery_note(line@) + battery_notes(rest)) =~= (before + battery_note(line@)) + battery_notes(rest));
        }
    }
    proof {
        assert(report@.skip(pos as int) =~= Seq::<char>::empty());
        lemma_lines_empty();
        assert(out@ + Seq::<char>::empty() =~= out@);
    }
    out
}


/// The sink's API property that marks a Bluetooth device.
pub open spec fn bluetooth_api() -> Seq<char> {
    "bluez5"@
}

/// The device whose `bluetoothctl info` report the tooltip wants: the sink's
/// device string, when the sink is a Bluetooth device and has one.
pub fn device_to_query<'a>(api: Option<&str>, device: Option<&'a str>) -> (r: Option<&'a str>)
    ensures
        r matches Some(d) ==> device == Some(d),
        r is Some <==> (api matches Some(a) && a@ == bluetooth_api() && device is Some),
{
    match api {
        Some(a) => {
            if str_eq(a, "bluez5") {
                device
            } else {
                None
            }
        },
        None => None,
    }
}

/// The command that reports on a Bluetooth device.
pub fn device_report_query(device: &str) -> (c: CommandLine)
    ensures
        c.is("bluetoothctl"@, seq!["info"@, device@]),
{
    let args = ["info", device];
    let c = CommandLine::new("bluetoothctl", &args);
    proof {
        assert(args@.map_values(|a: &str| a@) =~= seq!["info"@, device@]);
    }
    c
}

/// The tooltip: the sink's description (or `Unknown Sink`); for a Bluetooth
/// sink, a small italic note, the codec if known, and the battery notes of
/// the device's `bluetoothctl info` report if there is one.
pub open spec fn tooltip_text(
    description: Option<Seq<char>>,
    api: Option<Seq<char>>,
    codec: Option<Seq<char>>,
    report: Option<Seq<char>>,
) -> Seq<char> {
    let name = match description {
        Some(d) => d,
        None => "Unknown Sink"@,
    };
    if api == Some(bluetooth_api()) {
        name + "\n<span size='small'><i>Bluetooth Device</i>"@ + match codec {
            Some(c) => "\nCodec: "@ + c,
            None => Seq::empty(),
        } + match report {
            Some(r) => battery_notes(text_lines(r)),
            None => Seq::empty(),
        } + "</span>"@
    } else {
        name
    }
}

/// The option of a string slice, as characters.
pub open spec fn chars_of(o: Option<&str>) -> Option<Seq<char>> {
    match o {
        Some(s) => Some(s@),
        None => None,
    }
}

/// The tooltip for a sink (see `tooltip_text`); `report` is the decoded
/// output of `bluetoothctl info` for the device, when it was asked for and
/// could be run.
#[verifier::spinoff_prover]
pub fn tooltip(
    description: Option<&str>,
    api: Option<&str>,
    codec: Option<&str>,
    report: Option<&str>,
) -> (s: String)
    requires
        report matches Some(r) ==> readable_report(r@),
    ensures
        s@ == tooltip_text(chars_of(description), chars_of(api), chars_of(codec), chars_of(report)),
{
    let mut s = match description {
        Some(d) => owned(d),
        None => owned("Unknown Sink"),
    };
    let bluetooth = match api {
        Some(a) => str_eq(a, "bluez5"),
        None => false,
    };
    if bluetooth {
        push_str(&mut s, "\n<span size='small'><i>Bluetooth Device</i>");
        if let Some(c) = codec {
            push_str(&mut s, "\nCodec: ");
            push_str(&mut s, c);
        }
        if let Some(r) = report {
            let notes = report_notes(r);
            push_str(&mut s, notes.as_str());
        }
        push_str(&mut s, "</span>");
    }
    proof {
        if bluetooth {
            assert(chars_of(api) == Some(bluetooth_api()));
        } else {
            assert(chars_of(api) != Some(bluetooth_api()));
        }
        assert(s@ =~= tooltip_text(chars_of(description), chars_of(api), chars_of(codec), chars_of(report)));
    }
    s
}


/// A louder raw volume never shows a lower percentage.
pub proof fn lemma_percent_monotone(a: int, b: int)
    requires
        0 <= a <= b,
    ensures
        percent_of(a) <= percent_of(b),
{
    assert((a * 100 + 32768) / 65536 <= (b * 100 + 32768) / 65536) by (nonlinear_arith)
        requires
            0 <= a <= b,
    ;
}

/// Silence shows 0% and the nominal full volume shows 100%.
pub proof fn lemma_percent_of_norm()
    ensures
        percent_of(0) == 0,
        percent_of(volume_norm()) == 100,
{
}

proof fn lemma_line_of_no_marker(t: Seq<char>, k: int)
    requires
        0 <= k < t.len(),
        !contains_seq(t, battery_marker()),
    ensures
        !contains_seq(strip_cr(t.take(k)), battery_marker()),
        !contains_seq(t.skip(k + 1), battery_marker()),
{
    let line = strip_cr(t.take(k));
    if contains_seq(line, battery_marker()) {
        if k > 0 && t.take(k).last() == '\r' {
            assert(line =~= t.subrange(0, k - 1));
            lemma_contains_in_piece(t, 0, k - 1, battery_marker());
        } else {
            assert(line =~= t.subrange(0, k));
            lemma_contains_in_piece(t, 0, k, battery_marker());
        }
    }
    if contains_seq(t.skip(k + 1), battery_marker()) {
        assert(t.skip(k + 1) =~= t.subrange(k + 1, t.len() as int));
        lemma_contains_in_piece(t, k + 1, t.len() as int, battery_marker());
    }
}

/// A report that nowhere mentions the battery level adds nothing to the
/// tooltip.
pub proof fn lemma_no_marker_no_notes(report: Seq<char>)
    requires
        !contains_seq(report, battery_marker()),
    ensures
        battery_notes(text_lines(report)) == Seq::<char>::empty(),
    decreases report.len(),
{
    reveal(text_lines);
    if report.len() > 0 {
        match first_index(report, '\n') {
            Some(k) => {
                if 0 <= k < report.len() {
                    lemma_line_of_no_marker(report, k);
                    lemma_no_marker_no_notes(report.skip(k + 1));
                    lemma_cons_lines(strip_cr(report.take(k)), text_lines(report.skip(k + 1)));
                } else {
                    lemma_cons_lines(report, Seq::empty());
                }
            },
            None => {
                lemma_cons_lines(report, Seq::empty());
            },
        }
    }
}


/// The volume label is the speaker glyph (crossed out when muted), two
/// spaces, the given percent itself in decimal, and `%`: the text between
/// the spaces and the `%` parses back to exactly that percent, whatever it
/// is (above 100% too).
pub proof fn lemma_label_shows_percent(muted: bool, percent: i32)
    ensures
        label_text(muted, percent).len() >= 5,
        label_text(muted, percent)[0] == if muted { '\u{f6a9}' } else { '\u{f028}' },
        label_text(muted, percent)[1] == ' ' && label_text(muted, percent)[2] == ' ',
        label_text(muted, percent).last() == '%',
        parse_i32_spec(label_text(muted, percent).subrange(3, label_text(muted, percent).len() - 1)) == Some(percent),
{
    reveal_strlit("\u{f6a9}");
    reveal_strlit("\u{f028}");
    reveal_strlit("  ");
    reveal_strlit("%");
    lemma_decimal_parses_back(percent);
    let d = decimal(percent as int);
    let t = label_text(muted, percent);
    crate::text::lemma_decimal_nonempty(percent as int);
    assert(t.subrange(3, t.len() - 1) =~= d);
}

} // verus!
