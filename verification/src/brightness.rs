//! The backlight module: scroll to change the brightness, click to switch the
//! laptop panel on and off, and a label that shows the level or that the
//! panel is off.

use vstd::prelude::*;
use crate::command::{CommandLine, Scroll};
use crate::json::{Json, parse_json, json_document};
use crate::text::{decimal, push_int, push_str, owned};

verus! {

/// The output that the module watches and toggles.
pub open spec fn panel_name() -> Seq<char> {
    "eDP-1"@
}

/// Scrolling up raises the brightness by 5%, down lowers it by 5%.
pub fn scroll_command(dir: Scroll) -> (c: CommandLine)
    ensures
        dir == Scroll::Up ==> c.is("brightnessctl"@, seq!["set"@, "5%+"@]),
        dir == Scroll::Down ==> c.is("brightnessctl"@, seq!["set"@, "5%-"@]),
{
    let step = match dir {
        Scroll::Up => "5%+",
        Scroll::Down => "5%-",
    };
    let args = ["set", step];
    let c = CommandLine::new("brightnessctl", &args);
    proof {
        assert(args@.map_values(|a: &str| a@) =~= seq!["set"@, step@]);
    }
    c
}

/// A single click switches the panel on or off; other presses do nothing.
pub fn click_command(n_press: i32) -> (c: Option<CommandLine>)
    ensures
        c is Some <==> n_press == 1,
        c matches Some(c) ==> c.is("swaymsg"@, seq!["output"@, panel_name(), "toggle"@]),
{
    if n_press == 1 {
        let args = ["output", "eDP-1", "toggle"];
        let c = CommandLine::new("swaymsg", &args);
        proof {
            assert(args@.map_values(|a: &str| a@) =~= seq!["output"@, panel_name(), "toggle"@]);
        }
        Some(c)
    } else {
        None
    }
}

/// The command that lists the outputs as JSON.
pub fn outputs_query() -> (c: CommandLine)
    ensures
        c.is("swaymsg"@, seq!["-t"@, "get_outputs"@, "-r"@]),
{
    let args = ["-t", "get_outputs", "-r"];
    let c = CommandLine::new("swaymsg", &args);
    proof {
        assert(args@.map_values(|a: &str| a@) =~= seq!["-t"@, "get_outputs"@, "-r"@]);
    }
    c
}

/// The output is named after the panel.
pub open spec fn is_panel(output: Json) -> bool {
    output.member("name"@).equals_text(panel_name())
}

/// The output reports itself inactive or powered off.
pub open spec fn reports_off(output: Json) -> bool {
    output.member("active"@).equals_bool(false) || output.member("power"@).equals_bool(false)
}

/// Whether the panel is off, judged from `swaymsg -t get_outputs -r`
/// output parsed as JSON: the first output named after the panel reports
/// itself inactive or powered off. Not an array, no such output, or no
/// document at all: not off.
pub open spec fn panel_off_in(doc: Option<Json>) -> bool {
    match doc {
        Some(Json::Array(outputs)) => {
            let outs = outputs@;
            if exists|i: int| 0 <= i < outs.len() && is_panel(outs[i]) {
                let i = choose|i: int|
                    0 <= i < outs.len() && is_panel(outs[i]) && forall|j: int|
                        0 <= j < i ==> !is_panel(outs[j]);
                reports_off(outs[i])
            } else {
                false
            }
        },
        _ => false,
    }
}

proof fn lemma_first_panel(outs: Seq<Json>, i: int)
    requires
        0 <= i < outs.len(),
        is_panel(outs[i]),
        forall|j: int| 0 <= j < i ==> !is_panel(outs[j]),
    ensures
        (choose|k: int|
            0 <= k < outs.len() && is_panel(outs[k]) && forall|j: int|
                0 <= j < k ==> !is_panel(outs[j])) == i,
{
    let k = choose|k: int|
        0 <= k < outs.len() && is_panel(outs[k]) && forall|j: int| 0 <= j < k ==> !is_panel(outs[j]);
    assert(0 <= k < outs.len() && is_panel(outs[k]));
    if k < i {
        assert(!is_panel(outs[k]));
    }
    if i < k {
        assert(!is_panel(outs[i]));
    }
}

/// Whether the panel is off, given the parsed output list.
pub fn panel_off(doc: &Option<Json>) -> (off: bool)
    ensures
        off == panel_off_in(*doc),
{
    match doc {
        Some(Json::Array(outputs)) => {
            let mut i: usize = 0;
            while i < outputs.len()
                invariant
                    i <= outputs@.len(),
                    *doc == Some(Json::Array(*outputs)),
                    forall|j: int| 0 <= j < i ==> !is_panel(#[trigger] outputs@[j]),
                decreases outputs@.len() - i,
            {
                let o = &outputs[i];
                let named = match o.get("name") {
                    Some(name) => name.eq_str("eDP-1"),
                    None => false,
                };
                proof {
                    reveal_strlit("eDP-1");
                }
                if named {
                    proof {
                        lemma_first_panel(outputs@, i as int);
                    }
                    let inactive = match o.get("active") {
                        Some(v) => v.eq_bool(false),
                        None => false,
                    };
                    let unpowered = match o.get("power") {
                        Some(v) => v.eq_bool(false),
                        None => false,
                    };
                    return inactive || unpowered;
                }
                i = i + 1;
            }
            false
        },
        _ => false,
    }
}

/// Whether the panel is off, given what `swaymsg -t get_outputs -r` wrote
/// to standard output (`None`: it could not be run, which counts as on).
pub fn display_is_off(stdout: Option<&[u8]>) -> (off: bool)
    ensures
        off == match stdout {
            Some(bytes) => panel_off_in(json_document(bytes@)),
            None => false,
        },
{
    match stdout {
        Some(bytes) => {
            let doc = parse_json(bytes);
            panel_off(&doc)
        },
        None => false,
    }
}

/// The label: a sun glyph, then `off`, or the level in percent.
pub open spec fn label_text(level: Option<i32>) -> Seq<char> {
    match level {
        None => "\u{f185}  off"@,
        Some(p) => "\u{f185}  "@ + decimal(p as int) + "%"@,
    }
}

/// The label for the panel being off (`None`) or at a level in percent.
pub fn label(level: Option<i32>) -> (s: String)
    ensures
        s@ == label_text(level),
{
    match level {
        None => owned("\u{f185}  off"),
        Some(p) => {
            let mut s = owned("\u{f185}  ");
            push_int(&mut s, p as i64);
            push_str(&mut s, "%");
            s
        },
    }
}

/// The label shown before the first reading.
pub fn initial_label() -> (s: String)
    ensures
        s@ == "\u{f185}  ...%"@,
{
    owned("\u{f185}  ...%")
}

} // verus!
