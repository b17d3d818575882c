//! What is reported of the forwards when the tunnel starts.

use crate::config::{podspec_of, Config, ForwardSpec};
use vstd::prelude::*;

verus! {

/// The character for a digit.
pub open spec fn digit(d: nat) -> char {
    if d == 0 {
        '0'
    } else if d == 1 {
        '1'
    } else if d == 2 {
        '2'
    } else if d == 3 {
        '3'
    } else if d == 4 {
        '4'
    } else if d == 5 {
        '5'
    } else if d == 6 {
        '6'
    } else if d == 7 {
        '7'
    } else if d == 8 {
        '8'
    } else {
        '9'
    }
}

/// A number in decimal digits, without leading zeros.
pub open spec fn decimal(n: nat) -> Seq<char>
    decreases n,
{
    if n < 10 {
        seq![digit(n)]
    } else {
        decimal(n / 10).push(digit(n % 10))
    }
}

fn digit_text(d: u16) -> (text: &'static str)
    requires
        d < 10,
    ensures
        text@ == seq![digit(d as nat)],
{
    proof {
        reveal_strlit("0");
        reveal_strlit("1");
        reveal_strlit("2");
        reveal_strlit("3");
        reveal_strlit("4");
        reveal_strlit("5");
        reveal_strlit("6");
        reveal_strlit("7");
        reveal_strlit("8");
        reveal_strlit("9");
    }
    match d {
        0 => "0",
        1 => "1",
        2 => "2",
        3 => "3",
        4 => "4",
        5 => "5",
        6 => "6",
        7 => "7",
        8 => "8",
        _ => "9",
    }
}

/// Writes a port number in decimal.
pub fn port_text(port: u16) -> (text: String)
    ensures
        text@ == decimal(port as nat),
    decreases port,
{
    if port < 10 {
        digit_text(port).to_owned()
    } else {
        let mut text = port_text(port / 10);
        text.append(digit_text(port % 10));
        text
    }
}

/// The line that opens the report.
pub open spec fn heading() -> Seq<char> {
    "Starting, available port forwards are:"@
}

/// The line that the report holds for a forward.
pub open spec fn line_of(spec: ForwardSpec) -> Seq<char> {
    "- "@ + podspec_of(spec) + ", local port = "@ + decimal(spec.local_port as nat)
        + ", remote port = "@ + decimal(spec.pod_port as nat)
}

/// The report of the forwards: a heading, then one line for each forward,
/// in their order, with its pod and its two ports.
pub fn log_configs(configs: &[Config]) -> (lines: Vec<String>)
    ensures
        lines.len() == configs.len() + 1,
        lines[0]@ == heading(),
        forall|k: int|
            0 <= k < configs.len() ==> (#[trigger] lines[k + 1])@ == line_of(configs[k]@),
{
    let mut lines: Vec<String> = Vec::new();
    lines.push("Starting, available port forwards are:".to_owned());
    let mut done: usize = 0;
    while done < configs.len()
        invariant
            done <= configs.len(),
            lines.len() == done + 1,
            lines[0]@ == heading(),
            forall|k: int| 0 <= k < done ==> (#[trigger] lines[k + 1])@ == line_of(configs[k]@),
        decreases configs.len() - done,
    {
        let config = &configs[done];
        let mut line = "- ".to_owned();
        line.append(config.podspec().as_str());
        line.append(", local port = ");
        line.append(port_text(config.0.local_port).as_str());
        line.append(", remote port = ");
        line.append(port_text(config.0.pod_port).as_str());
        lines.push(line);
        done += 1;
    }
    lines
}

} // verus!
