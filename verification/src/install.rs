//! Installing PM2 through npm, with the progress streamed to the browser
//! as server-sent events.

use vstd::prelude::*;

verus! {

/// The command that installs PM2: `npm install -g pm2`.
pub fn install_command() -> (r: (String, Vec<String>))
    ensures
        r.0@ == "npm"@,
        r.1@.len() == 3,
        r.1@[0]@ == "install"@,
        r.1@[1]@ == "-g"@,
        r.1@[2]@ == "pm2"@,
{
    (
        String::from_str("npm"),
        vec![String::from_str("install"), String::from_str("-g"), String::from_str("pm2")],
    )
}

/// One server-sent event carrying `line`: `data: <line>` and a blank
/// line.
pub open spec fn event_spec(line: Seq<char>) -> Seq<char> {
    "data: "@ + line + "\n\n"@
}

/// The event that carries one line of the installer's output.
pub fn output_event(line: &str) -> (r: String)
    ensures
        r@ == event_spec(line@),
{
    let mut r = String::from_str("data: ");
    r.append(line);
    r.append("\n\n");
    r
}

/// The line announcing how the installation ended.
pub open spec fn outcome_line_spec(success: bool) -> Seq<char> {
    if success {
        "PM2 installation completed successfully. Refreshing page..."@
    } else {
        "PM2 installation failed."@
    }
}

/// The event announcing how the installation ended.
pub fn outcome_event(success: bool) -> (r: String)
    ensures
        r@ == event_spec(outcome_line_spec(success)),
{
    if success {
        output_event("PM2 installation completed successfully. Refreshing page...")
    } else {
        output_event("PM2 installation failed.")
    }
}

/// The reply when the installer could not be started.
pub fn start_failure_message() -> (r: &'static str)
    ensures
        r@ == "Failed to start PM2 installation"@,
{
    "Failed to start PM2 installation"
}


/// An event is exactly `data: `, then the whole line however long, then a
/// blank line: it is eight characters longer than the line, and what
/// lies between its six-character prefix and two-character suffix is the
/// line itself.
pub proof fn lemma_event_carries_whole_line(line: Seq<char>)
    ensures
        event_spec(line).len() == line.len() + 8,
        event_spec(line).take(6) == "data: "@,
        event_spec(line).subrange(6, line.len() + 6int) == line,
        event_spec(line).skip(line.len() + 6int) == "\n\n"@,
{
    reveal_strlit("data: ");
    reveal_strlit("\n\n");
    let e = event_spec(line);
    assert(e.take(6) =~= "data: "@);
    assert(e.subrange(6, line.len() + 6int) =~= line);
    assert(e.skip(line.len() + 6int) =~= "\n\n"@);
}

} // verus!
