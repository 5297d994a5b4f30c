//! The diagnostics view: what the engine's own host check printed, turned into
//! rows.
use crate::backend::Backend;
use crate::text;
use vstd::prelude::*;

verus! {

/// How a single line of the check should read on screen.
#[derive(Debug, Clone, Copy, PartialEq, Eq, Structural)]
pub enum Level {
    /// Ordinary reporting.
    Info,
    /// An artifact this host does not have; the next line is usually the fix.
    Missing,
    /// The command itself failed.
    Failure,
}

#[derive(Debug, PartialEq, Eq)]
pub struct Line {
    pub text: String,
    pub level: Level,
}

impl Clone for Line {
    fn clone(&self) -> (r: Line)
        ensures
            r == *self,
    {
        Line { text: self.text.clone(), level: self.level }
    }
}

/// One completed run.
#[derive(Debug, PartialEq, Eq)]
pub struct Report {
    /// The exact command line, so a user can repeat it in a terminal.
    pub command: String,
    pub backend: Backend,
    /// The check exited without an error.
    pub healthy: bool,
    pub lines: Vec<Line>,
}

/// The rows as text and level.
pub open spec fn line_views(lines: Seq<Line>) -> Seq<(Seq<char>, Level)> {
    lines.map_values(|l: Line| (l.text@, l.level))
}

/// How many rows report something missing.
pub open spec fn missing_count(lines: Seq<Line>) -> nat
    decreases lines.len(),
{
    if lines.len() == 0 {
        0
    } else {
        missing_count(lines.drop_last()) + (if lines.last().level == Level::Missing {
            1nat
        } else {
            0nat
        })
    }
}

impl Report {
    /// The one-line verdict for the heading.
    pub fn headline(&self) -> (r: String)
        ensures
            r@ == (if !self.healthy {
                "This host cannot run machines yet"@
            } else if missing_count(self.lines@) == 0 {
                "Everything this host needs is in place"@
            } else if missing_count(self.lines@) == 1 {
                "Machines can run; one thing is missing"@
            } else {
                "Machines can run; "@ + text::decimal_of(missing_count(self.lines@))
                    + " things are missing"@
            }),
    {
        if !self.healthy {
            return "This host cannot run machines yet".to_owned();
        }
        let mut missing: u64 = 0;
        let mut i: usize = 0;
        while i < self.lines.len()
            invariant
                i <= self.lines.len(),
                missing == missing_count(self.lines@.take(i as int)),
                missing <= i,
            decreases self.lines@.len() - i,
        {
            proof {
                assert(self.lines@.take(i + 1).drop_last() =~= self.lines@.take(i as int));
            }
            if self.lines[i].level == Level::Missing {
                missing = missing + 1;
            }
            i = i + 1;
        }
        assert(self.lines@.take(i as int) =~= self.lines@);
        if missing == 0 {
            "Everything this host needs is in place".to_owned()
        } else if missing == 1 {
            "Machines can run; one thing is missing".to_owned()
        } else {
            text::cat3("Machines can run; ", &text::decimal(missing), " things are missing")
        }
    }
}

/// How one line reads: the check marks what is missing, and a failed check
/// starts its last words with "error:".
pub open spec fn level_of(line: Seq<char>, healthy: bool) -> Level {
    if text::holds(line, "MISSING"@) {
        Level::Missing
    } else if !healthy && text::begins_with(line, "error:"@) {
        Level::Failure
    } else {
        Level::Info
    }
}

/// The rows that lines of output come to: blank lines become none.
pub open spec fn rows_of(lines: Seq<Seq<char>>, healthy: bool) -> Seq<(Seq<char>, Level)>
    decreases lines.len(),
{
    if lines.len() == 0 {
        Seq::empty()
    } else {
        let init = rows_of(lines.drop_last(), healthy);
        let line = text::trim_end_of(lines.last());
        if line.len() == 0 {
            init
        } else {
            init.push((line, level_of(line, healthy)))
        }
    }
}

/// Splits captured output into rows. The line after a missing artifact is the
/// instruction, which does not read like a second problem.
pub fn parse(output: &str, healthy: bool) -> (r: Vec<Line>)
    ensures
        line_views(r@) == rows_of(text::lines_of(output@), healthy),
{
    let lines = text::lines(output);
    let ghost all = text::texts(lines@);
    let mut rows: Vec<Line> = Vec::new();
    let mut i: usize = 0;
    proof {
        assert(line_views(rows@) =~= rows_of(all.take(0), healthy));
    }
    while i < lines.len()
        invariant
            all == text::texts(lines@),
            i <= lines@.len(),
            line_views(rows@) == rows_of(all.take(i as int), healthy),
        decreases lines@.len() - i,
    {
        proof {
            assert(all.take(i + 1).drop_last() =~= all.take(i as int));
            assert(all.take(i + 1).last() == lines@[i as int]@);
        }
        let line = text::trim_end(&lines[i]);
        if !line.as_str().is_empty() {
            let level = if text::has(&line, "MISSING") {
                Level::Missing
            } else if !healthy && text::begins(&line, "error:") {
                Level::Failure
            } else {
                Level::Info
            };
            let ghost before = line_views(rows@);
            let ghost shown = line@;
            rows.push(Line { text: line, level });
            assert(line_views(rows@) =~= before.push((shown, level)));
        }
        i = i + 1;
    }
    assert(all.take(i as int) =~= all);
    rows
}

/// What running the check gave.
#[derive(Debug, PartialEq, Eq)]
pub enum Ran {
    /// It could not even be put together.
    Refused(String),
    /// It could not be started.
    NotStarted(String),
    /// It ran: whether it succeeded, and what it printed.
    Finished { healthy: bool, stdout: String, stderr: String },
}

/// Everything the check printed: its errors follow its report, on lines of
/// their own, unless they are blank.
pub open spec fn printed(stdout: Seq<char>, stderr: Seq<char>) -> Seq<char> {
    if text::trim_of(stderr).len() > 0 {
        stdout + "\n"@ + stderr
    } else {
        stdout
    }
}

pub const NEEDS_WSL: &'static str =
    ". Windows needs the Windows Subsystem for Linux installed for this backend.";

/// The report of a run. A check that could not run produces a readable report
/// too.
pub fn report(backend: Backend, command: String, ran: Ran) -> (r: Report)
    ensures
        r.backend == backend,
        match ran {
            Ran::Refused(message) => {
                &&& r.command@ == Seq::<char>::empty()
                &&& !r.healthy
                &&& line_views(r.lines@) == seq![(message@, Level::Failure)]
            },
            Ran::NotStarted(e) => {
                &&& r.command == command
                &&& !r.healthy
                &&& line_views(r.lines@) == seq![
                    (
                        match backend {
                            Backend::Wsl => "cannot start wsl.exe: "@ + e@ + NEEDS_WSL@,
                            Backend::Native => "cannot start the Entangled engine: "@ + e@,
                        },
                        Level::Failure,
                    ),
                ]
            },
            Ran::Finished { healthy, stdout, stderr } => {
                &&& r.command == command
                &&& r.healthy == healthy
                &&& line_views(r.lines@) == rows_of(
                    text::lines_of(printed(stdout@, stderr@)),
                    healthy,
                )
            },
        },
{
    match ran {
        Ran::Refused(message) => {
            let ghost m = message@;
            let lines = vec![Line { text: message, level: Level::Failure }];
            assert(line_views(lines@) =~= seq![(m, Level::Failure)]);
            Report { command: String::new(), backend, healthy: false, lines }
        },
        Ran::NotStarted(e) => {
            let message = match backend {
                Backend::Wsl => text::cat3("cannot start wsl.exe: ", &e, NEEDS_WSL),
                Backend::Native => text::cat("cannot start the Entangled engine: ", &e),
            };
            let ghost m = message@;
            let lines = vec![Line { text: message, level: Level::Failure }];
            assert(line_views(lines@) =~= seq![(m, Level::Failure)]);
            Report { command, backend, healthy: false, lines }
        },
        Ran::Finished { healthy, stdout, stderr } => {
            let output = if text::trim(&stderr).as_str().is_empty() {
                stdout
            } else {
                text::cat3(&stdout, "\n", &stderr)
            };
            Report { command, backend, healthy, lines: parse(&output, healthy) }
        },
    }
}

/// What the check printed in the sample report: a healthy hypervisor with one
/// missing artifact.
pub const SAMPLE_OUTPUT: &'static str = "entangled doctor\n\
    \x20 hypervisor      : Windows Hypervisor Platform present\n\
    \x20 processor vendor: GenuineIntel\n\
    \x20 interrupt chips : 8259/8254/IOAPIC emulated in this process\n\
    \x20 uefi            : yes — CloudHv firmware via the PVH entry\n\
    \x20 networking      : backend = \"usernet\" — user-mode NAT in this process\n\
    \x20 VMs per process : 1\n\
    \x20 install         : ubuntu — UEFI + verified ISO, offline (no mirror needed)\n\
    \x20                   debian — d-i on the bootstrap kernel, needs the network\n\
    \x20   firmware         artifacts/firmware/CLOUDHV.fd (4.0 MiB, from this installation)\n\
    \x20   bootstrap kernel MISSING — needed by `install debian` only\n\
    \x20                   run `entangled fetch bootstrap-kernel` (~13 MiB, SHA-256 pinned)\n\
    \x20   ubuntu ISO       mock-cache/ubuntu-24.04.1-live-server-amd64.iso (2.9 GiB)\n\
    \x20   VM directory     mock-vms (412.0 GiB free of 953.0 GiB)\n\
    host looks ready to run VMs";

/// The sample report.
pub open spec fn is_mock_report(r: Report) -> bool {
    &&& r.command@ == "entangled doctor"@
    &&& r.backend == Backend::Native
    &&& r.healthy
    &&& line_views(r.lines@) == rows_of(text::lines_of(SAMPLE_OUTPUT@), true)
}

/// What a session without a host shows instead of probing one.
pub fn mock_report() -> (r: Report)
    ensures
        is_mock_report(r),
{
    Report {
        command: "entangled doctor".to_owned(),
        backend: Backend::Native,
        healthy: true,
        lines: parse(SAMPLE_OUTPUT, true),
    }
}

} // verus!
