//! The process controller: recognising the target application's processes by
//! a data-driven pattern table, and terminating them best-effort.
//!
//! Enumerating and signalling host processes relies on `sysinfo` behind
//! trusted wrappers; which processes exist and whether a signal succeeds are
//! outside the model, so the controller's guarantees are stated over the
//! enumerated list it was handed.

use vstd::prelude::*;
use crate::errors::AgentError;
use crate::platform::HostOs;
use crate::text::{contains_seq, has_suffix, str_contains, str_eq, str_has_suffix};

verus! {

/// One rule for recognising a running instance of the target application.
#[derive(Clone, Debug, PartialEq, Eq)]
pub enum ProcessPattern {
    /// The process name matches exactly.
    ExactName(String),
    /// The process name or command line contains the text.
    Contains(String),
    /// The process name or command line ends with the text.
    EndsWith(String),
    /// The command line contains the text.
    CmdContains(String),
    /// The command line ends with the text.
    CmdEndsWith(String),
}

/// The mathematical shape of a process pattern.
pub enum ProcessPatternV {
    ExactName(Seq<char>),
    Contains(Seq<char>),
    EndsWith(Seq<char>),
    CmdContains(Seq<char>),
    CmdEndsWith(Seq<char>),
}

impl View for ProcessPattern {
    type V = ProcessPatternV;

    open spec fn view(&self) -> ProcessPatternV {
        match *self {
            ProcessPattern::ExactName(s) => ProcessPatternV::ExactName(s@),
            ProcessPattern::Contains(s) => ProcessPatternV::Contains(s@),
            ProcessPattern::EndsWith(s) => ProcessPatternV::EndsWith(s@),
            ProcessPattern::CmdContains(s) => ProcessPatternV::CmdContains(s@),
            ProcessPattern::CmdEndsWith(s) => ProcessPatternV::CmdEndsWith(s@),
        }
    }
}

impl DeepView for ProcessPattern {
    type V = ProcessPatternV;

    open spec fn deep_view(&self) -> ProcessPatternV {
        self.view()
    }
}

/// Does one pattern recognise a process with this name and command line?
pub open spec fn pattern_matches(name: Seq<char>, cmd: Seq<char>, p: ProcessPatternV) -> bool {
    match p {
        ProcessPatternV::ExactName(s) => name == s,
        ProcessPatternV::Contains(s) => contains_seq(name, s) || contains_seq(cmd, s),
        ProcessPatternV::EndsWith(s) => has_suffix(name, s) || has_suffix(cmd, s),
        ProcessPatternV::CmdContains(s) => contains_seq(cmd, s),
        ProcessPatternV::CmdEndsWith(s) => has_suffix(cmd, s),
    }
}

/// Does any pattern in the table recognise the process?
pub open spec fn any_pattern_matches(
    name: Seq<char>,
    cmd: Seq<char>,
    ps: Seq<ProcessPatternV>,
) -> bool {
    exists|i: int| 0 <= i < ps.len() && pattern_matches(name, cmd, #[trigger] ps[i])
}

/// Test one pattern against a process name and command line.
pub fn matches_antigravity_process_for_debug(
    process_name: &str,
    process_cmd: &str,
    pattern: &ProcessPattern,
) -> (r: bool)
    ensures
        r == pattern_matches(process_name@, process_cmd@, pattern@),
{
    match pattern {
        ProcessPattern::ExactName(s) => str_eq(process_name, s.as_str()),
        ProcessPattern::Contains(s) => str_contains(process_name, s.as_str()) || str_contains(
            process_cmd,
            s.as_str(),
        ),
        ProcessPattern::EndsWith(s) => str_has_suffix(process_name, s.as_str()) || str_has_suffix(
            process_cmd,
            s.as_str(),
        ),
        ProcessPattern::CmdContains(s) => str_contains(process_cmd, s.as_str()),
        ProcessPattern::CmdEndsWith(s) => str_has_suffix(process_cmd, s.as_str()),
    }
}

/// Test a process name and command line against the whole pattern table,
/// first match wins.
pub fn matches_antigravity_process(
    process_name: &str,
    process_cmd: &str,
    patterns: &Vec<ProcessPattern>,
) -> (r: bool)
    ensures
        r == any_pattern_matches(process_name@, process_cmd@, patterns.deep_view()),
{
    let n = patterns.len();
    let mut i: usize = 0;
    while i < n
        invariant
            n == patterns@.len(),
            0 <= i <= n,
            forall|j: int|
                0 <= j < i ==> !pattern_matches(
                    process_name@,
                    process_cmd@,
                    #[trigger] patterns.deep_view()[j],
                ),
        decreases n - i,
    {
        if matches_antigravity_process_for_debug(process_name, process_cmd, &patterns[i]) {
            proof {
                assert(patterns.deep_view()[i as int] == patterns@[i as int]@);
            }
            return true;
        }
        proof {
            assert(patterns.deep_view()[i as int] == patterns@[i as int]@);
        }
        i += 1;
    }
    false
}

/// The pattern table for recognising the target application on `os`.
pub open spec fn spec_process_patterns(os: HostOs) -> Seq<ProcessPatternV> {
    match os {
        HostOs::MacOs => seq![
            ProcessPatternV::ExactName("Antigravity"@),
            ProcessPatternV::ExactName("Antigravity.app"@),
            ProcessPatternV::ExactName("Electron"@),
            ProcessPatternV::Contains("Antigravity"@),
            ProcessPatternV::Contains("Antigravity Helper"@),
            ProcessPatternV::EndsWith("(Renderer)"@),
            ProcessPatternV::EndsWith("(GPU)"@),
            ProcessPatternV::CmdContains("Antigravity.app"@),
            ProcessPatternV::CmdContains("/Applications/Antigravity"@),
            ProcessPatternV::CmdContains("Applications/Antigravity"@),
            ProcessPatternV::CmdEndsWith(".app/Contents/MacOS/Electron"@),
            ProcessPatternV::CmdEndsWith(".app/Contents/MacOS/Antigravity"@),
        ],
        HostOs::Windows => seq![
            ProcessPatternV::ExactName("Antigravity.exe"@),
            ProcessPatternV::ExactName("Antigravity"@),
            ProcessPatternV::Contains("Antigravity"@),
            ProcessPatternV::CmdContains("Antigravity.exe"@),
        ],
        HostOs::Linux => seq![
            ProcessPatternV::ExactName("antigravity"@),
            ProcessPatternV::ExactName("Antigravity"@),
            ProcessPatternV::Contains("Antigravity"@),
            ProcessPatternV::CmdContains("antigravity"@),
            ProcessPatternV::CmdContains("Antigravity.AppImage"@),
        ],
        HostOs::Other => seq![
            ProcessPatternV::Contains("Antigravity"@),
            ProcessPatternV::Contains("antigravity"@),
        ],
    }
}

/// Build the pattern table for `os`.
pub fn get_antigravity_process_patterns(os: HostOs) -> (r: Vec<ProcessPattern>)
    ensures
        r.deep_view() == spec_process_patterns(os),
{
    let mut v: Vec<ProcessPattern> = Vec::new();
    match os {
        HostOs::MacOs => {
            v.push(ProcessPattern::ExactName(String::from_str("Antigravity")));
            v.push(ProcessPattern::ExactName(String::from_str("Antigravity.app")));
            v.push(ProcessPattern::ExactName(String::from_str("Electron")));
            v.push(ProcessPattern::Contains(String::from_str("Antigravity")));
            v.push(ProcessPattern::Contains(String::from_str("Antigravity Helper")));
            v.push(ProcessPattern::EndsWith(String::from_str("(Renderer)")));
            v.push(ProcessPattern::EndsWith(String::from_str("(GPU)")));
            v.push(ProcessPattern::CmdContains(String::from_str("Antigravity.app")));
            v.push(ProcessPattern::CmdContains(String::from_str("/Applications/Antigravity")));
            v.push(ProcessPattern::CmdContains(String::from_str("Applications/Antigravity")));
            v.push(ProcessPattern::CmdEndsWith(String::from_str(".app/Contents/MacOS/Electron")));
            v.push(
                ProcessPattern::CmdEndsWith(String::from_str(".app/Contents/MacOS/Antigravity")),
            );
        },
        HostOs::Windows => {
            v.push(ProcessPattern::ExactName(String::from_str("Antigravity.exe")));
            v.push(ProcessPattern::ExactName(String::from_str("Antigravity")));
            v.push(ProcessPattern::Contains(String::from_str("Antigravity")));
            v.push(ProcessPattern::CmdContains(String::from_str("Antigravity.exe")));
        },
        HostOs::Linux => {
            v.push(ProcessPattern::ExactName(String::from_str("antigravity")));
            v.push(ProcessPattern::ExactName(String::from_str("Antigravity")));
            v.push(ProcessPattern::Contains(String::from_str("Antigravity")));
            v.push(ProcessPattern::CmdContains(String::from_str("antigravity")));
            v.push(ProcessPattern::CmdContains(String::from_str("Antigravity.AppImage")));
        },
        HostOs::Other => {
            v.push(ProcessPattern::Contains(String::from_str("Antigravity")));
            v.push(ProcessPattern::Contains(String::from_str("antigravity")));
        },
    }
    proof {
        assert(v.deep_view() =~= spec_process_patterns(os));
    }
    v
}

/// The pattern table for `os`, for inspection.
pub fn get_antigravity_process_patterns_for_debug(os: HostOs) -> (r: Vec<ProcessPattern>)
    ensures
        r.deep_view() == spec_process_patterns(os),
{
    get_antigravity_process_patterns(os)
}

/// One enumerated host process, reduced to plain values.
#[derive(Clone, Debug, PartialEq, Eq)]
pub struct ProcInfo {
    pub pid: u32,
    pub name: String,
    pub cmd: String,
}

/// The mathematical shape of an enumerated process.
pub struct ProcInfoV {
    pub pid: u32,
    pub name: Seq<char>,
    pub cmd: Seq<char>,
}

impl View for ProcInfo {
    type V = ProcInfoV;

    open spec fn view(&self) -> ProcInfoV {
        ProcInfoV { pid: self.pid, name: self.name@, cmd: self.cmd@ }
    }
}

impl DeepView for ProcInfo {
    type V = ProcInfoV;

    open spec fn deep_view(&self) -> ProcInfoV {
        self.view()
    }
}

/// The pattern table recognises this process.
pub open spec fn proc_matches(p: ProcInfoV, ps: Seq<ProcessPatternV>) -> bool {
    any_pattern_matches(p.name, p.cmd, ps)
}

/// The matching processes, in enumeration order.
pub open spec fn spec_matched(
    procs: Seq<ProcInfoV>,
    ps: Seq<ProcessPatternV>,
) -> Seq<ProcInfoV> {
    procs.filter(|p: ProcInfoV| proc_matches(p, ps))
}

/// The match set is empty exactly when no enumerated process matches.
pub proof fn lemma_matched_empty_iff(procs: Seq<ProcInfoV>, ps: Seq<ProcessPatternV>)
    ensures
        spec_matched(procs, ps).len() == 0 <==> forall|i: int|
            0 <= i < procs.len() ==> !proc_matches(#[trigger] procs[i], ps),
{
    let pred = |p: ProcInfoV| proc_matches(p, ps);
    if spec_matched(procs, ps).len() == 0 {
        assert forall|i: int| 0 <= i < procs.len() implies !proc_matches(
            #[trigger] procs[i],
            ps,
        ) by {
            if proc_matches(procs[i], ps) {
                procs.lemma_filter_contains(pred, i);
            }
        }
    } else {
        procs.lemma_filter_pred(pred, 0);
        crate::doc::lemma_filter_subset(procs, pred);
        assert(procs.contains(spec_matched(procs, ps)[0]));
    }
}

#[verifier::external_type_specification]
#[verifier::external_body]
pub struct ExSystem(sysinfo::System);

/// Relies on `sysinfo::System::new_all` followed by `refresh_all`: a loaded
/// view of the host's process table.  What it holds depends on the host.
#[verifier::external_body]
pub fn fresh_system() -> (r: sysinfo::System) {
    let mut s = sysinfo::System::new_all();
    s.refresh_all();
    s
}

/// Relies on `sysinfo`'s process table iteration: each entry is reported by
/// pid, name, and space-joined command line.  Which processes exist and in
/// what order the table is walked depend on the host, so nothing is assumed
/// of the result.
#[verifier::external_body]
pub fn list_processes(sys: &sysinfo::System) -> (r: Vec<ProcInfo>) {
    let mut out: Vec<ProcInfo> = Vec::new();
    for (pid, p) in sys.processes() {
        let name = p.name().to_string_lossy().to_string();
        let args: Vec<String> = p.cmd().iter().map(|c| c.to_string_lossy().to_string()).collect();
        out.push(ProcInfo { pid: pid.as_u32(), name, cmd: args.join(" ") });
    }
    out
}

/// Relies on `sysinfo::Process::kill`: sends a termination signal and reports
/// whether sending succeeded; the outcome depends on the host.
#[verifier::external_body]
pub fn kill_process(sys: &sysinfo::System, pid: u32) -> (r: bool) {
    match sys.process(sysinfo::Pid::from_u32(pid)) {
        Some(p) => p.kill(),
        None => false,
    }
}

/// How terminating one matched process went.
#[derive(Clone, Debug, PartialEq, Eq)]
pub struct KillOutcome {
    pub pid: u32,
    pub name: String,
    /// The last termination signal was sent successfully.
    pub killed: bool,
    /// The first signal failed and one retry was made.
    pub retried: bool,
}

/// Terminate every enumerated process the pattern table recognises.  Each
/// match gets one signal, retried once on failure; a failure is recorded and
/// does not stop the rest.  The soft `NoProcessFound` outcome is returned
/// exactly when nothing matched.
pub fn terminate_matching(
    sys: &sysinfo::System,
    procs: &Vec<ProcInfo>,
    patterns: &Vec<ProcessPattern>,
) -> (r: Result<Vec<KillOutcome>, AgentError>)
    ensures
        r is Err <==> spec_matched(procs.deep_view(), patterns.deep_view()).len() == 0,
        r matches Err(e) ==> e == AgentError::NoProcessFound,
        r matches Ok(v) ==> {
            let matched = spec_matched(procs.deep_view(), patterns.deep_view());
            &&& v@.len() == matched.len()
            &&& forall|j: int|
                0 <= j < v@.len() ==> (#[trigger] v@[j]).pid == matched[j].pid && v@[j].name@
                    == matched[j].name
        },
{
    let ghost pv = procs.deep_view();
    let ghost psv = patterns.deep_view();
    let ghost pred = |p: ProcInfoV| proc_matches(p, psv);
    let mut out: Vec<KillOutcome> = Vec::new();
    let n = procs.len();
    let mut i: usize = 0;
    proof {
        reveal(Seq::filter);
        assert(pv.take(0) =~= Seq::<ProcInfoV>::empty());
    }
    while i < n
        invariant
            n == procs@.len(),
            pv == procs.deep_view(),
            psv == patterns.deep_view(),
            0 <= i <= n,
            out@.len() == spec_matched(pv.take(i as int), psv).len(),
            forall|j: int|
                0 <= j < out@.len() ==> (#[trigger] out@[j]).pid == spec_matched(
                    pv.take(i as int),
                    psv,
                )[j].pid && out@[j].name@ == spec_matched(pv.take(i as int), psv)[j].name,
        decreases n - i,
    {
        let ghost part = pv.take(i as int);
        let ghost part1 = pv.take(i + 1 as int);
        proof {
            reveal(Seq::filter);
            assert(part1 =~= part.push(pv[i as int]));
            assert(part1.drop_last() =~= part);
            assert(part1.last() == pv[i as int]);
        }
        let p = &procs[i];
        assert(p@ == pv[i as int]);
        if matches_antigravity_process(p.name.as_str(), p.cmd.as_str(), patterns) {
            let first = kill_process(sys, p.pid);
            let outcome = if first {
                KillOutcome { pid: p.pid, name: p.name.clone(), killed: true, retried: false }
            } else {
                let second = kill_process(sys, p.pid);
                KillOutcome { pid: p.pid, name: p.name.clone(), killed: second, retried: true }
            };
            out.push(outcome);
            proof {
                assert(spec_matched(part1, psv) == spec_matched(part, psv).push(pv[i as int]));
            }
        } else {
            proof {
                assert(spec_matched(part1, psv) == spec_matched(part, psv));
            }
        }
        i += 1;
    }
    proof {
        assert(pv.take(n as int) =~= pv);
    }
    if out.len() == 0 {
        proof {
            assert(spec_matched(pv, psv).len() == 0);
        }
        Err(AgentError::NoProcessFound)
    } else {
        Ok(out)
    }
}

/// Does any enumerated process match the table?
pub fn any_process_matches(procs: &Vec<ProcInfo>, patterns: &Vec<ProcessPattern>) -> (r: bool)
    ensures
        r == exists|i: int|
            0 <= i < procs.deep_view().len() && proc_matches(
                #[trigger] procs.deep_view()[i],
                patterns.deep_view(),
            ),
{
    let n = procs.len();
    let mut i: usize = 0;
    while i < n
        invariant
            n == procs@.len(),
            0 <= i <= n,
            forall|j: int|
                0 <= j < i ==> !proc_matches(#[trigger] procs.deep_view()[j], patterns.deep_view()),
        decreases n - i,
    {
        let p = &procs[i];
        proof {
            assert(procs.deep_view()[i as int] == p@);
        }
        if matches_antigravity_process(p.name.as_str(), p.cmd.as_str(), patterns) {
            return true;
        }
        i += 1;
    }
    false
}

/// Enumerate the host's processes and terminate every match; the soft
/// `NoProcessFound` error reports an empty match set among what the host
/// enumerated.
pub fn kill_antigravity_processes(patterns: &Vec<ProcessPattern>) -> (r: Result<
    Vec<KillOutcome>,
    AgentError,
>)
    ensures
        r matches Err(e) ==> e == AgentError::NoProcessFound,
{
    let sys = fresh_system();
    let procs = list_processes(&sys);
    terminate_matching(&sys, &procs, patterns)
}

/// Enumerate the host's processes and report whether any matches.
pub fn is_antigravity_running(patterns: &Vec<ProcessPattern>) -> bool {
    let sys = fresh_system();
    let procs = list_processes(&sys);
    any_process_matches(&procs, patterns)
}

} // verus!
