//! Launch planning: the ordered candidates for starting the target
//! application, and the report assembled when every candidate fails.
//!
//! The plan is pure and exact; actually probing the file system and spawning
//! processes is the runner's job, which reports each attempt back.

use vstd::prelude::*;
use vstd::string::StringExecFns;
use crate::platform::HostOs;

verus! {

/// One way to try to start the target application.
#[derive(Clone, Debug, PartialEq, Eq)]
pub enum LaunchCandidate {
    /// An executable path, to be used only if the file exists.
    FilePath(String),
    /// A bare command name, resolved through the host's search path.
    CommandName(String),
}

/// The mathematical shape of a launch candidate.
pub enum LaunchCandidateV {
    FilePath(Seq<char>),
    CommandName(Seq<char>),
}

impl View for LaunchCandidate {
    type V = LaunchCandidateV;

    open spec fn view(&self) -> LaunchCandidateV {
        match *self {
            LaunchCandidate::FilePath(s) => LaunchCandidateV::FilePath(s@),
            LaunchCandidate::CommandName(s) => LaunchCandidateV::CommandName(s@),
        }
    }
}

impl DeepView for LaunchCandidate {
    type V = LaunchCandidateV;

    open spec fn deep_view(&self) -> LaunchCandidateV {
        self.view()
    }
}

/// The conventional install paths probed on Windows, in order.
pub open spec fn spec_windows_launch_paths(
    home: Option<Seq<char>>,
    local_data: Option<Seq<char>>,
) -> Seq<Seq<char>> {
    (match home {
        Some(h) => seq![
            h + "\\AppData\\Local\\Programs\\Antigravity\\Antigravity.exe"@,
            h + "\\AppData\\Roaming\\Local\\Programs\\Antigravity\\Antigravity.exe"@,
        ],
        None => Seq::<Seq<char>>::empty(),
    }) + (match local_data {
        Some(l) => seq![l + "\\Programs\\Antigravity\\Antigravity.exe"@],
        None => Seq::<Seq<char>>::empty(),
    }) + seq![
        "C:\\Program Files\\Antigravity\\Antigravity.exe"@,
        "C:\\Program Files (x86)\\Antigravity\\Antigravity.exe"@,
    ]
}

/// Build the Windows candidate path list.
pub fn get_antigravity_windows_paths(
    home: &Option<String>,
    local_data: &Option<String>,
) -> (r: Vec<String>)
    ensures
        r.deep_view() == spec_windows_launch_paths(home.deep_view(), local_data.deep_view()),
{
    let mut v: Vec<String> = Vec::new();
    match home {
        Some(h) => {
            v.push(
                String::from_str(h.as_str()).concat(
                    "\\AppData\\Local\\Programs\\Antigravity\\Antigravity.exe",
                ),
            );
            v.push(
                String::from_str(h.as_str()).concat(
                    "\\AppData\\Roaming\\Local\\Programs\\Antigravity\\Antigravity.exe",
                ),
            );
        },
        None => {},
    }
    match local_data {
        Some(l) => {
            v.push(
                String::from_str(l.as_str()).concat("\\Programs\\Antigravity\\Antigravity.exe"),
            );
        },
        None => {},
    }
    v.push(String::from_str("C:\\Program Files\\Antigravity\\Antigravity.exe"));
    v.push(String::from_str("C:\\Program Files (x86)\\Antigravity\\Antigravity.exe"));
    proof {
        assert(v.deep_view() =~= spec_windows_launch_paths(
            home.deep_view(),
            local_data.deep_view(),
        ));
    }
    v
}

/// The conventional install paths probed on macOS, in order.
pub open spec fn spec_macos_launch_paths(home: Option<Seq<char>>) -> Seq<Seq<char>> {
    seq!["/Applications/Antigravity.app/Contents/MacOS/Antigravity"@] + (match home {
        Some(h) => seq![h + "/Applications/Antigravity.app/Contents/MacOS/Antigravity"@],
        None => Seq::<Seq<char>>::empty(),
    })
}

/// Build the macOS candidate path list.
pub fn get_antigravity_macos_paths(home: &Option<String>) -> (r: Vec<String>)
    ensures
        r.deep_view() == spec_macos_launch_paths(home.deep_view()),
{
    let mut v: Vec<String> = Vec::new();
    v.push(String::from_str("/Applications/Antigravity.app/Contents/MacOS/Antigravity"));
    match home {
        Some(h) => {
            v.push(
                String::from_str(h.as_str()).concat(
                    "/Applications/Antigravity.app/Contents/MacOS/Antigravity",
                ),
            );
        },
        None => {},
    }
    proof {
        assert(v.deep_view() =~= spec_macos_launch_paths(home.deep_view()));
    }
    v
}

/// The conventional install path probed on Linux.
pub open spec fn spec_linux_launch_paths() -> Seq<Seq<char>> {
    seq!["/usr/share/antigravity/antigravity"@]
}

/// Build the Linux candidate path list.
pub fn get_antigravity_linux_paths() -> (r: Vec<String>)
    ensures
        r.deep_view() == spec_linux_launch_paths(),
{
    let mut v: Vec<String> = Vec::new();
    v.push(String::from_str("/usr/share/antigravity/antigravity"));
    proof {
        assert(v.deep_view() =~= spec_linux_launch_paths());
    }
    v
}

/// The conventional install paths for `os`.
pub open spec fn spec_launch_paths(
    os: HostOs,
    home: Option<Seq<char>>,
    local_data: Option<Seq<char>>,
) -> Seq<Seq<char>> {
    match os {
        HostOs::Windows => spec_windows_launch_paths(home, local_data),
        HostOs::MacOs => spec_macos_launch_paths(home),
        HostOs::Linux => spec_linux_launch_paths(),
        HostOs::Other => Seq::<Seq<char>>::empty(),
    }
}

/// The conventional install paths for `os`, from the host's base
/// directories.
pub fn antigravity_executable_paths(
    os: HostOs,
    home: &Option<String>,
    local_data: &Option<String>,
) -> (r: Vec<String>)
    ensures
        r.deep_view() == spec_launch_paths(os, home.deep_view(), local_data.deep_view()),
{
    match os {
        HostOs::Windows => get_antigravity_windows_paths(home, local_data),
        HostOs::MacOs => get_antigravity_macos_paths(home),
        HostOs::Linux => get_antigravity_linux_paths(),
        HostOs::Other => {
            let v: Vec<String> = Vec::new();
            proof {
                assert(v.deep_view() =~= Seq::<Seq<char>>::empty());
            }
            v
        },
    }
}

/// The command names tried after every path failed, in order: the capitalised
/// name first except on Linux.
pub open spec fn spec_launch_commands(os: HostOs) -> Seq<Seq<char>> {
    match os {
        HostOs::Linux => seq!["antigravity"@, "Antigravity"@],
        _ => seq!["Antigravity"@, "antigravity"@],
    }
}

/// The full launch plan: a validated user-configured executable alone when
/// present; otherwise the conventional paths for the host, then the bare
/// command names.
pub open spec fn spec_launch_plan(
    os: HostOs,
    custom: Option<Seq<char>>,
    custom_valid: bool,
    home: Option<Seq<char>>,
    local_data: Option<Seq<char>>,
) -> Seq<LaunchCandidateV> {
    match custom {
        Some(c) if custom_valid => seq![LaunchCandidateV::FilePath(c)],
        _ => spec_launch_paths(os, home, local_data).map_values(
            |p: Seq<char>| LaunchCandidateV::FilePath(p),
        ) + spec_launch_commands(os).map_values(
            |c: Seq<char>| LaunchCandidateV::CommandName(c),
        ),
    }
}

/// Build the ordered launch plan.  `custom_valid` states that the
/// user-configured path exists and is a regular file; the runner checked it.
pub fn launch_plan(
    os: HostOs,
    custom: &Option<String>,
    custom_valid: bool,
    home: &Option<String>,
    local_data: &Option<String>,
) -> (r: Vec<LaunchCandidate>)
    ensures
        r.deep_view() == spec_launch_plan(
            os,
            custom.deep_view(),
            custom_valid,
            home.deep_view(),
            local_data.deep_view(),
        ),
{
    match custom {
        Some(c) if custom_valid => {
            let mut v: Vec<LaunchCandidate> = Vec::new();
            v.push(LaunchCandidate::FilePath(c.clone()));
            proof {
                assert(v.deep_view() =~= seq![LaunchCandidateV::FilePath(c@)]);
            }
            v
        },
        _ => {
            let paths = antigravity_executable_paths(os, home, local_data);
            let mut v: Vec<LaunchCandidate> = Vec::new();
            let n = paths.len();
            let mut i: usize = 0;
            while i < n
                invariant
                    n == paths@.len(),
                    0 <= i <= n,
                    v.deep_view() =~= paths.deep_view().take(i as int).map_values(
                        |p: Seq<char>| LaunchCandidateV::FilePath(p),
                    ),
                decreases n - i,
            {
                let ghost pre = v.deep_view();
                v.push(LaunchCandidate::FilePath(paths[i].clone()));
                proof {
                    assert(paths.deep_view().take(i + 1 as int) =~= paths.deep_view().take(
                        i as int,
                    ).push(paths.deep_view()[i as int]));
                    assert(v.deep_view() =~= pre.push(LaunchCandidateV::FilePath(paths@[
                        i as int]@)));
                    assert(v.deep_view() =~= paths.deep_view().take(i + 1 as int).map_values(
                        |p: Seq<char>| LaunchCandidateV::FilePath(p),
                    ));
                }
                i += 1;
            }
            proof {
                assert(paths.deep_view().take(n as int) =~= paths.deep_view());
            }
            match os {
                HostOs::Linux => {
                    v.push(LaunchCandidate::CommandName(String::from_str("antigravity")));
                    v.push(LaunchCandidate::CommandName(String::from_str("Antigravity")));
                },
                _ => {
                    v.push(LaunchCandidate::CommandName(String::from_str("Antigravity")));
                    v.push(LaunchCandidate::CommandName(String::from_str("antigravity")));
                },
            }
            proof {
                assert(v.deep_view() =~= spec_launch_plan(
                    os,
                    custom.deep_view(),
                    custom_valid,
                    home.deep_view(),
                    local_data.deep_view(),
                ));
            }
            v
        },
    }
}

/// The first candidate path that exists on the host, given one existence flag
/// per path.
pub fn first_existing_path(paths: &Vec<String>, exists: &Vec<bool>) -> (r: Option<usize>)
    requires
        paths@.len() == exists@.len(),
    ensures
        match r {
            Some(i) => 0 <= i < paths@.len() && exists@[i as int] && forall|j: int|
                0 <= j < i ==> !exists@[j],
            None => forall|j: int| 0 <= j < exists@.len() ==> !exists@[j],
        },
{
    let n = paths.len();
    let mut i: usize = 0;
    while i < n
        invariant
            n == paths@.len(),
            n == exists@.len(),
            0 <= i <= n,
            forall|j: int| 0 <= j < i ==> !exists@[j],
        decreases n - i,
    {
        if exists[i] {
            return Some(i);
        }
        i += 1;
    }
    None
}

/// One failure line of a launch report: what was tried and what it said.
pub open spec fn spec_attempt_line(a: (Seq<char>, Seq<char>)) -> Seq<char> {
    a.0 + ": "@ + a.1
}

/// The accumulated launch-failure report, one attempt per line.
pub open spec fn spec_attempts_text(a: Seq<(Seq<char>, Seq<char>)>) -> Seq<char>
    decreases a.len(),
{
    if a.len() == 0 {
        Seq::<char>::empty()
    } else if a.len() == 1 {
        spec_attempt_line(a[0])
    } else {
        spec_attempt_line(a[0]) + "\n"@ + spec_attempts_text(a.skip(1))
    }
}

/// The view of an attempt list.
pub open spec fn attempts_view(v: Seq<(String, String)>) -> Seq<(Seq<char>, Seq<char>)> {
    Seq::new(v.len(), |i: int| (v[i].0@, v[i].1@))
}

fn attempts_message_from(attempts: &Vec<(String, String)>, i: usize) -> (r: String)
    requires
        i <= attempts@.len(),
    ensures
        r@ == spec_attempts_text(attempts_view(attempts@).skip(i as int)),
    decreases attempts@.len() - i,
{
    let ghost av = attempts_view(attempts@);
    if i == attempts.len() {
        proof {
            assert(av.skip(i as int).len() == 0);
        }
        String::new()
    } else {
        let a = &attempts[i];
        let line = String::from_str(a.0.as_str()).concat(": ").concat(a.1.as_str());
        proof {
            assert(av.skip(i as int)[0] == (a.0@, a.1@));
            assert(line@ == spec_attempt_line(av.skip(i as int)[0]));
        }
        if i + 1 == attempts.len() {
            proof {
                assert(av.skip(i as int).len() == 1);
            }
            line
        } else {
            let rest = attempts_message_from(attempts, i + 1);
            proof {
                assert(av.skip(i as int).skip(1) =~= av.skip(i + 1 as int));
            }
            line.concat("\n").concat(rest.as_str())
        }
    }
}

/// Assemble the launch-failure report from the attempts, in order.
pub fn launch_failure_message(attempts: &Vec<(String, String)>) -> (r: String)
    ensures
        r@ == spec_attempts_text(attempts_view(attempts@)),
{
    let r = attempts_message_from(attempts, 0);
    proof {
        assert(attempts_view(attempts@).skip(0) =~= attempts_view(attempts@));
    }
    r
}

} // verus!
