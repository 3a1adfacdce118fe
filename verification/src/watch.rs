//! Watch-session configuration and the composed run command.
//!
//! The command handed to the shell is the configured command lines
//! joined with `" && "`, followed by a platform-specific echo of the
//! exit status, so the operator always sees whether the run succeeded
//! even when the command's own output does not show it.

use vstd::prelude::*;
use crate::controller::BusyPolicy;

verus! {

/// The host platform, as far as the exit-status echo syntax goes.
#[derive(Clone, Copy, Debug, PartialEq, Eq, Structural)]
pub enum Platform {
    Unix,
    Windows,
    OtherOs,
}

/// Immutable configuration of one watch session.
#[derive(Debug)]
pub struct WatchConfig {
    /// The paths whose subtrees are monitored.
    pub roots: Vec<String>,
    /// User ignore patterns, appended to the built-in default set.
    pub user_ignores: Vec<String>,
    /// The debounce window in milliseconds.
    pub debounce_ms: u64,
    /// The poll interval of the fallback scanning watcher, in
    /// milliseconds.
    pub poll_ms: u64,
    /// Whether one run starts immediately, before any change.
    pub run_initially: bool,
    /// What happens when changes flush while a run is active.
    pub policy: BusyPolicy,
    /// The command lines to execute, joined with `" && "`.
    pub cmd: Vec<String>,
    /// Whether the child runs with a stripped environment instead of
    /// inheriting the launcher's.
    pub strip_env: bool,
    /// The grace period before a stop request escalates to a forced
    /// kill, in milliseconds.
    pub grace_ms: u64,
}

impl WatchConfig {
    /// The standard playground configuration: watch the current
    /// directory, no extra ignores, half-second debounce and poll,
    /// an immediate first run, restart on busy updates, run
    /// `cargo run -q` in a stripped environment, and a two-second
    /// grace period.
    pub fn standard() -> (c: WatchConfig)
        ensures
            c.roots@.len() == 1 && c.roots@[0]@ == "."@,
            c.user_ignores@.len() == 0,
            c.debounce_ms == 500,
            c.poll_ms == 500,
            c.run_initially,
            c.policy == BusyPolicy::Restart,
            c.cmd@.len() == 1 && c.cmd@[0]@ == "cargo run -q"@,
            c.strip_env,
            c.grace_ms == 2000,
    {
        let mut roots: Vec<String> = Vec::new();
        roots.push(String::from_str("."));
        let mut cmd: Vec<String> = Vec::new();
        cmd.push(String::from_str("cargo run -q"));
        WatchConfig {
            roots,
            user_ignores: Vec::new(),
            debounce_ms: 500,
            poll_ms: 500,
            run_initially: true,
            policy: BusyPolicy::Restart,
            cmd,
            strip_env: true,
            grace_ms: 2000,
        }
    }
}

/// The parts joined with the separator between consecutive parts.
pub open spec fn join_with(parts: Seq<Seq<char>>, sep: Seq<char>) -> Seq<char>
    decreases parts.len(),
{
    if parts.len() == 0 {
        Seq::<char>::empty()
    } else if parts.len() == 1 {
        parts[0]
    } else {
        parts[0] + sep + join_with(parts.skip(1), sep)
    }
}

/// The platform's way of echoing the exit status of the command that
/// just ran.
pub open spec fn exit_echo_suffix(platform: Platform) -> Seq<char> {
    match platform {
        Platform::Unix => "; echo [Finished running. Exit status: $?]"@,
        Platform::Windows => " & echo [Finished running. Exit status: %ERRORLEVEL%]"@,
        Platform::OtherOs => " ; echo [Finished running]"@,
    }
}

/// The full shell command of one run: the command lines joined with
/// `" && "`, then the exit-status echo.
pub open spec fn composed_command(cmds: Seq<Seq<char>>, platform: Platform) -> Seq<char> {
    join_with(cmds, " && "@) + exit_echo_suffix(platform)
}

/// Joins `cmds[i..]` with `" && "`.
fn join_tail(cmds: &Vec<String>, i: usize) -> (r: String)
    requires
        i <= cmds.len(),
    ensures
        r@ == join_with(cmds@.map_values(|s: String| s@).skip(i as int), " && "@),
    decreases cmds.len() - i,
{
    let ghost parts = cmds@.map_values(|s: String| s@);
    if i == cmds.len() {
        proof {
            assert(parts.skip(i as int) =~= Seq::<Seq<char>>::empty());
        }
        String::new()
    } else if i + 1 == cmds.len() {
        proof {
            assert(parts.skip(i as int).len() == 1);
            assert(parts.skip(i as int)[0] == parts[i as int]);
        }
        cmds[i].clone()
    } else {
        let mut r = cmds[i].clone();
        r.append(" && ");
        let rest = join_tail(cmds, i + 1);
        r.append(rest.as_str());
        proof {
            assert(parts.skip(i as int)[0] == parts[i as int]);
            assert(parts.skip(i as int).skip(1) =~= parts.skip(i + 1 as int));
            assert(parts.skip(i as int).len() > 1);
        }
        r
    }
}

/// Builds the shell command of a run: the configured command lines
/// joined with `" && "` and the platform's exit-status echo appended,
/// so a completed run always prints its exit status.
pub fn compose_command(cmds: &Vec<String>, platform: Platform) -> (r: String)
    ensures
        r@ == composed_command(cmds@.map_values(|s: String| s@), platform),
{
    let mut r = join_tail(cmds, 0);
    proof {
        assert(cmds@.map_values(|s: String| s@).skip(0) =~= cmds@.map_values(|s: String| s@));
    }
    match platform {
        Platform::Unix => r.append("; echo [Finished running. Exit status: $?]"),
        Platform::Windows => r.append(" & echo [Finished running. Exit status: %ERRORLEVEL%]"),
        Platform::OtherOs => r.append(" ; echo [Finished running]"),
    }
    r
}

/// The banner printed at every run start, naming the watched project.
pub fn project_banner(project_id: &str) -> (r: String)
    ensures
        r@ == "project: "@ + project_id@,
{
    let mut r = String::from_str("project: ");
    r.append(project_id);
    r
}

} // verus!
