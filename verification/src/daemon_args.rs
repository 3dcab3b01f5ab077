//! How the daemon is started.

use crate::text::{number, parse_number, position, same, views};
use vstd::prelude::*;

verus! {

/// The arguments of the daemon.
#[derive(Debug)]
pub struct DaemonArgs {
    pub help: bool,
    pub launch_gui: bool,
    pub launch_tray: bool,
    pub debug: bool,
    /// What is handed on to the frontend.
    pub gui_args: Vec<String>,
}

/// The texts of a list that differ from one text.
pub open spec fn without(list: Seq<Seq<char>>, x: Seq<char>) -> Seq<Seq<char>>
    decreases list.len(),
{
    if list.len() == 0 {
        Seq::empty()
    } else if list.last() == x {
        without(list.drop_last(), x)
    } else {
        without(list.drop_last(), x).push(list.last())
    }
}

/// The arguments after the name of the program.
pub open spec fn after_name(args: Seq<Seq<char>>) -> Seq<Seq<char>> {
    if args.len() == 0 {
        args
    } else {
        args.skip(1)
    }
}

/// Reads the arguments of the daemon, the first of which is the name of the
/// program.
pub fn read_args(args: &Vec<String>) -> (r: DaemonArgs)
    ensures
        r.help == (views(args@).contains("--help"@) || views(args@).contains("-h"@)),
        r.launch_gui == views(args@).contains("--gui"@),
        r.launch_tray == views(args@).contains("--tray"@),
        r.debug == views(args@).contains("--debug"@),
        views(r.gui_args@) == without(after_name(views(args@)), "--gui"@),
{
    let mut gui_args: Vec<String> = Vec::new();
    let ghost all = views(args@);
    let ghost tail = after_name(all);
    let mut i: usize = 1;
    assert(views(gui_args@) =~= without(tail.take(0), "--gui"@));
    while i < args.len()
        invariant
            1 <= i,
            i <= args@.len() || args@.len() == 0,
            all == views(args@),
            tail == after_name(all),
            views(gui_args@) == without(
                tail.take(
                    if args@.len() == 0 {
                        0
                    } else {
                        i - 1
                    },
                ),
                "--gui"@,
            ),
        decreases args@.len() - i,
    {
        let ghost before = gui_args@;
        assert(tail.take(i as int).drop_last() =~= tail.take(i - 1));
        assert(tail.take(i as int).last() == args@[i as int]@);
        if !same(args[i].as_str(), "--gui") {
            gui_args.push(args[i].clone());
            assert(views(gui_args@) =~= views(before).push(gui_args@.last()@));
        }
        i = i + 1;
    }
    assert(tail.take(tail.len() as int) =~= tail);
    DaemonArgs {
        help: position(args, "--help").is_some() || position(args, "-h").is_some(),
        launch_gui: position(args, "--gui").is_some(),
        launch_tray: position(args, "--tray").is_some(),
        debug: position(args, "--debug").is_some(),
        gui_args,
    }
}

/// How much of the log goes to the console.
#[derive(Clone, Copy, PartialEq, Eq, Structural, Debug)]
pub enum ConsoleLog {
    /// All but the traces.
    Debug,
    /// What the environment asks for.
    Configured,
    /// Warnings and errors.
    Warnings,
}

/// Decides how much of the log goes to the console, given whether the environment
/// says anything of it.
pub fn console_log(args: &DaemonArgs, configured: bool) -> (r: ConsoleLog)
    ensures
        r == (if args.debug {
            ConsoleLog::Debug
        } else if configured {
            ConsoleLog::Configured
        } else {
            ConsoleLog::Warnings
        }),
{
    if args.debug {
        ConsoleLog::Debug
    } else if configured {
        ConsoleLog::Configured
    } else {
        ConsoleLog::Warnings
    }
}

/// What the daemon does when it is started.
#[derive(Clone, Copy, PartialEq, Eq, Structural, Debug)]
pub enum Startup {
    /// Show the help and end.
    ShowHelp,
    /// Show what can be read without rights, and end with an error.
    ShowLimited,
    /// End with an error.
    Refuse,
    /// Show the statistics and run.
    ShowAndRun,
    /// Run.
    Run,
}

/// Decides what the daemon does when it is started by root or by another user.
pub fn startup(args: &DaemonArgs, root: bool) -> (r: Startup)
    ensures
        r == (if args.help {
            Startup::ShowHelp
        } else if args.launch_gui || args.launch_tray {
            if root {
                Startup::Run
            } else {
                Startup::Refuse
            }
        } else if root {
            Startup::ShowAndRun
        } else {
            Startup::ShowLimited
        }),
{
    if args.help {
        Startup::ShowHelp
    } else if args.launch_gui || args.launch_tray {
        if root {
            Startup::Run
        } else {
            Startup::Refuse
        }
    } else if root {
        Startup::ShowAndRun
    } else {
        Startup::ShowLimited
    }
}

/// The user id in a variable, if it holds one.
pub open spec fn uid_in(variable: Option<&str>) -> Option<u32> {
    match variable {
        Some(text) => match number(text@, u32::MAX as nat) {
            Ok(n) => Some(n as u32),
            Err(_) => None,
        },
        None => None,
    }
}

fn read_uid(variable: Option<&str>) -> (r: Option<u32>)
    ensures
        r == uid_in(variable),
{
    match variable {
        Some(text) => match parse_number(text, u32::MAX as u64) {
            Ok(n) => Some(n as u32),
            Err(_) => None,
        },
        None => None,
    }
}

/// The user that the frontend is started as: whoever called `sudo`, or else
/// `pkexec`.
pub fn target_uid(sudo_uid: Option<&str>, pkexec_uid: Option<&str>) -> (r: Option<u32>)
    ensures
        r == (match uid_in(sudo_uid) {
            Some(uid) => Some(uid),
            None => uid_in(pkexec_uid),
        }),
{
    match read_uid(sudo_uid) {
        Some(uid) => Some(uid),
        None => read_uid(pkexec_uid),
    }
}

/// Whether a request to shut down ends the daemon: one that the service manager
/// started is left to it.
pub fn shuts_down(invocation_id: bool, exec_pid: bool) -> (r: bool)
    ensures
        r == !(invocation_id || exec_pid),
{
    !is_systemd_managed(invocation_id, exec_pid)
}

/// Whether the service manager started the daemon, by which of its variables
/// are set.
pub fn is_systemd_managed(invocation_id: bool, exec_pid: bool) -> (r: bool)
    ensures
        r == (invocation_id || exec_pid),
{
    invocation_id || exec_pid
}

/// Nothing that is handed on to the frontend tells it to start a frontend.
pub proof fn law_frontend_starts_no_frontend(list: Seq<Seq<char>>, x: Seq<char>)
    ensures
        !without(list, x).contains(x),
    decreases list.len(),
{
    if list.len() > 0 {
        law_frontend_starts_no_frontend(list.drop_last(), x);
        let rest = without(list.drop_last(), x);
        if list.last() != x {
            assert forall|i: int| 0 <= i < rest.push(list.last()).len() implies rest.push(
                list.last(),
            )[i] != x by {
                if i < rest.len() {
                    assert(rest.push(list.last())[i] == rest[i]);
                    assert(rest.contains(rest[i]));
                }
            }
        }
    }
}

} // verus!
