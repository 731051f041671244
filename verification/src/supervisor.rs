//! The parameters with which the daemon is launched.
//!
//! The daemon gets a data directory of its own, logs to a file in it, picks
//! its control port and its SOCKS port itself, writes the control port to the
//! announcement file, and asks for a password on the control port.

use vstd::prelude::*;
use crate::locator::announcement_path;

verus! {

/// How much the daemon logs.
#[derive(Clone, Copy, Debug, PartialEq, Eq, Structural)]
pub enum LogLevel {
    Debug,
    Info,
    Notice,
    Warn,
    Error,
}

/// One launch parameter of the daemon.
#[derive(Clone, Debug, PartialEq, Eq)]
pub enum LaunchFlag {
    /// The directory in which the daemon keeps its state.
    DataDirectory(String),
    /// Log messages of this level and above go to this file.
    LogToFile { level: LogLevel, path: String },
    /// The daemon picks a free control port.
    ControlPortAuto,
    /// The daemon writes the control port it picked to this file.
    ControlPortWriteToFile(String),
    /// The hashed form of the password that the control port asks for.
    HashedControlPassword(String),
    /// The daemon picks a free SOCKS port.
    SocksPortAuto,
}

/// A launch parameter with its texts as sequences of characters.
pub enum LaunchFlagView {
    DataDirectory(Seq<char>),
    LogToFile { level: LogLevel, path: Seq<char> },
    ControlPortAuto,
    ControlPortWriteToFile(Seq<char>),
    HashedControlPassword(Seq<char>),
    SocksPortAuto,
}

impl View for LaunchFlag {
    type V = LaunchFlagView;

    open spec fn view(&self) -> LaunchFlagView {
        match self {
            LaunchFlag::DataDirectory(dir) => LaunchFlagView::DataDirectory(dir@),
            LaunchFlag::LogToFile { level, path } => LaunchFlagView::LogToFile {
                level: *level,
                path: path@,
            },
            LaunchFlag::ControlPortAuto => LaunchFlagView::ControlPortAuto,
            LaunchFlag::ControlPortWriteToFile(path) => LaunchFlagView::ControlPortWriteToFile(
                path@,
            ),
            LaunchFlag::HashedControlPassword(hash) => LaunchFlagView::HashedControlPassword(hash@),
            LaunchFlag::SocksPortAuto => LaunchFlagView::SocksPortAuto,
        }
    }
}

/// The views of a list of launch parameters, in order.
pub open spec fn flag_views(flags: Seq<LaunchFlag>) -> Seq<LaunchFlagView> {
    Seq::new(flags.len(), |i: int| flags[i]@)
}

/// The launch parameters for a data directory and a hashed control password,
/// in the order in which the daemon is given them.
pub open spec fn launch_plan(data_dir: Seq<char>, hashed_password: Seq<char>) -> Seq<
    LaunchFlagView,
> {
    seq![
        LaunchFlagView::DataDirectory(data_dir),
        LaunchFlagView::LogToFile { level: LogLevel::Notice, path: data_dir + "/log.txt"@ },
        LaunchFlagView::ControlPortAuto,
        LaunchFlagView::ControlPortWriteToFile(data_dir + "/control-port.txt"@),
        LaunchFlagView::HashedControlPassword(hashed_password),
        LaunchFlagView::SocksPortAuto,
    ]
}

/// The path of the daemon's log file under a data directory.
pub fn log_path(data_dir: &str) -> (path: String)
    ensures
        path@ == data_dir@ + "/log.txt"@,
{
    String::from_str(data_dir).concat("/log.txt")
}

/// The parameters with which to launch the daemon.
pub fn launch_flags(data_dir: &str, hashed_password: &str) -> (flags: Vec<LaunchFlag>)
    ensures
        flag_views(flags@) == launch_plan(data_dir@, hashed_password@),
{
    let mut flags: Vec<LaunchFlag> = Vec::new();
    flags.push(LaunchFlag::DataDirectory(String::from_str(data_dir)));
    flags.push(LaunchFlag::LogToFile { level: LogLevel::Notice, path: log_path(data_dir) });
    flags.push(LaunchFlag::ControlPortAuto);
    flags.push(LaunchFlag::ControlPortWriteToFile(announcement_path(data_dir)));
    flags.push(LaunchFlag::HashedControlPassword(String::from_str(hashed_password)));
    flags.push(LaunchFlag::SocksPortAuto);
    assert(flag_views(flags@) =~= launch_plan(data_dir@, hashed_password@));
    flags
}

} // verus!
