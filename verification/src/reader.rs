//! Where the lines come from, and the decisions of following a file that
//! grows and may be replaced.
//!
//! Reading, sleeping and opening files are the caller's work. The caller
//! reports what happened as a [`ReadEvent`], and [`Follower::step`] says what
//! to do next.

use crate::cli::{Args, ConfigError};
use crate::text::{chars_of, opt_view};
use vstd::prelude::*;

verus! {

/// Where the lines of a run come from.
#[derive(Debug, Clone)]
pub enum LineSource {
    /// Standard input, to its end.
    Stdin,
    /// The file at this path, to its end.
    File(String),
    /// The file at this path, followed as it grows.
    Follow(String),
}

/// Chooses the source of lines: standard input where asked for, whatever
/// else is set; else the file, followed or not.
pub fn select_source(args: &Args) -> (r: Result<LineSource, ConfigError>)
    ensures
        match r {
            Ok(LineSource::Stdin) => args.stdin,
            Ok(LineSource::File(path)) => !args.stdin && !args.follow && opt_view(args.file)
                == Some(path@),
            Ok(LineSource::Follow(path)) => !args.stdin && args.follow && opt_view(args.file)
                == Some(path@),
            Err(e) => e == ConfigError::MissingInput && !args.stdin && args.file is None,
        },
{
    if args.stdin {
        return Ok(LineSource::Stdin);
    }
    match &args.file {
        None => Err(ConfigError::MissingInput),
        Some(path) => if args.follow {
            Ok(LineSource::Follow(path.clone()))
        } else {
            Ok(LineSource::File(path.clone()))
        },
    }
}

/// `s` without the line ending at its end: one line feed, and the carriage
/// return before it where there is one.
pub open spec fn without_line_ending(s: Seq<char>) -> Seq<char> {
    if s.len() > 0 && s.last() == '\n' {
        let rest = s.drop_last();
        if rest.len() > 0 && rest.last() == '\r' {
            rest.drop_last()
        } else {
            rest
        }
    } else {
        s
    }
}

/// Takes the line ending off the end of a line as it was read.
pub fn strip_line_ending(raw: &str) -> (line: String)
    ensures
        line@ == without_line_ending(raw@),
{
    let chars = chars_of(raw);
    let n = chars.len();
    let mut keep = n;
    if n > 0 && chars[n - 1] == '\n' {
        keep = n - 1;
        if keep > 0 && chars[keep - 1] == '\r' {
            keep = keep - 1;
        }
    }
    let line = raw.substring_char(0, keep).to_owned();
    assert(line@ =~= without_line_ending(raw@));
    line
}

/// How long to wait at the end of a followed file before looking again, in
/// milliseconds.
pub const POLL_INTERVAL_MS: u64 = 250;

/// Which file on disk an open file is. Two opens reach the same file
/// exactly when they give the same identity.
#[derive(Debug, Clone, Copy, PartialEq, Eq, Structural, Hash)]
pub struct FileId {
    pub device: u64,
    pub inode: u64,
}

/// What happened to the caller that follows a file.
#[derive(Debug, Clone, Copy, PartialEq, Eq, Structural)]
pub enum ReadEvent {
    /// A read gave text.
    Data,
    /// A read gave nothing: the file has no more for now.
    EndOfData,
    /// A read failed.
    Failed,
    /// After the wait, the path was looked up: it now leads to this file, or
    /// to none.
    Probed(Option<FileId>),
    /// The path was opened, and this is the file that the open reached.
    Opened(FileId),
    /// The path could not be opened.
    OpenFailed,
}

/// What the caller that follows a file is to do next.
#[derive(Debug, Clone, Copy, PartialEq, Eq, Structural)]
pub enum FollowAction {
    /// Hand out the text just read, without its line ending, as one line.
    Emit,
    /// Wait this many milliseconds, then look up the path and report
    /// `Probed`.
    Pause(u64),
    /// Read again from the file that is open.
    Read,
    /// Open the path and report `Opened` or `OpenFailed`; after `Opened`,
    /// read the new file from its start.
    Reopen,
    /// Stop, and report the failed read.
    Fail,
}

/// The file being read, and what to do after `event`.
///
/// The file changes only when the path was opened anew, and it is opened
/// anew only after a look at the path found another file than the one being
/// read. A path that leads nowhere for the moment, or still to the same
/// file, changes nothing, so no line is read twice. An end of data and a
/// path that cannot be opened are no failures: reading goes on.
pub open spec fn follow_step(current: FileId, event: ReadEvent) -> (FileId, FollowAction) {
    match event {
        ReadEvent::Data => (current, FollowAction::Emit),
        ReadEvent::EndOfData => (current, FollowAction::Pause(POLL_INTERVAL_MS)),
        ReadEvent::Failed => (current, FollowAction::Fail),
        ReadEvent::Probed(Some(found)) => if found != current {
            (current, FollowAction::Reopen)
        } else {
            (current, FollowAction::Read)
        },
        ReadEvent::Probed(None) => (current, FollowAction::Read),
        ReadEvent::Opened(reached) => (reached, FollowAction::Read),
        ReadEvent::OpenFailed => (current, FollowAction::Read),
    }
}

/// The decisions of following one file.
pub struct Follower {
    current: FileId,
}

impl View for Follower {
    type V = FileId;

    /// The file being read.
    closed spec fn view(&self) -> FileId {
        self.current
    }
}

impl Follower {
    /// Starts following the file that was opened.
    pub fn new(opened: FileId) -> (f: Self)
        ensures
            f@ == opened,
    {
        Follower { current: opened }
    }

    /// The file being read.
    pub fn current(&self) -> (id: FileId)
        ensures
            id == self@,
    {
        self.current
    }

    /// Takes note of what happened and says what to do next.
    pub fn step(&mut self, event: ReadEvent) -> (action: FollowAction)
        ensures
            (final(self)@, action) == follow_step(old(self)@, event),
    {
        match event {
            ReadEvent::Data => FollowAction::Emit,
            ReadEvent::EndOfData => FollowAction::Pause(POLL_INTERVAL_MS),
            ReadEvent::Failed => FollowAction::Fail,
            ReadEvent::Probed(Some(found)) => {
                if found.device != self.current.device || found.inode != self.current.inode {
                    FollowAction::Reopen
                } else {
                    FollowAction::Read
                }
            },
            ReadEvent::Probed(None) => FollowAction::Read,
            ReadEvent::Opened(reached) => {
                self.current = reached;
                FollowAction::Read
            },
            ReadEvent::OpenFailed => FollowAction::Read,
        }
    }
}

} // verus!
