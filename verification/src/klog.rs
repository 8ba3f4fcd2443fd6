//! The kernel log: lines that start with their level and their tag.

use vstd::prelude::*;
use vstd::string::StringExecFns;

verus! {

/// The levels of the kernel log, the most severe first.
#[derive(Clone, Copy, Debug, PartialEq, Eq, PartialOrd, Ord, Structural)]
pub enum KlogLevel {
    /// The kernel cannot go on.
    Panic,
    /// Something failed.
    Error,
    /// Something is unusual.
    Warn,
    /// Something happened.
    Info,
    /// Everything that happens.
    Trace,
}

impl KlogLevel {
    /// The place of the level among the levels, the most severe being 0.
    pub open spec fn spec_rank(self) -> int {
        match self {
            KlogLevel::Panic => 0,
            KlogLevel::Error => 1,
            KlogLevel::Warn => 2,
            KlogLevel::Info => 3,
            KlogLevel::Trace => 4,
        }
    }

    /// The name of the level as it stands in the log.
    pub open spec fn spec_name(self) -> Seq<char> {
        match self {
            KlogLevel::Panic => "PANIC"@,
            KlogLevel::Error => "ERROR"@,
            KlogLevel::Warn => "WARN"@,
            KlogLevel::Info => "INFO"@,
            KlogLevel::Trace => "TRACE"@,
        }
    }

    /// Returns the place of the level among the levels.
    pub fn rank(&self) -> (rank: u8)
        ensures
            rank == self.spec_rank(),
    {
        match self {
            KlogLevel::Panic => 0,
            KlogLevel::Error => 1,
            KlogLevel::Warn => 2,
            KlogLevel::Info => 3,
            KlogLevel::Trace => 4,
        }
    }

    /// Returns the name of the level as it stands in the log.
    pub fn name(&self) -> (name: &'static str)
        ensures
            name@ == self.spec_name(),
    {
        match self {
            KlogLevel::Panic => "PANIC",
            KlogLevel::Error => "ERROR",
            KlogLevel::Warn => "WARN",
            KlogLevel::Info => "INFO",
            KlogLevel::Trace => "TRACE",
        }
    }

    /// The least severe level that is written, given which levels the
    /// kernel was built to write: the least severe one of them, and panics
    /// alone where it was built for none.
    pub open spec fn spec_max_level(trace: bool, info: bool, warn: bool, error: bool) -> KlogLevel {
        if trace {
            KlogLevel::Trace
        } else if info {
            KlogLevel::Info
        } else if warn {
            KlogLevel::Warn
        } else if error {
            KlogLevel::Error
        } else {
            KlogLevel::Panic
        }
    }

    /// Returns the least severe level that is written, given which levels
    /// the kernel was built to write.
    pub fn max_level(trace: bool, info: bool, warn: bool, error: bool) -> (level: KlogLevel)
        ensures
            level == KlogLevel::spec_max_level(trace, info, warn, error),
    {
        if trace {
            KlogLevel::Trace
        } else if info {
            KlogLevel::Info
        } else if warn {
            KlogLevel::Warn
        } else if error {
            KlogLevel::Error
        } else {
            KlogLevel::Panic
        }
    }

    /// Says whether lines of this level are written where `max_level` is the
    /// least severe level that is: a line is written if it is at least as
    /// severe.
    pub fn is_enabled(&self, max_level: KlogLevel) -> (enabled: bool)
        ensures
            enabled == (self.spec_rank() <= max_level.spec_rank()),
    {
        self.rank() <= max_level.rank()
    }
}

/// One line of the kernel log while it is written.
#[derive(Debug)]
pub struct Klog {
    line: String,
}

impl View for Klog {
    type V = Seq<char>;

    /// What has been written to the line so far.
    closed spec fn view(&self) -> Seq<char> {
        self.line@
    }
}

impl Klog {
    /// How a line with the given tag and level starts: the name of the level
    /// and the tag, each in square brackets, and a space.
    pub open spec fn spec_prefix(tag: Seq<char>, level: KlogLevel) -> Seq<char> {
        "["@ + level.spec_name() + "]["@ + tag + "] "@
    }

    /// Starts a line with the given tag and level.
    pub fn get(tag: &str, level: KlogLevel) -> (klog: Klog)
        ensures
            klog@ == Klog::spec_prefix(tag@, level),
    {
        let mut line = String::from_str("[");
        line.append(level.name());
        line.append("][");
        line.append(tag);
        line.append("] ");
        Klog { line }
    }

    /// Writes text to the line.
    pub fn write_str(&mut self, text: &str)
        ensures
            final(self)@ == old(self)@ + text@,
    {
        self.line.append(text);
    }

    /// Ends the line and hands it out, with the line feed that closes it.
    pub fn finish(self) -> (line: String)
        ensures
            line@ == self@ + "\n"@,
    {
        let mut line = self.line;
        line.append("\n");
        line
    }
}

} // verus!
