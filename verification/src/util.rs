//! Ready-made resources: one that drops a value on exit, and the decisions of
//! one that switches the working directory.

use vstd::prelude::*;
use vstd::string::StringExecFns;
use crate::context::Context;
use crate::error::{ContextError, ContextErrorType, ContextResult};

verus! {

/// A resource that owns a value and drops it on exit.
pub struct ContextDrop<T> {
    obj: Option<T>,
}

impl<T> ContextDrop<T> {
    /// The value still held, if exit has not dropped it yet.
    pub closed spec fn held(&self) -> Option<T> {
        self.obj
    }

    /// A resource that holds `o` until it is exited.
    pub fn new(o: T) -> (context: Self)
        ensures
            context.held() == Some(o),
    {
        ContextDrop { obj: Some(o) }
    }
}

impl<T> Context for ContextDrop<T> {
    /// Entering has no effect and succeeds.
    fn enter(&mut self) -> (outcome: ContextResult)
        ensures
            outcome is Ok,
            *final(self) == *old(self),
    {
        Ok(())
    }

    /// Drops the held value, if it is still there, and leaves the outcome
    /// unhandled.
    fn exit(&mut self, outcome: &ContextResult) -> (handled: bool)
        ensures
            final(self).held() is None,
            !handled,
    {
        self.obj = None;
        false
    }
}

/// What the caller has to do with the working directory.
#[derive(Debug, PartialEq, Eq)]
pub enum DirStep {
    /// Nothing is left to do: the call is over, with this outcome.
    Done(ContextResult),
    /// Make this directory the working directory and report whether that
    /// succeeded.
    ChangeTo(String),
}

/// Why a directory switch could not be set up.
#[derive(Debug, PartialEq, Eq)]
pub enum SwitchDirError {
    /// The target is not an existing directory; the message names it.
    NotFound(String),
    /// The working directory could not be determined.
    NoCurrentDir,
}

/// The decisions of a resource that makes a directory the working directory
/// on entry and goes back to the previous one on exit.
///
/// This type never touches the process: it is told what the caller found and
/// says what the caller has to do next. The caller asks for the working
/// directory, calls [`SwitchDir::begin_enter`], carries out the step and
/// calls [`SwitchDir::finish_enter`]; on exit it changes to
/// [`SwitchDir::exit_dir`] and calls [`SwitchDir::finish_exit`].
pub struct SwitchDir {
    original_dir: String,
    new_dir: String,
}

impl SwitchDir {
    /// The directory to go back to on exit.
    pub closed spec fn original(&self) -> Seq<char> {
        self.original_dir@
    }

    /// The directory to switch to on entry.
    pub closed spec fn target(&self) -> Seq<char> {
        self.new_dir@
    }

    /// Sets up a switch to `dir`. `is_dir` says whether `dir` is an existing
    /// directory, `current` is the working directory if it could be found.
    ///
    /// A target that is no directory is refused first, with a message that
    /// names it; then a missing working directory is refused.
    pub fn new(dir: String, is_dir: bool, current: Option<String>) -> (made: Result<
        Self,
        SwitchDirError,
    >)
        ensures
            (match made {
                Ok(switch) => {
                    &&& is_dir
                    &&& current matches Some(found)
                    &&& switch.target() == dir@
                    &&& switch.original() == found@
                },
                Err(SwitchDirError::NotFound(message)) => {
                    &&& !is_dir
                    &&& message@ == "Not a directory: "@ + dir@
                },
                Err(SwitchDirError::NoCurrentDir) => is_dir && current is None,
            }),
    {
        if !is_dir {
            let message = String::from_str("Not a directory: ").concat(dir.as_str());
            return Err(SwitchDirError::NotFound(message));
        }
        match current {
            Some(found) => Ok(SwitchDir { original_dir: found, new_dir: dir }),
            None => Err(SwitchDirError::NoCurrentDir),
        }
    }

    /// Starts entering. `current` is the working directory if it could be
    /// found.
    ///
    /// Without a working directory, entering fails with an `EnterError` and
    /// nothing is remembered. Otherwise `current` becomes the directory to go
    /// back to; if it is the target already, entering is over and succeeded,
    /// else the caller has to change to the target.
    pub fn begin_enter(&mut self, current: Option<String>) -> (step: DirStep)
        ensures
            final(self).target() == old(self).target(),
            (match current {
                None => {
                    &&& final(self).original() == old(self).original()
                    &&& step matches DirStep::Done(Err(e))
                    &&& e.kind() == ContextErrorType::EnterError
                    &&& e.spec_message() == "Could not get current directory"@
                },
                Some(found) => {
                    &&& final(self).original() == found@
                    &&& if found@ == old(self).target() {
                        step matches DirStep::Done(Ok(_))
                    } else {
                        step matches DirStep::ChangeTo(dir) && dir@ == old(self).target()
                    }
                },
            }),
    {
        match current {
            None => DirStep::Done(
                Err(
                    ContextError::new(
                        ContextErrorType::EnterError,
                        "Could not get current directory",
                    ),
                ),
            ),
            Some(found) => {
                self.original_dir = found;
                if self.original_dir == self.new_dir {
                    DirStep::Done(Ok(()))
                } else {
                    DirStep::ChangeTo(self.new_dir.clone())
                }
            },
        }
    }

    /// Ends entering after the caller tried to change to the target:
    /// success if `changed`, else an `EnterError` that names the target.
    pub fn finish_enter(&self, changed: bool) -> (outcome: ContextResult)
        ensures
            changed ==> outcome is Ok,
            (!changed ==> {
                &&& outcome matches Err(e)
                &&& e.kind() == ContextErrorType::EnterError
                &&& e.spec_message() == "Could not set directory: "@ + self.target()
            }),
    {
        if changed {
            Ok(())
        } else {
            let message = String::from_str("Could not set directory: ").concat(
                self.new_dir.as_str(),
            );
            Err(ContextError::new(ContextErrorType::EnterError, message.as_str()))
        }
    }

    /// The directory the caller has to change to on exit: the one that was
    /// the working directory when the resource was entered.
    pub fn exit_dir(&self) -> (dir: String)
        ensures
            dir@ == self.original(),
    {
        self.original_dir.clone()
    }

    /// Ends exiting after the caller went back to [`SwitchDir::exit_dir`].
    /// The outcome is left unhandled.
    ///
    /// Going back must have succeeded: a process left in another directory
    /// than its caller expects is not something to continue from.
    pub fn finish_exit(&self, restored: bool, outcome: &ContextResult) -> (handled: bool)
        requires
            restored,
        ensures
            !handled,
    {
        false
    }
}

} // verus!
