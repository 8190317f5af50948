//! Process-wide shell state: the current working directory, the exported
//! environment, the job table, the foreground process group, and the
//! status of the last evaluated pipeline. Initialized once at startup and
//! mutated throughout the session.

use vstd::prelude::*;

use crate::env::Env;
use crate::jobs::JobTable;

verus! {

/// Why a directory change failed.
#[derive(Clone, Copy, PartialEq, Eq, Structural, Debug)]
pub enum CdError {
    /// The target is not a directory the system can change into.
    NoSuchDirectory,
}

/// The shell's mutable session state.
pub struct ShellState {
    pub cwd: Vec<char>,
    pub env: Env,
    pub jobs: JobTable,
    pub fg_pgid: Option<i32>,
    pub last_status: i32,
}

impl ShellState {
    /// Well-formedness of the state: the job table is well-formed.
    pub open spec fn wf(&self) -> bool {
        self.jobs.wf()
    }

    /// A fresh state: no directory, no variables, no jobs, no foreground
    /// group, success as the last status. The caller seeds directory and
    /// environment from the process it runs in.
    pub fn new() -> (r: ShellState)
        ensures
            r.wf(),
            r.cwd@.len() == 0,
            r.env@ == Map::<Seq<char>, Seq<char>>::empty(),
            r.jobs.jobs@.len() == 0,
            r.jobs.next_id == 1u64,
            r.fg_pgid is None,
            r.last_status == 0,
    {
        ShellState {
            cwd: Vec::new(),
            env: Env::new(),
            jobs: JobTable::new(),
            fg_pgid: None,
            last_status: 0,
        }
    }

    /// Applies the outcome of a directory-change attempt: on success the
    /// working directory becomes the target; on failure it stays exactly
    /// as it was and the failure is reported as `NoSuchDirectory`.
    /// Nothing else of the state changes either way.
    pub fn apply_cd(&mut self, path: &Vec<char>, chdir_ok: bool) -> (r: Result<(), CdError>)
        ensures
            chdir_ok ==> r is Ok && final(self).cwd@ == path@,
            !chdir_ok ==> r == Err::<(), CdError>(CdError::NoSuchDirectory) && final(self).cwd@
                == old(self).cwd@,
            final(self).env == old(self).env,
            final(self).jobs == old(self).jobs,
            final(self).fg_pgid == old(self).fg_pgid,
            final(self).last_status == old(self).last_status,
    {
        if chdir_ok {
            self.cwd = crate::expand::chars_copy(path.as_slice());
            Ok(())
        } else {
            Err(CdError::NoSuchDirectory)
        }
    }

    /// Records which process group holds the terminal: the foreground
    /// pipeline's group while one runs, the shell's own otherwise.
    pub fn set_foreground(&mut self, pgid: Option<i32>)
        ensures
            final(self).fg_pgid == pgid,
            final(self).cwd == old(self).cwd,
            final(self).env == old(self).env,
            final(self).jobs == old(self).jobs,
            final(self).last_status == old(self).last_status,
    {
        self.fg_pgid = pgid;
    }

    /// Records the status of the last evaluated pipeline.
    pub fn set_last_status(&mut self, status: i32)
        ensures
            final(self).last_status == status,
            final(self).cwd == old(self).cwd,
            final(self).env == old(self).env,
            final(self).jobs == old(self).jobs,
            final(self).fg_pgid == old(self).fg_pgid,
    {
        self.last_status = status;
    }
}

} // verus!
