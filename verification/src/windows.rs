//! The fast path of Windows: `SetFileValidData`, which a process may call once it holds the
//! privilege to manage volumes.

use crate::error::AllocError;
use crate::image;
use crate::image::FileImage;
use crate::run::Machine;
use vstd::prelude::*;

verus! {

/// Access right to a token: change its privileges.
pub const TOKEN_ADJUST_PRIVILEGES: u32 = 0x20;

/// Access right to a token: read it.
pub const TOKEN_QUERY: u32 = 0x08;

/// Attribute of a privilege: it is enabled.
pub const SE_PRIVILEGE_ENABLED: u32 = 0x02;

/// The last error of a thread whose last call succeeded in full.
pub const ERROR_SUCCESS: u32 = 0;

/// The name of the privilege to manage volumes, ending in a null character.
pub const PRIVILEGE_NAME: &'static str = "SeManageVolumePrivilege\0";

/// A locally unique identifier, by which the system knows a privilege.
#[derive(Clone, Copy, Debug, PartialEq, Eq, Structural)]
pub struct Luid {
    pub low_part: u32,
    pub high_part: i32,
}

/// The process enabling its privilege. The state is the call to make next.
#[derive(Debug, PartialEq, Eq)]
pub enum PrivilegeSetup {
    /// Open the token of this process with the rights `access`.
    OpenToken { access: u32 },
    /// Look up the identifier of the privilege `name` on this system.
    LookupPrivilege { name: &'static str },
    /// Give the one privilege `luid` of the token these `attributes`.
    AdjustPrivileges { luid: Luid, attributes: u32 },
    /// Read the last error of this thread.
    ReadLastError,
    /// Close the token.
    CloseToken { enabled: bool },
    /// Nothing is left to do, and this is whether the privilege is enabled.
    Finished(bool),
}

/// What came of the call that a [`PrivilegeSetup`] asked for.
#[derive(Debug, PartialEq, Eq)]
pub enum PrivilegeEvent {
    /// Whether the token was opened.
    TokenOpened(bool),
    /// The identifier of the privilege, if it was found.
    PrivilegeFound(Option<Luid>),
    /// Whether the call to adjust the privileges succeeded.
    PrivilegesAdjusted(bool),
    /// The last error.
    LastErrorRead(u32),
    /// The token was closed.
    TokenClosed,
}

impl PrivilegeSetup {
    /// The first state: the end, where the answer is known from an earlier setup, and otherwise
    /// opening the token to read it and to change its privileges.
    pub open spec fn starting(remembered: Option<bool>) -> Self {
        match remembered {
            Some(enabled) => PrivilegeSetup::Finished(enabled),
            None => PrivilegeSetup::OpenToken { access: TOKEN_ADJUST_PRIVILEGES | TOKEN_QUERY },
        }
    }

    /// `event` answers the call that this state asks for.
    pub open spec fn accepts(self, event: PrivilegeEvent) -> bool {
        match (self, event) {
            (PrivilegeSetup::OpenToken { .. }, PrivilegeEvent::TokenOpened(_)) => true,
            (PrivilegeSetup::LookupPrivilege { .. }, PrivilegeEvent::PrivilegeFound(_)) => true,
            (PrivilegeSetup::AdjustPrivileges { .. }, PrivilegeEvent::PrivilegesAdjusted(_)) =>
                true,
            (PrivilegeSetup::ReadLastError, PrivilegeEvent::LastErrorRead(_)) => true,
            (PrivilegeSetup::CloseToken { .. }, PrivilegeEvent::TokenClosed) => true,
            _ => false,
        }
    }

    /// The state after `event`. The privilege is enabled if every call succeeded and the last
    /// error says that it was granted. A token that was opened is closed in any case.
    pub open spec fn after(self, event: PrivilegeEvent) -> Self {
        match (self, event) {
            (PrivilegeSetup::OpenToken { .. }, PrivilegeEvent::TokenOpened(opened)) => if opened {
                PrivilegeSetup::LookupPrivilege { name: PRIVILEGE_NAME }
            } else {
                PrivilegeSetup::Finished(false)
            },
            (PrivilegeSetup::LookupPrivilege { .. }, PrivilegeEvent::PrivilegeFound(Some(luid))) =>
                PrivilegeSetup::AdjustPrivileges { luid, attributes: SE_PRIVILEGE_ENABLED },
            (PrivilegeSetup::LookupPrivilege { .. }, PrivilegeEvent::PrivilegeFound(None)) =>
                PrivilegeSetup::CloseToken { enabled: false },
            (PrivilegeSetup::AdjustPrivileges { .. }, PrivilegeEvent::PrivilegesAdjusted(ok)) =>
                if ok {
                    PrivilegeSetup::ReadLastError
                } else {
                    PrivilegeSetup::CloseToken { enabled: false }
                },
            (PrivilegeSetup::ReadLastError, PrivilegeEvent::LastErrorRead(code)) =>
                PrivilegeSetup::CloseToken { enabled: code == ERROR_SUCCESS },
            (PrivilegeSetup::CloseToken { enabled }, PrivilegeEvent::TokenClosed) =>
                PrivilegeSetup::Finished(enabled),
            _ => self,
        }
    }

    /// Goes on after the call that this state asked for.
    pub fn step(self, event: PrivilegeEvent) -> (next: Self)
        requires
            self.accepts(event),
        ensures
            next == self.after(event),
    {
        match (self, event) {
            (PrivilegeSetup::OpenToken { .. }, PrivilegeEvent::TokenOpened(opened)) => if opened {
                PrivilegeSetup::LookupPrivilege { name: PRIVILEGE_NAME }
            } else {
                PrivilegeSetup::Finished(false)
            },
            (PrivilegeSetup::LookupPrivilege { .. }, PrivilegeEvent::PrivilegeFound(found)) =>
                match found {
                Some(luid) => PrivilegeSetup::AdjustPrivileges {
                    luid,
                    attributes: SE_PRIVILEGE_ENABLED,
                },
                None => PrivilegeSetup::CloseToken { enabled: false },
            },
            (PrivilegeSetup::AdjustPrivileges { .. }, PrivilegeEvent::PrivilegesAdjusted(ok)) =>
                if ok {
                    PrivilegeSetup::ReadLastError
                } else {
                    PrivilegeSetup::CloseToken { enabled: false }
                },
            (PrivilegeSetup::ReadLastError, PrivilegeEvent::LastErrorRead(code)) =>
                PrivilegeSetup::CloseToken { enabled: code == ERROR_SUCCESS },
            (PrivilegeSetup::CloseToken { enabled }, PrivilegeEvent::TokenClosed) =>
                PrivilegeSetup::Finished(enabled),
            (state, _) => state,
        }
    }
}

/// Starts enabling the privilege that the fast path needs. `remembered` is what an earlier run in
/// this process came to: then there is nothing left to do, and the answer is that one again.
///
/// This has to be done before the file is opened. The answer is `false` where the privilege is
/// not granted, which is so for most processes without administrator rights.
pub fn init_fast_alloc(remembered: Option<bool>) -> (start: PrivilegeSetup)
    ensures
        start == PrivilegeSetup::starting(remembered),
        remembered matches Some(enabled) ==> start == PrivilegeSetup::Finished(enabled),
        remembered is None ==> start is OpenToken,
{
    match remembered {
        Some(enabled) => PrivilegeSetup::Finished(enabled),
        None => PrivilegeSetup::OpenToken { access: TOKEN_ADJUST_PRIVILEGES | TOKEN_QUERY },
    }
}

/// A preallocation in progress. The state is the call to make next.
#[derive(Debug, PartialEq, Eq)]
pub enum Preallocation<E> {
    /// Find out whether the privilege is enabled, enabling it if that was not tried before.
    CheckPrivilege { current_size: u64, size: u64 },
    /// Duplicate the file handle for the blocking task.
    CloneHandle { current_size: u64, size: u64 },
    /// In a blocking task, run a [`LengthTask`] on the duplicate.
    RunTask { current_size: u64, size: u64 },
    /// Nothing is left to do.
    Finished(Result<bool, AllocError<E>>),
}

/// What came of the call that a [`Preallocation`] asked for.
#[derive(Debug, PartialEq, Eq)]
pub enum PreallocationEvent<E> {
    /// Whether the privilege is enabled.
    PrivilegeChecked(bool),
    /// The handle was duplicated, or could not be.
    HandleCloned(Result<(), E>),
    /// The blocking task ended with this outcome, or did not run to its end.
    TaskEnded(Result<Result<bool, AllocError<E>>, E>),
}

impl<E> Preallocation<E> {
    /// `event` answers the call that this state asks for.
    pub open spec fn accepts(self, event: PreallocationEvent<E>) -> bool {
        match (self, event) {
            (Preallocation::CheckPrivilege { .. }, PreallocationEvent::PrivilegeChecked(_)) => true,
            (Preallocation::CloneHandle { .. }, PreallocationEvent::HandleCloned(_)) => true,
            (Preallocation::RunTask { .. }, PreallocationEvent::TaskEnded(_)) => true,
            _ => false,
        }
    }

    /// The state after `event`. Without the privilege the work is not done. With it, the outcome
    /// is that of the task, and a failure to run the task is an error.
    pub open spec fn after(self, event: PreallocationEvent<E>) -> Self {
        match (self, event) {
            (
                Preallocation::CheckPrivilege { current_size, size },
                PreallocationEvent::PrivilegeChecked(enabled),
            ) => if enabled {
                Preallocation::CloneHandle { current_size, size }
            } else {
                Preallocation::Finished(Ok(false))
            },
            (
                Preallocation::CloneHandle { current_size, size },
                PreallocationEvent::HandleCloned(Ok(_)),
            ) => Preallocation::RunTask { current_size, size },
            (_, PreallocationEvent::HandleCloned(Err(e))) => Preallocation::Finished(
                Err(AllocError::Os(e)),
            ),
            (Preallocation::RunTask { .. }, PreallocationEvent::TaskEnded(Ok(outcome))) =>
                Preallocation::Finished(outcome),
            (_, PreallocationEvent::TaskEnded(Err(e))) => Preallocation::Finished(
                Err(AllocError::Os(e)),
            ),
            _ => self,
        }
    }

    /// Goes on after the call that this state asked for.
    pub fn step(self, event: PreallocationEvent<E>) -> (next: Self)
        requires
            self.accepts(event),
        ensures
            next == self.after(event),
    {
        match (self, event) {
            (
                Preallocation::CheckPrivilege { current_size, size },
                PreallocationEvent::PrivilegeChecked(enabled),
            ) => if enabled {
                Preallocation::CloneHandle { current_size, size }
            } else {
                Preallocation::Finished(Ok(false))
            },
            (
                Preallocation::CloneHandle { current_size, size },
                PreallocationEvent::HandleCloned(Ok(_)),
            ) => Preallocation::RunTask { current_size, size },
            (_, PreallocationEvent::HandleCloned(Err(e))) => Preallocation::Finished(
                Err(AllocError::Os(e)),
            ),
            (Preallocation::RunTask { .. }, PreallocationEvent::TaskEnded(Ok(outcome))) =>
                Preallocation::Finished(outcome),
            (_, PreallocationEvent::TaskEnded(Err(e))) => Preallocation::Finished(
                Err(AllocError::Os(e)),
            ),
            (state, _) => state,
        }
    }
}

/// Starts the fast path that grows a file from `current_size` to `size`.
pub fn try_fast_preallocate<E>(current_size: u64, size: u64) -> (start: Preallocation<E>)
    ensures
        start == (Preallocation::<E>::CheckPrivilege { current_size, size }),
{
    Preallocation::CheckPrivilege { current_size, size }
}

/// The blocking part of a preallocation. The state is the call to make next.
#[derive(Debug, PartialEq, Eq)]
pub enum LengthTask<E> {
    /// Set the length of the file to `size`.
    SetLength { current_size: u64, size: u64 },
    /// Call `SetFileValidData` with `valid_length`.
    SetValidData { current_size: u64, valid_length: i64 },
    /// Set the length of the file back to `current_size`.
    RestoreLength { current_size: u64 },
    /// Nothing is left to do.
    Finished(Result<bool, AllocError<E>>),
}

/// What came of the call that a [`LengthTask`] asked for.
#[derive(Debug, PartialEq, Eq)]
pub enum LengthTaskEvent<E> {
    /// The length was set, or could not be.
    LengthSet(Result<(), E>),
    /// Whether `SetFileValidData` succeeded.
    ValidDataSet(bool),
}

impl<E> LengthTask<E> {
    /// `event` answers the call that this state asks for.
    pub open spec fn accepts(self, event: LengthTaskEvent<E>) -> bool {
        match (self, event) {
            (LengthTask::SetLength { .. }, LengthTaskEvent::LengthSet(_)) => true,
            (LengthTask::SetValidData { .. }, LengthTaskEvent::ValidDataSet(_)) => true,
            (LengthTask::RestoreLength { .. }, LengthTaskEvent::LengthSet(_)) => true,
            _ => false,
        }
    }

    /// The state after `event`. A size that `SetFileValidData` cannot take is an error. Where
    /// that call fails, the old length is restored and the work was not done.
    pub open spec fn after(self, event: LengthTaskEvent<E>) -> Self {
        match (self, event) {
            (LengthTask::SetLength { current_size, size }, LengthTaskEvent::LengthSet(Ok(_))) =>
                if size <= i64::MAX {
                    LengthTask::SetValidData { current_size, valid_length: size as i64 }
                } else {
                    LengthTask::Finished(Err(AllocError::FileTooLarge))
                },
            (LengthTask::SetValidData { current_size, .. }, LengthTaskEvent::ValidDataSet(ok)) =>
                if ok {
                    LengthTask::Finished(Ok(true))
                } else {
                    LengthTask::RestoreLength { current_size }
                },
            (LengthTask::RestoreLength { .. }, LengthTaskEvent::LengthSet(Ok(_))) =>
                LengthTask::Finished(Ok(false)),
            (_, LengthTaskEvent::LengthSet(Err(e))) => LengthTask::Finished(
                Err(AllocError::Os(e)),
            ),
            _ => self,
        }
    }

    /// Starts the task that [`Preallocation::RunTask`] asks for.
    pub fn start(current_size: u64, size: u64) -> (start: Self)
        ensures
            start == (LengthTask::<E>::SetLength { current_size, size }),
    {
        LengthTask::SetLength { current_size, size }
    }

    /// Goes on after the call that this state asked for.
    pub fn step(self, event: LengthTaskEvent<E>) -> (next: Self)
        requires
            self.accepts(event),
        ensures
            next == self.after(event),
    {
        match (self, event) {
            (LengthTask::SetLength { current_size, size }, LengthTaskEvent::LengthSet(Ok(_))) =>
                if size <= i64::MAX as u64 {
                    LengthTask::SetValidData { current_size, valid_length: size as i64 }
                } else {
                    LengthTask::Finished(Err(AllocError::FileTooLarge))
                },
            (LengthTask::SetValidData { current_size, .. }, LengthTaskEvent::ValidDataSet(ok)) =>
                if ok {
                    LengthTask::Finished(Ok(true))
                } else {
                    LengthTask::RestoreLength { current_size }
                },
            (LengthTask::RestoreLength { .. }, LengthTaskEvent::LengthSet(Ok(_))) =>
                LengthTask::Finished(Ok(false)),
            (_, LengthTaskEvent::LengthSet(Err(e))) => LengthTask::Finished(
                Err(AllocError::Os(e)),
            ),
            (state, _) => state,
        }
    }
}

/// What a task that ends with `outcome` does to a file.
pub open spec fn task_outcome<E>(
    current_size: u64,
    size: u64,
    outcome: Result<bool, AllocError<E>>,
    before: FileImage,
    after: FileImage,
) -> bool {
    let done = outcome == Ok::<bool, AllocError<E>>(true);
    &&& image::is_fast_path_effect(
        false,
        current_size as nat,
        size as nat,
        done,
        before,
        after,
    )
    &&& outcome == Ok::<bool, AllocError<E>>(false) ==> after.contents == before.contents.take(
        current_size as int,
    )
    &&& outcome is Err ==> image::is_zero_extension(before.contents, after.contents, size as nat)
}

/// The file `before` once its length has been set to `len`: cut off, or with zeros appended that
/// nobody has written.
pub open spec fn with_length(before: FileImage, len: nat) -> FileImage {
    FileImage {
        contents: image::resized(before.contents, len),
        written: image::kept_len(len, before),
        ..before
    }
}

impl<E> Machine for LengthTask<E> {
    type Event = LengthTaskEvent<E>;

    open spec fn next(self, event: LengthTaskEvent<E>) -> Self {
        self.after(event)
    }

    /// Setting the length cuts the file or adds zeros. `SetFileValidData` exposes whatever the
    /// disk holds past the bytes that were written, all of which then count as written, and
    /// changes nothing where it fails. Neither moves the position.
    open spec fn outcome(
        self,
        zeroing: bool,
        event: LengthTaskEvent<E>,
        before: FileImage,
        after: FileImage,
    ) -> bool {
        match (self, event) {
            (LengthTask::SetLength { size, .. }, LengthTaskEvent::LengthSet(Ok(_))) => after
                == with_length(before, size as nat),
            (LengthTask::RestoreLength { current_size }, LengthTaskEvent::LengthSet(Ok(_))) => after
                == with_length(before, current_size as nat),
            (LengthTask::SetValidData { valid_length, .. }, LengthTaskEvent::ValidDataSet(true)) =>
                {
                let kept = image::kept_len(before.contents.len(), before);
                &&& after.position == before.position
                &&& after.buffered == before.buffered
                &&& after.written == valid_length
                &&& after.contents.len() == before.contents.len()
                &&& after.contents.take(kept as int) == before.contents.take(kept as int)
            },
            (LengthTask::SetValidData { .. }, LengthTaskEvent::ValidDataSet(false))
            | (LengthTask::SetLength { .. }, LengthTaskEvent::LengthSet(Err(_)))
            | (LengthTask::RestoreLength { .. }, LengthTaskEvent::LengthSet(Err(_))) => after
                == before,
            _ => false,
        }
    }
}

impl<E> Machine for Preallocation<E> {
    type Event = PreallocationEvent<E>;

    open spec fn next(self, event: PreallocationEvent<E>) -> Self {
        self.after(event)
    }

    /// While the privilege is checked, accepted bytes may arrive; duplicating the handle waits for
    /// them. The task does what [`task_outcome`] says, or is cut short before `SetFileValidData`
    /// has exposed anything, and does not move the position.
    open spec fn outcome(
        self,
        zeroing: bool,
        event: PreallocationEvent<E>,
        before: FileImage,
        after: FileImage,
    ) -> bool {
        match (self, event) {
            (Preallocation::CheckPrivilege { .. }, PreallocationEvent::PrivilegeChecked(_)) =>
                before.arrives_as(after),
            (Preallocation::CloneHandle { .. }, PreallocationEvent::HandleCloned(_)) =>
                before.waits_as(after),
            (
                Preallocation::RunTask { current_size, size },
                PreallocationEvent::TaskEnded(Ok(outcome)),
            ) => task_outcome(current_size, size, outcome, before, after),
            (
                Preallocation::RunTask { current_size, size },
                PreallocationEvent::TaskEnded(Err(_)),
            ) => image::is_fast_path_effect(
                false,
                current_size as nat,
                size as nat,
                false,
                before,
                after,
            ),
            _ => false,
        }
    }
}

} // verus!
