use file_alloc::windows::{
    Luid, PrivilegeEvent, PrivilegeSetup, ERROR_SUCCESS, SE_PRIVILEGE_ENABLED,
};
use file_alloc::{portable, unix, windows, AllocError};

const LUID: Luid = Luid {
    low_part: 28,
    high_part: 0,
};

/// Runs a setup on a system with these answers. Returns what it came to, and how often the token
/// was opened and closed.
fn set_up(
    remembered: Option<bool>,
    opens: bool,
    luid: Option<Luid>,
    adjusts: bool,
    last_error: u32,
) -> (bool, usize, usize) {
    let mut opened = 0;
    let mut closed = 0;
    let mut state = windows::init_fast_alloc(remembered);
    loop {
        let event = match &state {
            PrivilegeSetup::OpenToken { access } => {
                assert_eq!(*access, 0x28);
                if opens {
                    opened += 1;
                }
                PrivilegeEvent::TokenOpened(opens)
            }
            PrivilegeSetup::LookupPrivilege { name } => {
                assert_eq!(*name, "SeManageVolumePrivilege\0");
                PrivilegeEvent::PrivilegeFound(luid)
            }
            PrivilegeSetup::AdjustPrivileges { luid, attributes } => {
                assert_eq!(*luid, LUID);
                assert_eq!(*attributes, SE_PRIVILEGE_ENABLED);
                PrivilegeEvent::PrivilegesAdjusted(adjusts)
            }
            PrivilegeSetup::ReadLastError => PrivilegeEvent::LastErrorRead(last_error),
            PrivilegeSetup::CloseToken { .. } => {
                closed += 1;
                PrivilegeEvent::TokenClosed
            }
            PrivilegeSetup::Finished(enabled) => return (*enabled, opened, closed),
        };
        state = state.step(event);
    }
}

#[test]
fn test_init_fast_alloc_idempotent() {
    let first = unix::init_fast_alloc();
    assert_eq!(first, unix::init_fast_alloc());

    let first = portable::init_fast_alloc();
    assert_eq!(first, portable::init_fast_alloc());

    let (first, _, _) = set_up(None, true, Some(LUID), true, ERROR_SUCCESS);
    assert_eq!(set_up(Some(first), false, None, false, 5), (first, 0, 0));
    let (first, _, _) = set_up(None, false, None, false, 5);
    assert_eq!(
        set_up(Some(first), true, Some(LUID), true, ERROR_SUCCESS),
        (first, 0, 0)
    );
}

/// Runs the fast path of Windows on a file in memory, which takes every call on it.
fn try_fast_preallocate(
    file: &mut Vec<u8>,
    privilege: bool,
    current_size: u64,
    size: u64,
) -> Result<bool, AllocError<&'static str>> {
    let mut state = windows::try_fast_preallocate(current_size, size);
    loop {
        let event = match state {
            windows::Preallocation::CheckPrivilege { .. } => {
                windows::PreallocationEvent::PrivilegeChecked(privilege)
            }
            windows::Preallocation::CloneHandle { .. } => {
                windows::PreallocationEvent::HandleCloned(Ok(()))
            }
            windows::Preallocation::RunTask { current_size, size } => {
                assert_eq!(current_size, file.len() as u64);
                windows::PreallocationEvent::TaskEnded(Ok(run_task(file, size, true, true, true)))
            }
            windows::Preallocation::Finished(outcome) => return outcome,
        };
        state = state.step(event);
    }
}

#[test]
fn test_try_fast_preallocate_no_privilege() {
    let mut file = Vec::new();
    let result = try_fast_preallocate(&mut file, false, 0, 1024);
    assert!(matches!(result, Ok(false)));
    assert_eq!(file.len(), 0);
}

#[test]
fn try_fast_preallocate_with_privilege() {
    let mut file = b"head".to_vec();
    let result = try_fast_preallocate(&mut file, true, 4, 1024);
    assert_eq!(result, Ok(true));
    assert_eq!(file.len(), 1024);
    assert_eq!(&file[..4], b"head");
}

#[test]
fn fast_path_is_known_per_platform() {
    assert!(unix::init_fast_alloc());
    assert!(!portable::init_fast_alloc());
    assert_eq!(
        portable::try_fast_preallocate::<()>(0, 1024),
        Ok(false)
    );
}

#[test]
fn privilege_needs_every_call() {
    assert_eq!(
        set_up(None, true, Some(LUID), true, ERROR_SUCCESS),
        (true, 1, 1)
    );
    assert_eq!(set_up(None, false, Some(LUID), true, 0), (false, 0, 0));
    assert_eq!(set_up(None, true, None, true, 0), (false, 1, 1));
    assert_eq!(set_up(None, true, Some(LUID), false, 0), (false, 1, 1));
    // Not all privileges were assigned.
    assert_eq!(set_up(None, true, Some(LUID), true, 1300), (false, 1, 1));
}

#[test]
fn unix_allocates_the_missing_range() {
    let start: unix::Preallocation<&str> = unix::try_fast_preallocate(10, 100);
    assert_eq!(
        start,
        unix::Preallocation::CloneHandle {
            current_size: 10,
            size: 100
        }
    );
    assert_eq!(
        start.step(unix::PreallocationEvent::HandleCloned(Ok(()))),
        unix::Preallocation::Fallocate {
            offset: 10,
            len: 90
        }
    );
}

#[test]
fn unix_outcomes() {
    let cloned = || {
        unix::try_fast_preallocate(10, 100).step(unix::PreallocationEvent::HandleCloned(Ok(())))
    };
    assert_eq!(
        cloned().step(unix::PreallocationEvent::Fallocated(Ok(()))),
        unix::Preallocation::Finished(Ok(true))
    );
    assert_eq!(
        cloned().step(unix::PreallocationEvent::Fallocated(Err("not supported"))),
        unix::Preallocation::Finished(Ok(false))
    );
    assert_eq!(
        cloned().step(unix::PreallocationEvent::TaskFailed("cancelled")),
        unix::Preallocation::Finished(Err(AllocError::Os("cancelled")))
    );
    assert_eq!(
        unix::try_fast_preallocate(10, 100)
            .step(unix::PreallocationEvent::HandleCloned(Err("too many files"))),
        unix::Preallocation::Finished(Err(AllocError::Os("too many files")))
    );
}

/// Runs the blocking task on a file in memory. Each call on the length may be made to fail, and
/// bytes that become valid without being written read as `x`.
fn run_task(
    file: &mut Vec<u8>,
    size: u64,
    grows: bool,
    validates: bool,
    shrinks: bool,
) -> Result<bool, AllocError<&'static str>> {
    let current_size = file.len();
    let mut state = windows::LengthTask::start(current_size as u64, size);
    loop {
        let event = match state {
            windows::LengthTask::SetLength { size, .. } => {
                if grows {
                    file.resize(size as usize, 0);
                }
                windows::LengthTaskEvent::LengthSet(if grows { Ok(()) } else { Err("grow") })
            }
            windows::LengthTask::SetValidData { valid_length, .. } => {
                assert_eq!(valid_length as u64, size);
                if validates {
                    file[current_size..].fill(b'x');
                }
                windows::LengthTaskEvent::ValidDataSet(validates)
            }
            windows::LengthTask::RestoreLength { current_size } => {
                if shrinks {
                    file.resize(current_size as usize, 0);
                }
                windows::LengthTaskEvent::LengthSet(if shrinks { Ok(()) } else { Err("shrink") })
            }
            windows::LengthTask::Finished(outcome) => return outcome,
        };
        state = state.step(event);
    }
}

#[test]
fn windows_task_outcomes() {
    let mut file = b"head".to_vec();
    assert_eq!(run_task(&mut file, 6, true, true, true), Ok(true));
    assert_eq!(file, b"headxx");

    let mut file = b"head".to_vec();
    assert_eq!(run_task(&mut file, 6, true, false, true), Ok(false));
    assert_eq!(file, b"head");

    let mut file = b"head".to_vec();
    assert_eq!(
        run_task(&mut file, 6, false, true, true),
        Err(AllocError::Os("grow"))
    );
    assert_eq!(file, b"head");

    let mut file = b"head".to_vec();
    assert_eq!(
        run_task(&mut file, 6, true, false, false),
        Err(AllocError::Os("shrink"))
    );
    assert_eq!(file, b"head\0\0");
}

#[test]
fn windows_refuses_a_size_beyond_i64() {
    let limit = i64::MAX as u64;
    let sized = |size: u64| {
        windows::LengthTask::<()>::start(0, size)
            .step(windows::LengthTaskEvent::LengthSet(Ok(())))
    };
    assert_eq!(
        sized(limit),
        windows::LengthTask::SetValidData {
            current_size: 0,
            valid_length: i64::MAX
        }
    );
    assert_eq!(
        sized(limit + 1),
        windows::LengthTask::Finished(Err(AllocError::FileTooLarge))
    );
}

#[test]
fn windows_outcome_is_that_of_the_task() {
    let cloned = || {
        let checked = windows::try_fast_preallocate(10, 100)
            .step(windows::PreallocationEvent::PrivilegeChecked(true));
        assert_eq!(
            checked,
            windows::Preallocation::CloneHandle {
                current_size: 10,
                size: 100
            }
        );
        checked
    };
    let running = || cloned().step(windows::PreallocationEvent::HandleCloned(Ok(())));
    assert_eq!(
        cloned().step(windows::PreallocationEvent::HandleCloned(Err("handles"))),
        windows::Preallocation::Finished(Err(AllocError::Os("handles")))
    );
    assert_eq!(
        running(),
        windows::Preallocation::RunTask {
            current_size: 10,
            size: 100
        }
    );
    assert_eq!(
        running().step(windows::PreallocationEvent::TaskEnded(Ok(Ok(true)))),
        windows::Preallocation::Finished(Ok(true))
    );
    assert_eq!(
        running().step(windows::PreallocationEvent::TaskEnded(Ok(Ok(false)))),
        windows::Preallocation::Finished(Ok(false))
    );
    assert_eq!(
        running().step(windows::PreallocationEvent::TaskEnded(Ok(Err(
            AllocError::FileTooLarge
        )))),
        windows::Preallocation::Finished(Err(AllocError::FileTooLarge))
    );
    assert_eq!(
        running().step(windows::PreallocationEvent::TaskEnded(Err("cancelled"))),
        windows::Preallocation::Finished(Err(AllocError::Os("cancelled")))
    );
}
