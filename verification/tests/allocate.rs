use file_alloc::{
    AllocError, Allocation, AllocationEvent, Disk, FileAlloc, MemoryError, MemoryFile, ZeroFill,
    ZeroFillEvent, CHUNK_SIZE,
};

/// A disk with room for the test, with or without the fast path.
fn disk(fallocate: bool) -> Disk {
    Disk {
        capacity: 16 * 1024 * 1024,
        write_limit: usize::MAX,
        fallocate,
    }
}

fn file_with(contents: &[u8], fallocate: bool) -> MemoryFile {
    MemoryFile {
        contents: contents.to_vec(),
        position: contents.len() as u64,
        disk: disk(fallocate),
    }
}

fn empty_file(fallocate: bool) -> MemoryFile {
    file_with(b"", fallocate)
}

#[test]
fn test_allocate_basic() {
    for fallocate in [true, false] {
        let mut file = empty_file(fallocate);
        let target_size = 5 * 1024 * 1024;
        assert_eq!(file.allocate(target_size), Ok(()));
        assert_eq!(file.length(), target_size);
    }
}

#[test]
fn test_allocate_idempotency() {
    for fallocate in [true, false] {
        let mut file = empty_file(fallocate);
        assert_eq!(file.allocate(2 * 1024 * 1024), Ok(()));
        let size1 = file.length();
        assert_eq!(file.allocate(1024 * 1024), Ok(()));
        let size2 = file.length();
        assert_eq!(size1, 2 * 1024 * 1024);
        assert_eq!(size1, size2);
    }
}

#[test]
fn test_allocate_large_chunk() {
    for fallocate in [true, false] {
        let mut file = empty_file(fallocate);
        let target_size = 2 * 1024 * 1024 + 512 * 1024;
        assert_eq!(file.allocate(target_size), Ok(()));
        assert_eq!(file.length(), target_size);

        let end = file.length();
        assert_eq!(file.seek(end), Ok(target_size));
        assert_eq!(file.write(b"end"), Ok(3));
        assert_eq!(file.flush(), Ok(()));
        assert_eq!(file.length(), target_size + 3);
    }
}

#[test]
fn test_allocate_zero_verification() {
    for fallocate in [true, false] {
        let mut file = empty_file(fallocate);
        let target_size = 100 * 1024;
        assert_eq!(file.allocate(target_size), Ok(()));
        assert_eq!(file.contents.len() as u64, target_size);
        assert!(file.contents.iter().all(|&b| b == 0));
    }
}

#[test]
fn test_allocate_append() {
    for fallocate in [true, false] {
        let initial_data = b"0123456789";
        let mut file = empty_file(fallocate);
        assert_eq!(file.write(initial_data), Ok(10));
        assert_eq!(file.flush(), Ok(()));

        assert_eq!(file.allocate(100), Ok(()));
        assert_eq!(file.contents.len(), 100);
        assert_eq!(&file.contents[0..10], initial_data);
        assert!(file.contents[10..].iter().all(|&b| b == 0));
    }
}

#[test]
fn test_allocate_size_zero() {
    for fallocate in [true, false] {
        let mut file = empty_file(fallocate);
        assert_eq!(file.allocate(0), Ok(()));
        assert_eq!(file.length(), 0);
    }
}

#[test]
fn test_allocate_size_zero_preserves_data() {
    for fallocate in [true, false] {
        let initial = b"0123456789";
        let mut file = empty_file(fallocate);
        assert_eq!(file.write(initial), Ok(initial.len()));
        assert_eq!(file.flush(), Ok(()));

        assert_eq!(file.allocate(0), Ok(()));
        assert_eq!(file.length(), initial.len() as u64);
        assert_eq!(&file.contents, initial);
    }
}

#[test]
fn test_allocate_idempotent_exact() {
    for fallocate in [true, false] {
        let mut file = empty_file(fallocate);
        let size = 1024 * 1024u64;
        assert_eq!(file.allocate(size), Ok(()));
        assert_eq!(file.allocate(size), Ok(()));
        assert_eq!(file.length(), size);
    }
}

#[test]
fn test_allocate_grow_in_steps() {
    for fallocate in [true, false] {
        let mut file = empty_file(fallocate);
        assert_eq!(file.allocate(1024 * 1024), Ok(()));
        assert_eq!(file.allocate(2 * 1024 * 1024), Ok(()));
        assert_eq!(file.allocate(4 * 1024 * 1024), Ok(()));
        assert_eq!(file.length(), 4 * 1024 * 1024);
    }
}

#[test]
fn test_allocate_chunk_boundary() {
    for fallocate in [true, false] {
        let mut file = empty_file(fallocate);
        let size = CHUNK_SIZE as u64;
        assert_eq!(file.allocate(size), Ok(()));
        assert_eq!(file.length(), size);
        assert!(file.contents.iter().all(|&b| b == 0));
    }
}

#[test]
fn test_allocate_chunk_plus_one() {
    for fallocate in [true, false] {
        let mut file = empty_file(fallocate);
        let size = CHUNK_SIZE as u64 + 1;
        assert_eq!(file.allocate(size), Ok(()));
        assert_eq!(file.length(), size);
    }
}

#[test]
fn test_allocate_tiny_sizes() {
    for fallocate in [true, false] {
        let mut file = empty_file(fallocate);
        assert_eq!(file.allocate(1), Ok(()));
        assert_eq!(file.length(), 1);
        assert_eq!(file.allocate(100), Ok(()));
        assert_eq!(file.length(), 100);
    }
}

#[test]
fn test_allocate_preserves_existing_content() {
    for fallocate in [true, false] {
        let initial = b"payload";
        let mut file = empty_file(fallocate);
        assert_eq!(file.write(initial), Ok(initial.len()));
        assert_eq!(file.flush(), Ok(()));

        assert_eq!(file.allocate(1024), Ok(()));
        assert_eq!(file.contents.len(), 1024);
        assert_eq!(&file.contents[0..initial.len()], initial);
        assert!(file.contents[initial.len()..].iter().all(|&b| b == 0));
    }
}

#[test]
fn test_allocate_reopen_persists() {
    for fallocate in [true, false] {
        let stored = {
            let mut file = empty_file(fallocate);
            assert_eq!(file.allocate(3 * 1024 * 1024), Ok(()));
            file.contents
        };
        let reopened = file_with(&stored, fallocate);
        assert_eq!(reopened.length(), 3 * 1024 * 1024);
    }
}

#[test]
fn test_allocate_then_append_and_read() {
    for fallocate in [true, false] {
        let mut file = empty_file(fallocate);
        let size = 1024u64;
        assert_eq!(file.allocate(size), Ok(()));
        let end = file.length();
        assert_eq!(file.seek(end), Ok(size));
        assert_eq!(file.write(b"end"), Ok(3));
        assert_eq!(file.flush(), Ok(()));
        assert_eq!(file.length(), size + 3);
        assert_eq!(&file.contents[(usize::try_from(size).unwrap())..], b"end");
    }
}

#[test]
fn test_zero_fill_basic() {
    let mut file = empty_file(false);
    assert_eq!(file.zero_fill(0, 4096), Ok(()));
    assert_eq!(file.length(), 4096);
    assert!(file.contents.iter().all(|&b| b == 0));
}

#[test]
fn test_zero_fill_from_offset() {
    let mut file = empty_file(false);
    assert_eq!(file.write(b"hello"), Ok(5));
    assert_eq!(file.flush(), Ok(()));
    assert_eq!(file.zero_fill(5, 100), Ok(()));
    assert_eq!(file.length(), 100);
    assert_eq!(&file.contents[0..5], b"hello");
    assert!(file.contents[5..].iter().all(|&b| b == 0));
}

#[test]
fn test_zero_fill_equal_noop() {
    let mut file = empty_file(false);
    assert_eq!(file.write(&[0u8; 100]), Ok(100));
    assert_eq!(file.flush(), Ok(()));
    assert_eq!(file.zero_fill(100, 100), Ok(()));
    assert_eq!(file.length(), 100);
}

#[test]
fn test_zero_fill_large() {
    let mut file = empty_file(false);
    let size = (CHUNK_SIZE as u64) * 3;
    assert_eq!(file.zero_fill(0, size), Ok(()));
    assert_eq!(file.length(), size);
    assert!(file.contents.iter().all(|&b| b == 0));
}

#[test]
fn zero_fill_overwrites_and_keeps_the_rest() {
    let mut file = file_with(b"abcdefgh", false);
    assert_eq!(file.zero_fill(2, 5), Ok(()));
    assert_eq!(&file.contents, b"ab\0\0\0fgh");
    assert_eq!(file.position, 5);

    let mut file = file_with(b"ab", false);
    assert_eq!(file.zero_fill(4, 6), Ok(()));
    assert_eq!(&file.contents, b"ab\0\0\0\0");

    let mut file = file_with(b"ab", false);
    assert_eq!(file.zero_fill(2, 1), Ok(()));
    assert_eq!(&file.contents, b"ab");
}

#[test]
fn short_writes_add_up() {
    let mut file = file_with(b"head", false);
    file.disk.write_limit = 3;
    assert_eq!(file.allocate(25), Ok(()));
    assert_eq!(file.contents.len(), 25);
    assert_eq!(&file.contents[..4], b"head");
    assert!(file.contents[4..].iter().all(|&b| b == 0));
    assert_eq!(file.position, 25);
}

#[test]
fn full_disk_is_an_os_error() {
    for fallocate in [true, false] {
        let mut file = file_with(b"head", fallocate);
        file.disk.capacity = 10;
        assert_eq!(
            file.allocate(11),
            Err(AllocError::Os(MemoryError::NoSpace))
        );
        assert_eq!(&file.contents, b"head\0\0\0\0\0\0");
        assert_eq!(file.allocate(10), Ok(()));
        assert_eq!(&file.contents, b"head\0\0\0\0\0\0");
    }
}

#[test]
fn write_of_no_byte_is_write_zero() {
    let mut file = file_with(b"head", false);
    file.disk.write_limit = 0;
    assert_eq!(file.allocate(5), Err(AllocError::WriteZero));
    assert_eq!(&file.contents, b"head");
    assert_eq!(file.allocate(4), Ok(()));
}

#[test]
fn fast_path_of_the_file_in_memory() {
    let mut file = file_with(b"head", true);
    file.position = 1;
    assert_eq!(file.allocate(6), Ok(()));
    assert_eq!(&file.contents, b"head\0\0");
    assert_eq!(file.position, 1);

    assert_eq!(file.fallocate(3, 5), Ok(()));
    assert_eq!(&file.contents, b"head\0\0\0\0");
    file.disk.capacity = 8;
    assert_eq!(file.fallocate(8, 1), Err(MemoryError::NoSpace));
    assert_eq!(file.fallocate(u64::MAX, u64::MAX), Err(MemoryError::NoSpace));
    file.disk.fallocate = false;
    assert_eq!(file.fallocate(0, 1), Err(MemoryError::Unsupported));
    assert_eq!(&file.contents, b"head\0\0\0\0");
}

#[test]
fn write_to_the_file_in_memory() {
    let mut file = file_with(b"abcd", false);
    assert_eq!(file.write(b""), Ok(0));
    assert_eq!(file.seek(2), Ok(2));
    assert_eq!(file.write(b"XYZ"), Ok(3));
    assert_eq!(&file.contents, b"abXYZ");
    assert_eq!(file.seek(7), Ok(7));
    file.disk.capacity = 8;
    assert_eq!(file.write(b"pq"), Ok(1));
    assert_eq!(&file.contents, b"abXYZ\0\0p");
    assert_eq!(file.write(b"q"), Err(MemoryError::NoSpace));
}

type Machine = Allocation<&'static str>;

fn filling(fill: ZeroFill<&'static str>) -> Machine {
    Allocation::ZeroFill(fill)
}

#[test]
fn long_file_needs_one_call() {
    let start = Machine::start(7);
    assert_eq!(start, Allocation::ReadLength { size: 7 });
    assert_eq!(
        start.step(AllocationEvent::LengthRead(Ok(7))),
        Allocation::Finished(Ok(()))
    );
    assert_eq!(
        Machine::start(7).step(AllocationEvent::LengthRead(Ok(8))),
        Allocation::Finished(Ok(()))
    );
}

#[test]
fn unread_length_is_an_error() {
    assert_eq!(
        Machine::start(7).step(AllocationEvent::LengthRead(Err("stat"))),
        Allocation::Finished(Err(AllocError::Os("stat")))
    );
    assert_eq!(
        Machine::start(0).step(AllocationEvent::LengthRead(Err("stat"))),
        Allocation::Finished(Err(AllocError::Os("stat")))
    );
}

fn tried(outcome: Result<bool, AllocError<&'static str>>) -> Machine {
    let state = Machine::start(9).step(AllocationEvent::LengthRead(Ok(4)));
    assert_eq!(
        state,
        Allocation::TryFastPreallocate {
            current_size: 4,
            size: 9
        }
    );
    state.step(AllocationEvent::Preallocated(outcome))
}

#[test]
fn fast_path_ends_the_allocation_or_falls_back() {
    assert_eq!(tried(Ok(true)), Allocation::Finished(Ok(())));
    for outcome in [
        Ok(false),
        Err(AllocError::Os("clone")),
        Err(AllocError::FileTooLarge),
        Err(AllocError::WriteZero),
    ] {
        assert_eq!(
            tried(outcome),
            filling(ZeroFill::Seek {
                current_size: 4,
                target_size: 9
            })
        );
    }
}

#[test]
fn fill_goes_on_until_nothing_is_left() {
    let state = tried(Ok(false)).step(AllocationEvent::ZeroFill(ZeroFillEvent::Sought(Ok(4))));
    assert_eq!(
        state,
        filling(ZeroFill::Write {
            current_size: 4,
            target_size: 9,
            to_write: 5
        })
    );
    let state = state.step(AllocationEvent::ZeroFill(ZeroFillEvent::Written(Ok(2))));
    assert_eq!(
        state,
        filling(ZeroFill::Write {
            current_size: 6,
            target_size: 9,
            to_write: 3
        })
    );
    let state = state.step(AllocationEvent::ZeroFill(ZeroFillEvent::Written(Ok(3))));
    assert_eq!(state, filling(ZeroFill::Flush));
    assert_eq!(
        state.step(AllocationEvent::ZeroFill(ZeroFillEvent::Flushed(Ok(())))),
        Allocation::Finished(Ok(()))
    );
}

#[test]
fn failures_of_the_fill_are_the_error() {
    let sought = || tried(Ok(false)).step(AllocationEvent::ZeroFill(ZeroFillEvent::Sought(Ok(4))));
    assert_eq!(
        tried(Ok(false)).step(AllocationEvent::ZeroFill(ZeroFillEvent::Sought(Err("seek")))),
        Allocation::Finished(Err(AllocError::Os("seek")))
    );
    assert_eq!(
        sought().step(AllocationEvent::ZeroFill(ZeroFillEvent::Written(Err("disk")))),
        Allocation::Finished(Err(AllocError::Os("disk")))
    );
    assert_eq!(
        sought().step(AllocationEvent::ZeroFill(ZeroFillEvent::Written(Ok(0)))),
        Allocation::Finished(Err(AllocError::WriteZero))
    );
    let written = sought().step(AllocationEvent::ZeroFill(ZeroFillEvent::Written(Ok(5))));
    assert_eq!(
        written.step(AllocationEvent::ZeroFill(ZeroFillEvent::Flushed(Err("sync")))),
        Allocation::Finished(Err(AllocError::Os("sync")))
    );
}

/// Runs an allocation for at most `calls` calls, then drops it. Returns how many it made.
fn allocate_for(file: &mut MemoryFile, size: u64, calls: usize) -> usize {
    let mut state: Allocation<MemoryError> = Allocation::start(size);
    for made in 0..calls {
        let event = match &state {
            Allocation::ReadLength { .. } => AllocationEvent::LengthRead(Ok(file.length())),
            Allocation::TryFastPreallocate { .. } => AllocationEvent::Preallocated(Ok(false)),
            Allocation::ZeroFill(ZeroFill::Seek { current_size, .. }) => {
                AllocationEvent::ZeroFill(ZeroFillEvent::Sought(file.seek(*current_size)))
            }
            Allocation::ZeroFill(ZeroFill::Write { to_write, .. }) => AllocationEvent::ZeroFill(
                ZeroFillEvent::Written(file.write(&vec![0u8; *to_write])),
            ),
            Allocation::ZeroFill(_) => {
                AllocationEvent::ZeroFill(ZeroFillEvent::Flushed(file.flush()))
            }
            Allocation::Finished(_) => return made,
        };
        state = state.step(event);
    }
    calls
}

#[test]
fn interrupted_allocation_can_be_made_again() {
    for calls in 0..12 {
        let mut file = file_with(b"data", false);
        file.disk.write_limit = 4;
        allocate_for(&mut file, 30, calls);
        assert_eq!(&file.contents[..4], b"data");
        assert!(file.contents.len() <= 30);
        assert!(file.contents[4..].iter().all(|&b| b == 0));

        assert_eq!(file.allocate(30), Ok(()));
        assert_eq!(file.contents.len(), 30);
        assert_eq!(&file.contents[..4], b"data");
        assert!(file.contents[4..].iter().all(|&b| b == 0));
    }
}

/// A file that accepts writes of up to four bytes and lets the last one arrive later.
struct LaggingFile {
    file: MemoryFile,
    in_flight: usize,
}

impl LaggingFile {
    /// Lets what is in flight arrive.
    fn wait(&mut self) {
        assert_eq!(self.file.write(&vec![0u8; self.in_flight]), Ok(self.in_flight));
        self.in_flight = 0;
    }

    /// Makes the next call of an allocation without a fast path.
    fn step(&mut self, state: Allocation<MemoryError>) -> Allocation<MemoryError> {
        let event = match &state {
            Allocation::ReadLength { .. } => AllocationEvent::LengthRead(Ok(self.file.length())),
            Allocation::TryFastPreallocate { .. } => AllocationEvent::Preallocated(Ok(false)),
            Allocation::ZeroFill(ZeroFill::Seek { current_size, .. }) => {
                self.wait();
                AllocationEvent::ZeroFill(ZeroFillEvent::Sought(self.file.seek(*current_size)))
            }
            Allocation::ZeroFill(ZeroFill::Write { to_write, .. }) => {
                self.wait();
                self.in_flight = (*to_write).min(4);
                AllocationEvent::ZeroFill(ZeroFillEvent::Written(Ok(self.in_flight)))
            }
            Allocation::ZeroFill(_) => {
                self.wait();
                AllocationEvent::ZeroFill(ZeroFillEvent::Flushed(Ok(())))
            }
            Allocation::Finished(_) => return state,
        };
        state.step(event)
    }

    /// Makes at most `calls` calls of an allocation.
    fn allocate_for(&mut self, size: u64, calls: usize) -> Allocation<MemoryError> {
        let mut state: Allocation<MemoryError> = Allocation::start(size);
        for _ in 0..calls {
            state = self.step(state);
        }
        state
    }
}

#[test]
fn interrupted_allocation_is_made_again_with_bytes_in_flight() {
    for calls in 0..13 {
        for calls_again in 0..13 {
            let mut file = LaggingFile {
                file: file_with(b"data", false),
                in_flight: 0,
            };
            file.allocate_for(30, calls);
            file.allocate_for(30, calls_again);
            assert_eq!(&file.file.contents[..4], b"data");
            assert!(file.file.contents[4..].iter().all(|&b| b == 0));
            assert_eq!(file.allocate_for(30, 100), Allocation::Finished(Ok(())));
            assert_eq!(file.file.contents.len(), 30);
            assert_eq!(&file.file.contents[..4], b"data");
            assert!(file.file.contents[4..].iter().all(|&b| b == 0));
        }
    }
}

#[test]
fn abandoned_fast_path_may_run_on_beside_the_next_attempt() {
    for size_of_late_growth in [10, 30] {
        for late in 0..13 {
            let mut file = LaggingFile {
                file: file_with(b"data", false),
                in_flight: 0,
            };
            // The first attempt is dropped in its fast path, which acts after `late` calls of
            // the second one.
            file.allocate_for(30, 1);
            let mut state: Allocation<MemoryError> = Allocation::start(30);
            let mut calls = 0;
            while !matches!(state, Allocation::Finished(_)) {
                if calls == late && file.file.contents.len() < size_of_late_growth {
                    file.file.contents.resize(size_of_late_growth, 0);
                }
                state = file.step(state);
                calls += 1;
            }
            assert_eq!(state, Allocation::Finished(Ok(())));
            assert_eq!(file.file.contents.len(), 30);
            assert_eq!(&file.file.contents[..4], b"data");
            assert!(file.file.contents[4..].iter().all(|&b| b == 0));
        }
    }
}

#[test]
fn position_after_an_allocation() {
    let mut file = file_with(b"data", true);
    file.position = 2;
    assert_eq!(file.allocate(3), Ok(()));
    assert_eq!(file.position, 2);
    assert_eq!(file.allocate(10), Ok(()));
    assert_eq!(file.position, 2);
    file.disk.fallocate = false;
    assert_eq!(file.allocate(20), Ok(()));
    assert_eq!(file.position, 20);
}

#[test]
fn one_write_takes_one_chunk() {
    // Length, fast path, seek, four writes, flush.
    let mut file = empty_file(false);
    let size = 3 * CHUNK_SIZE as u64 + 1;
    assert_eq!(allocate_for(&mut file, size, 100), 8);
    assert_eq!(file.length(), size);

    // At the worst, one write for each byte.
    let mut file = file_with(b"data", false);
    file.disk.write_limit = 1;
    assert_eq!(allocate_for(&mut file, 10, 100), 4 + 6);

    assert_eq!(allocate_for(&mut file, 10, 100), 1);
}

#[test]
fn fill_reaches_the_largest_size() {
    let fill: ZeroFill<()> = ZeroFill::Write {
        current_size: u64::MAX - 1,
        target_size: u64::MAX,
        to_write: 1,
    };
    assert_eq!(fill.step(ZeroFillEvent::Written(Ok(1))), ZeroFill::Flush);

    let fill: ZeroFill<()> = file_alloc::async_zero_fill(0, u64::MAX);
    assert_eq!(
        fill.step(ZeroFillEvent::Sought(Ok(0))),
        ZeroFill::Write {
            current_size: 0,
            target_size: u64::MAX,
            to_write: CHUNK_SIZE
        }
    );
}
