//! The syscall boundary: decoding a call from the saved registers, and the
//! decisions of each call. The collaborators (console, scheduler, the storage
//! behind the file table) are driven by the caller with what these return.

use crate::net::icmp::{send_echo_request, send_echo_spec, IcmpEvent};
use crate::net::ip::{drain_events, process_packets, spec_addr_from_be, IpV4Addr};
use crate::net::loopback::LoopbackInterface;
use crate::net::NetError;
use crate::trap::TrapFrame;
use vstd::prelude::*;
use vstd::slice::slice_to_vec;

verus! {

pub const SYS_PUTCHAR: u32 = 1;
pub const SYS_GETCHAR: u32 = 2;
pub const SYS_EXIT: u32 = 3;
pub const SYS_READFILE: u32 = 4;
pub const SYS_WRITEFILE: u32 = 5;
pub const SYS_PING: u32 = 6;

/// Result of READFILE and WRITEFILE for a name the file system does not hold.
pub const FILE_NOT_FOUND: u32 = 0xFFFF_FFFE;

/// Result of PING when the echo request could not be sent.
pub const PING_FAILED: u32 = 0xFFFF_FFFF;

/// Identifier of the echo requests that PING sends.
pub const PING_ID: u16 = 0x1234;

/// Bytes of zero payload in the echo requests that PING sends.
pub const PING_DATA_LEN: usize = 32;

/// A syscall, decoded from the number in `a3` and the arguments in `a0` to `a2`.
#[derive(Debug, Clone, Copy, PartialEq, Eq, Structural)]
pub enum Syscall {
    Putchar { ch: u8 },
    Getchar,
    Exit,
    ReadFile { filename: u32, buf: u32, len: u32 },
    WriteFile { filename: u32, buf: u32, len: u32 },
    Ping { dst: u32, seq: u16 },
}

/// The call that the registers of `f` ask for; `None` for an unknown number.
pub open spec fn spec_decode(f: TrapFrame) -> Option<Syscall> {
    if f.a3 == SYS_PUTCHAR {
        Some(Syscall::Putchar { ch: f.a0 as u8 })
    } else if f.a3 == SYS_GETCHAR {
        Some(Syscall::Getchar)
    } else if f.a3 == SYS_EXIT {
        Some(Syscall::Exit)
    } else if f.a3 == SYS_READFILE {
        Some(Syscall::ReadFile { filename: f.a0, buf: f.a1, len: f.a2 })
    } else if f.a3 == SYS_WRITEFILE {
        Some(Syscall::WriteFile { filename: f.a0, buf: f.a1, len: f.a2 })
    } else if f.a3 == SYS_PING {
        Some(Syscall::Ping { dst: f.a0, seq: f.a1 as u16 })
    } else {
        None
    }
}

/// Decodes the syscall in a saved frame; `None` for a number outside the set,
/// which is fatal.
pub fn decode_syscall(f: &TrapFrame) -> (r: Option<Syscall>)
    ensures
        r == spec_decode(*f),
{
    if f.a3 == SYS_PUTCHAR {
        Some(Syscall::Putchar { ch: f.a0 as u8 })
    } else if f.a3 == SYS_GETCHAR {
        Some(Syscall::Getchar)
    } else if f.a3 == SYS_EXIT {
        Some(Syscall::Exit)
    } else if f.a3 == SYS_READFILE {
        Some(Syscall::ReadFile { filename: f.a0, buf: f.a1, len: f.a2 })
    } else if f.a3 == SYS_WRITEFILE {
        Some(Syscall::WriteFile { filename: f.a0, buf: f.a1, len: f.a2 })
    } else if f.a3 == SYS_PING {
        Some(Syscall::Ping { dst: f.a0, seq: f.a1 as u16 })
    } else {
        None
    }
}

/// One poll of GETCHAR: a console result of zero or more is a byte, which goes
/// into `a0` and ends the call; a negative result means none is ready, and the
/// caller yields and polls again.
pub fn getchar_step(f: &mut TrapFrame, polled: i32) -> (done: bool)
    ensures
        done == (polled >= 0),
        done ==> *final(f) == (TrapFrame { a0: polled as u32, ..*old(f) }),
        !done ==> *final(f) == *old(f),
{
    if polled >= 0 {
        f.a0 = polled as u32;
        true
    } else {
        false
    }
}

/// GETCHAR driven by the console results `polls`, one `getchar_step` per poll:
/// how many times it yields, and the frame it returns with, if it returns.
pub open spec fn getchar_run(f: TrapFrame, polls: Seq<i32>) -> (nat, Option<TrapFrame>)
    decreases polls.len(),
{
    if polls.len() == 0 {
        (0, None)
    } else if polls[0] >= 0 {
        (0, Some(TrapFrame { a0: polls[0] as u32, ..f }))
    } else {
        let (yields, r) = getchar_run(f, polls.drop_first());
        (yields + 1, r)
    }
}

/// GETCHAR never returns "no data": when the console reports none available `n`
/// times and then a byte, the call yields exactly `n` times and returns that
/// byte in `a0`; before the byte comes, it has not returned.
pub proof fn lemma_getchar_retry(f: TrapFrame, polls: Seq<i32>, n: int)
    requires
        0 <= n < polls.len(),
        forall|i: int| 0 <= i < n ==> polls[i] < 0,
        polls[n] >= 0,
    ensures
        getchar_run(f, polls) == (n as nat, Some(TrapFrame { a0: polls[n] as u32, ..f })),
        forall|k: int| 0 <= k <= n ==> (#[trigger] getchar_run(f, polls.take(k))).1 is None,
    decreases n,
{
    if n > 0 {
        let rest = polls.drop_first();
        assert forall|i: int| 0 <= i < n - 1 implies rest[i] < 0 by {
            assert(rest[i] == polls[i + 1]);
        }
        lemma_getchar_retry(f, rest, n - 1);
        assert forall|k: int| 0 <= k <= n implies (#[trigger] getchar_run(f, polls.take(k))).1 is None by {
            if k > 0 {
                assert(polls.take(k).drop_first() =~= rest.take(k - 1));
                assert(polls.take(k)[0] < 0);
                assert(getchar_run(f, rest.take(k - 1)).1 is None);
            }
        }
    } else {
        assert forall|k: int| 0 <= k <= n implies (#[trigger] getchar_run(f, polls.take(k))).1 is None by {
            assert(polls.take(k).len() == 0);
        }
    }
}

/// The length of the NUL-terminated string that starts at `start` in `mem`, NUL
/// not counted; `None` when no NUL follows `start`.
pub fn c_str_len(mem: &[u8], start: usize) -> (r: Option<usize>)
    ensures
        r matches Some(n) ==> start + n < mem@.len() && mem@[start + n] == 0 && forall|i: int|
            start <= i < start + n ==> mem@[i] != 0,
        r is None ==> forall|i: int| start <= i < mem@.len() ==> mem@[i] != 0,
{
    let mut i: usize = start;
    while i < mem.len()
        invariant
            start <= i,
            forall|k: int| start <= k < i ==> mem@[k] != 0,
        decreases mem@.len() - i,
    {
        if mem[i] == 0 {
            return Some(i - start);
        }
        i = i + 1;
    }
    None
}

/// A file as the file system holds it: its name, its storage, and how many bytes
/// of the storage are in use.
pub struct FileRecord {
    pub name: Vec<u8>,
    pub data: Vec<u8>,
    pub size: usize,
}

/// The in-memory file table that READFILE and WRITEFILE work on.
pub struct FileSystem {
    pub files: Vec<FileRecord>,
}

impl FileSystem {
    /// Every file's size lies within its storage.
    pub open spec fn wf(&self) -> bool {
        forall|i: int|
            0 <= i < self.files@.len() ==> #[trigger] self.files@[i].size <= self.files@[i].data@.len()
    }

    pub open spec fn name_at(&self, i: int, name: Seq<u8>) -> bool {
        0 <= i < self.files@.len() && self.files@[i].name@ == name
    }

    /// The first file named `name`, if any.
    pub open spec fn spec_lookup(&self, name: Seq<u8>) -> Option<int> {
        if exists|i: int| self.name_at(i, name) {
            Some(
                choose|i: int|
                    self.name_at(i, name) && forall|j: int| 0 <= j < i ==> !self.name_at(j, name),
            )
        } else {
            None
        }
    }

    /// Finds the first file named `name`.
    pub fn lookup(&self, name: &[u8]) -> (r: Option<usize>)
        ensures
            r matches Some(i) ==> i < self.files@.len() && self.spec_lookup(name@) == Some(
                i as int,
            ),
            r is None ==> self.spec_lookup(name@) is None,
    {
        let mut i: usize = 0;
        while i < self.files.len()
            invariant
                i <= self.files@.len(),
                forall|j: int| 0 <= j < i ==> !self.name_at(j, name@),
            decreases self.files@.len() - i,
        {
            if bytes_equal(self.files[i].name.as_slice(), name) {
                proof {
                    let k = choose|k: int|
                        self.name_at(k, name@) && forall|j: int|
                            0 <= j < k ==> !self.name_at(j, name@);
                    assert(self.name_at(i as int, name@));
                    if k < i {
                    } else if k > i {
                        assert(!self.name_at(i as int, name@));
                    }
                }
                return Some(i);
            }
            i = i + 1;
        }
        None
    }
}

/// Whether two byte strings are equal.
fn bytes_equal(a: &[u8], b: &[u8]) -> (r: bool)
    ensures
        r == (a@ == b@),
{
    if a.len() != b.len() {
        return false;
    }
    let mut i: usize = 0;
    while i < a.len()
        invariant
            i <= a@.len(),
            a@.len() == b@.len(),
            forall|j: int| 0 <= j < i ==> a@[j] == b@[j],
        decreases a@.len() - i,
    {
        if a[i] != b[i] {
            return false;
        }
        i = i + 1;
    }
    assert(a@ =~= b@);
    true
}

/// The smaller of a requested length and a file size.
pub open spec fn transfer_len(requested: u32, size: usize) -> nat {
    if (requested as nat) < (size as nat) {
        requested as nat
    } else {
        size as nat
    }
}

/// The register value for the outcome of READFILE or WRITEFILE: the number of
/// bytes moved, or `FILE_NOT_FOUND`.
pub fn file_result_code(r: Option<u32>) -> (code: u32)
    ensures
        r is None ==> code == FILE_NOT_FOUND,
        r matches Some(n) ==> code == n,
{
    match r {
        Some(n) => n,
        None => FILE_NOT_FOUND,
    }
}

/// READFILE: copies up to `max_len` bytes of the file named `name` into the start
/// of `dest`, and returns how many. `None`, with `dest` untouched, when no file
/// has that name.
pub fn sys_readfile(fs: &FileSystem, name: &[u8], dest: &mut Vec<u8>, max_len: u32) -> (r: Option<u32>)
    requires
        fs.wf(),
        old(dest)@.len() >= max_len,
    ensures
        fs.spec_lookup(name@) is None ==> r is None && final(dest)@ == old(dest)@,
        fs.spec_lookup(name@) matches Some(i) ==> {
            let n = transfer_len(max_len, fs.files@[i].size);
            &&& r == Some(n as u32)
            &&& final(dest)@ == fs.files@[i].data@.take(n as int) + old(dest)@.skip(n as int)
        },
{
    let i = match fs.lookup(name) {
        Some(i) => i,
        None => {
            return None;
        },
    };
    let file = &fs.files[i];
    assert(file.size <= file.data@.len());
    let ghost data = file.data@;
    let n: u32 = if (max_len as usize) < file.size {
        max_len
    } else {
        file.size as u32
    };
    let mut j: u32 = 0;
    while j < n
        invariant
            j <= n,
            n <= data.len(),
            data == file.data@,
            n <= old(dest)@.len(),
            dest@.len() == old(dest)@.len(),
            forall|k: int| 0 <= k < j ==> dest@[k] == data[k],
            forall|k: int| j <= k < dest@.len() ==> dest@[k] == old(dest)@[k],
        decreases n - j,
    {
        dest.set(j as usize, file.data[j as usize]);
        j = j + 1;
    }
    assert(dest@ =~= data.take(n as int) + old(dest)@.skip(n as int));
    assert(n == transfer_len(max_len, file.size));
    Some(n)
}

/// WRITEFILE: overwrites the start of the file named `name` with up to `len`
/// bytes of `src`, no more than the file's size, and makes that the file's new
/// size; returns how many bytes were written. `None`, with the file table
/// untouched, when no file has that name. Persisting the table is left to the
/// caller.
pub fn sys_writefile(fs: &mut FileSystem, name: &[u8], src: &[u8], len: u32) -> (r: Option<u32>)
    requires
        old(fs).wf(),
        src@.len() >= len,
    ensures
        final(fs).wf(),
        old(fs).spec_lookup(name@) is None ==> r is None && *final(fs) == *old(fs),
        old(fs).spec_lookup(name@) matches Some(i) ==> {
            let n = transfer_len(len, old(fs).files@[i].size);
            let file = final(fs).files@[i];
            &&& r == Some(n as u32)
            &&& final(fs).files@.len() == old(fs).files@.len()
            &&& forall|j: int|
                0 <= j < final(fs).files@.len() && j != i ==> final(fs).files@[j] == old(fs).files@[j]
            &&& file.name@ == old(fs).files@[i].name@
            &&& file.data@ == src@.take(n as int) + old(fs).files@[i].data@.skip(n as int)
            &&& file.size == n
        },
{
    let i = match fs.lookup(name) {
        Some(i) => i,
        None => {
            return None;
        },
    };
    let old_size = fs.files[i].size;
    let n: u32 = if (len as usize) < old_size {
        len
    } else {
        old_size as u32
    };
    let mut data = slice_to_vec(fs.files[i].data.as_slice());
    let name_copy = slice_to_vec(fs.files[i].name.as_slice());
    let ghost old_data = data@;
    let mut j: u32 = 0;
    while j < n
        invariant
            j <= n,
            n <= old_data.len(),
            data@.len() == old_data.len(),
            forall|k: int| 0 <= k < j ==> data@[k] == src@[k],
            forall|k: int| j <= k < data@.len() ==> data@[k] == old_data[k],
            n <= src@.len(),
        decreases n - j,
    {
        data.set(j as usize, src[j as usize]);
        j = j + 1;
    }
    assert(data@ =~= src@.take(n as int) + old_data.skip(n as int));
    fs.files.set(i, FileRecord { name: name_copy, data, size: n as usize });
    Some(n)
}

/// PING: sends an echo request with identifier `PING_ID` and `PING_DATA_LEN`
/// zero bytes to the address in `a0` (big-endian) with the sequence number in
/// `a1`, then drains the device once. `a0` becomes 0 when the request was sent,
/// with the events of the drain returned; otherwise `PING_FAILED`, with the
/// error returned and the device untouched.
pub fn sys_ping(lo: &mut LoopbackInterface, f: &mut TrapFrame) -> (r: Result<Vec<IcmpEvent>, NetError>)
    requires
        old(lo).wf(),
    ensures
        final(lo).wf(),
        ({
            let (q1, sent) = send_echo_spec(
                old(lo)@,
                8,
                spec_addr_from_be(old(f).a0),
                PING_ID,
                old(f).a1 as u16,
                Seq::new(PING_DATA_LEN as nat, |i: int| 0u8),
            );
            &&& sent is Ok ==> {
                &&& *final(f) == (TrapFrame { a0: 0, ..*old(f) })
                &&& final(lo)@.len() == 0
                &&& r matches Ok(events) && events@ == drain_events(q1)
            }
            &&& sent matches Err(e) ==> {
                &&& *final(f) == (TrapFrame { a0: PING_FAILED, ..*old(f) })
                &&& final(lo)@ == old(lo)@
                &&& r == Err::<Vec<IcmpEvent>, NetError>(e)
            }
        }),
{
    let dst = IpV4Addr::from_be_u32(f.a0);
    let seq = f.a1 as u16;
    let data: Vec<u8> = vec![0u8; PING_DATA_LEN];
    assert(data@ =~= Seq::new(PING_DATA_LEN as nat, |i: int| 0u8));
    match send_echo_request(lo, dst, PING_ID, seq, data.as_slice()) {
        Ok(()) => {
            let events = process_packets(lo);
            f.a0 = 0;
            Ok(events)
        },
        Err(e) => {
            f.a0 = PING_FAILED;
            Err(e)
        },
    }
}

} // verus!
