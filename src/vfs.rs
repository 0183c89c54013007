use vstd::prelude::*;

verus! {

/// A kernel object handle, as the system-call layer hands it out.
#[derive(PartialEq, Eq, Structural, Copy, Clone, Debug)]
pub struct ObjectHandle {
    pub id: u32,
}

/// Error code returned by a failed VFS call.
#[derive(PartialEq, Eq, Structural, Copy, Clone, Debug)]
pub struct Error {
    pub code: u32,
}

/// An opened VFS node of not yet known kind.
pub struct Node(pub ObjectHandle);

/// An opened file and its cursor.
pub struct File {
    handle: ObjectHandle,
    cursor: u64,
}

/// An opened directory.
pub struct Dir(pub ObjectHandle);

/// An opened symbolic link.
pub struct Symlink(pub ObjectHandle);

/// How a file is opened.
#[derive(PartialEq, Eq, Structural, Copy, Clone, Debug)]
pub enum FileOpenMode {
    NoAccess,
    ReadOnly,
    Execute,
}

/// How a file is mapped into memory.
#[derive(PartialEq, Eq, Structural, Copy, Clone, Debug)]
pub enum MemoryMapMode {
    /// Read-only mapping of a file
    ReadOnly,
    /// Executable mapping of a file
    Execute,
    /// Copy-on-write (used for executable files)
    COW,
    /// Allows writing to the backing file
    WriteBack,
}

/// Target of a seek.
#[derive(PartialEq, Eq, Structural, Copy, Clone, Debug)]
pub enum SeekFrom {
    Start(u64),
    End(i64),
    Current(i64),
}

/// Cursor position that a seek to `pos` reaches from `cursor` in a file of `size` bytes,
/// if it lies within `0..=u64::MAX`.
pub open spec fn seek_target(pos: SeekFrom, cursor: u64, size: u64) -> Option<u64> {
    let t: int = match pos {
        SeekFrom::Start(p) => p as int,
        SeekFrom::End(o) => size + o,
        SeekFrom::Current(o) => cursor + o,
    };
    if 0 <= t <= u64::MAX {
        Some(t as u64)
    } else {
        None
    }
}

impl FileOpenMode {
    /// Value passed to the kernel for this mode.
    pub fn code(&self) -> (r: u32)
        ensures
            r == match *self {
                FileOpenMode::NoAccess => 0u32,
                FileOpenMode::ReadOnly => 1u32,
                FileOpenMode::Execute => 2u32,
            },
    {
        match *self {
            FileOpenMode::NoAccess => 0,
            FileOpenMode::ReadOnly => 1,
            FileOpenMode::Execute => 2,
        }
    }
}

impl MemoryMapMode {
    /// Value passed to the kernel for this mode.
    pub fn code(&self) -> (r: u8)
        ensures
            r == match *self {
                MemoryMapMode::ReadOnly => 0u8,
                MemoryMapMode::Execute => 1u8,
                MemoryMapMode::COW => 2u8,
                MemoryMapMode::WriteBack => 3u8,
            },
    {
        match *self {
            MemoryMapMode::ReadOnly => 0,
            MemoryMapMode::Execute => 1,
            MemoryMapMode::COW => 2,
            MemoryMapMode::WriteBack => 3,
        }
    }
}

impl Node {
    pub fn from_handle(handle: ObjectHandle) -> (r: Node)
        ensures
            r.0 == handle,
    {
        Node(handle)
    }

    pub fn into_handle(self) -> (r: ObjectHandle)
        ensures
            r == self.0,
    {
        self.0
    }
}

impl Dir {
    pub fn from_handle(handle: ObjectHandle) -> (r: Dir)
        ensures
            r.0 == handle,
    {
        Dir(handle)
    }

    pub fn into_handle(self) -> (r: ObjectHandle)
        ensures
            r == self.0,
    {
        self.0
    }
}

impl Symlink {
    pub fn from_handle(handle: ObjectHandle) -> (r: Symlink)
        ensures
            r.0 == handle,
    {
        Symlink(handle)
    }

    pub fn into_handle(self) -> (r: ObjectHandle)
        ensures
            r == self.0,
    {
        self.0
    }
}

impl File {
    pub closed spec fn spec_handle(&self) -> ObjectHandle {
        self.handle
    }

    pub closed spec fn spec_cursor(&self) -> u64 {
        self.cursor
    }

    /// A file object for `handle`, with the cursor at the start.
    pub fn from_handle(handle: ObjectHandle) -> (r: File)
        ensures
            r.spec_handle() == handle,
            r.spec_cursor() == 0,
    {
        File { handle, cursor: 0 }
    }

    pub fn into_handle(self) -> (r: ObjectHandle)
        ensures
            r == self.spec_handle(),
    {
        self.handle
    }

    pub fn get_cursor(&self) -> (r: u64)
        ensures
            r == self.spec_cursor(),
    {
        self.cursor
    }

    pub fn set_cursor(&mut self, pos: u64)
        ensures
            final(self).spec_cursor() == pos,
            final(self).spec_handle() == old(self).spec_handle(),
    {
        self.cursor = pos;
    }

    /// Completes a read issued at the cursor with the kernel's `outcome`: on success the
    /// cursor moves past the bytes read; an error leaves it where it was.
    pub fn read(&mut self, outcome: Result<usize, Error>) -> (r: Result<usize, Error>)
        requires
            outcome matches Ok(n) ==> old(self).spec_cursor() + n <= u64::MAX,
        ensures
            r == outcome,
            final(self).spec_handle() == old(self).spec_handle(),
            outcome matches Ok(n) ==> final(self).spec_cursor() == old(self).spec_cursor() + n,
            outcome is Err ==> final(self).spec_cursor() == old(self).spec_cursor(),
    {
        match outcome {
            Ok(count) => {
                self.cursor = self.cursor + count as u64;
                Ok(count)
            },
            Err(e) => Err(e),
        }
    }

    /// Moves the cursor in a file of `size` bytes; `None`, with the cursor unchanged,
    /// when the target lies before the start or past the largest offset.
    pub fn seek(&mut self, pos: SeekFrom, size: u64) -> (r: Option<u64>)
        ensures
            r == seek_target(pos, old(self).spec_cursor(), size),
            final(self).spec_handle() == old(self).spec_handle(),
            r matches Some(p) ==> final(self).spec_cursor() == p,
            r is None ==> final(self).spec_cursor() == old(self).spec_cursor(),
    {
        let target: Option<u64> = match pos {
            SeekFrom::Start(p) => Some(p),
            SeekFrom::End(o) => offset_by(size, o),
            SeekFrom::Current(o) => offset_by(self.cursor, o),
        };
        match target {
            Some(p) => {
                self.cursor = p;
            },
            None => {},
        }
        target
    }
}

/// `base + ofs`, if it lies in `0..=u64::MAX`.
fn offset_by(base: u64, ofs: i64) -> (r: Option<u64>)
    ensures
        0 <= base + ofs <= u64::MAX ==> r == Some((base + ofs) as u64),
        !(0 <= base + ofs <= u64::MAX) ==> r is None,
{
    if ofs < 0 {
        let back: u64 = if ofs == i64::MIN {
            0x8000_0000_0000_0000u64
        } else {
            (-ofs) as u64
        };
        if back <= base {
            Some(base - back)
        } else {
            None
        }
    } else {
        let fwd = ofs as u64;
        if fwd <= u64::MAX - base {
            Some(base + fwd)
        } else {
            None
        }
    }
}

} // verus!
