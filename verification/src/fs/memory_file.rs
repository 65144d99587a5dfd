//! The in-memory reference backend.

use crate::fs::file::File;
use crate::fs::file::FileError;
use crate::fs::file::write_result;
use vstd::prelude::*;

verus! {

/// The fixed name under which the in-memory backend reports itself in
/// errors; it is not attached to any path on a medium.
pub open spec fn memory_file_name() -> Seq<char> {
    "MemoryFile"@
}

/// The name as an owned string, for building error values.
fn name_string() -> (s: String)
    ensures
        s@ == memory_file_name(),
{
    "MemoryFile".to_string()
}

/// Represents a file in memory.
///
/// This struct does not represent a real file. Instead it represents a file
/// stored in memory. This can be used during testing to create a fast
/// ephemeral file that does not depend on the operating system or the file
/// system.
pub struct MemoryFile {
    is_opened: bool,
    data: Vec<u8>,
}

impl MemoryFile {
    /// Creates a new [MemoryFile]: closed, with empty contents.
    pub fn new() -> (r: Self)
        ensures
            !r.is_open(),
            r.contents() == Seq::<u8>::empty(),
    {
        MemoryFile { is_opened: false, data: Vec::new() }
    }

    /// Create a new [MemoryFile] with a specified initial content.
    pub fn new_with_data(data: &[u8]) -> (r: Self)
        ensures
            !r.is_open(),
            r.contents() == data@,
    {
        MemoryFile { is_opened: false, data: vstd::slice::slice_to_vec(data) }
    }
}

impl File for MemoryFile {
    closed spec fn name(&self) -> Seq<char> {
        memory_file_name()
    }

    closed spec fn is_open(&self) -> bool {
        self.is_opened
    }

    closed spec fn contents(&self) -> Seq<u8> {
        self.data@
    }

    /// Creates and opens the file. The backing medium is the process's own
    /// memory, so "already exists" never stands in the way: the call fails
    /// only if the file is already opened, and keeps whatever contents the
    /// file was seeded with.
    fn create(&mut self) -> (r: Result<(), FileError>)
        ensures
            !old(self).is_open() ==> r is Ok && final(self).contents() == old(self).contents(),
    {
        if self.is_opened {
            return Err(FileError::FileOpened(name_string()));
        }
        self.is_opened = true;
        Ok(())
    }

    /// Closes the file.
    fn close(&mut self) -> (r: Result<(), FileError>) {
        if !self.is_opened {
            return Err(FileError::FileNotOpened(name_string()));
        }
        self.is_opened = false;
        Ok(())
    }

    /// Opens the file. The in-memory file always exists once constructed,
    /// so the call fails only if the file is already opened.
    fn open(&mut self) -> (r: Result<(), FileError>)
        ensures
            !old(self).is_open() ==> r is Ok,
    {
        if self.is_opened {
            return Err(FileError::FileOpened(name_string()));
        }
        self.is_opened = true;
        Ok(())
    }

    /// Deletes the file: it is merely marked non-existent, nothing is
    /// deallocated, and the call changes nothing the model can observe.
    fn delete(&mut self) -> (r: Result<(), FileError>)
        ensures
            !old(self).is_open() ==> final(self).contents() == old(self).contents(),
    {
        if self.is_opened {
            return Err(FileError::FileOpened(name_string()));
        }
        Ok(())
    }

    /// Write a block of data in the file at a specified offset, growing the
    /// buffer and zero-filling any gap when the range passes the end.
    fn write(&mut self, offset: usize, data: &[u8]) -> (r: Result<(), FileError>) {
        if !self.is_opened {
            return Err(FileError::FileNotOpened(name_string()));
        }
        let end_offset: usize = offset + data.len();
        if self.data.len() < end_offset {
            while self.data.len() < end_offset
                invariant
                    self.is_opened,
                    self.data@.len() <= end_offset,
                    old(self).data@.len() <= self.data@.len(),
                    forall|j: int|
                        0 <= j < old(self).data@.len() ==> self.data@[j] == old(self).data@[j],
                    forall|j: int|
                        old(self).data@.len() <= j < self.data@.len() ==> self.data@[j] == 0u8,
                decreases end_offset - self.data@.len(),
            {
                self.data.push(0u8);
            }
        }
        let ghost grown = self.data@;
        let data_len: usize = data.len();
        let mut i: usize = 0;
        while i < data_len
            invariant
                self.is_opened,
                i <= data_len,
                data_len == data@.len(),
                offset + data_len <= usize::MAX,
                self.data@.len() == grown.len(),
                offset + data_len <= grown.len(),
                grown.len() == write_result(old(self).data@, offset as int, data@).len(),
                forall|j: int| 0 <= j < old(self).data@.len() ==> grown[j] == old(self).data@[j],
                forall|j: int| old(self).data@.len() <= j < grown.len() ==> grown[j] == 0u8,
                forall|j: int|
                    0 <= j < grown.len() && !(offset <= j < offset + i) ==> self.data@[j]
                        == grown[j],
                forall|j: int| offset <= j < offset + i ==> self.data@[j] == data@[j - offset],
            decreases data_len - i,
        {
            self.data[offset + i] = data[i];
            i = i + 1;
        }
        proof {
            let target = write_result(old(self).data@, offset as int, data@);
            assert(self.data@.len() == target.len());
            assert forall|j: int| 0 <= j < target.len() implies self.data@[j] == target[j] by {
                if offset <= j < offset + data@.len() {
                    assert(self.data@[j] == data@[j - offset]);
                } else {
                    assert(self.data@[j] == grown[j]);
                }
            }
            assert(self.data@ =~= target);
        }
        Ok(())
    }

    /// Read a block of data from the file at a specified offset into a
    /// buffer. The size of the data read is based on the size of the buffer,
    /// and the buffer is only filled when the whole range is inside the
    /// file.
    fn read(self, offset: usize, buffer: &mut Vec<u8>) -> (r: Result<(), FileError>) {
        if !self.is_opened {
            return Err(FileError::FileNotOpened(name_string()));
        }
        let end_offset: usize = offset + buffer.len();
        if self.data.len() < end_offset {
            return Err(
                FileError::EndOfFileRead {
                    filename: name_string(),
                    file_size: self.data.len(),
                    offset,
                    read_size: buffer.len(),
                },
            );
        }
        let n: usize = buffer.len();
        let mut i: usize = 0;
        while i < n
            invariant
                i <= n,
                buffer@.len() == n,
                n == old(buffer)@.len(),
                offset + n <= usize::MAX,
                offset + n <= self.data@.len(),
                forall|j: int| 0 <= j < i ==> buffer@[j] == self.data@[offset + j],
            decreases n - i,
        {
            buffer[i] = self.data[offset + i];
            i = i + 1;
        }
        proof {
            assert(buffer@ =~= self.data@.subrange(offset as int, offset + n));
        }
        Ok(())
    }

    /// Flush all changes to the backing medium. The in-memory file has no
    /// separate durable medium, so this is a no-op that always succeeds.
    fn sync(self) -> (r: Result<(), FileError>)
        ensures
            r is Ok,
    {
        Ok(())
    }

    /// Get the size of the file.
    fn size(self) -> (r: Result<usize, FileError>) {
        if !self.is_opened {
            return Err(FileError::FileNotOpened(name_string()));
        }
        Ok(self.data.len())
    }
}

} // verus!
