//! The storage-unit capability contract and its error taxonomy.

use vstd::prelude::*;

verus! {

/// Represents errors that can occur during file operations.
#[derive(Debug)]
pub enum FileError {
    /// Indicates that the file could not be created because a file with the
    /// same name already exists. Carries the path of the file.
    FileAlreadyExists(String),
    /// Indicates that an operation failed because the file was not opened.
    /// Carries the path of the file.
    FileNotOpened(String),
    /// Indicates that an operation failed because the file was opened.
    /// Carries the path of the file.
    FileOpened(String),
    /// Indicates that an operation tried to read past the end of the file.
    EndOfFileRead {
        filename: String,
        file_size: usize,
        offset: usize,
        read_size: usize,
    },
}

/// The contents of a unit after `data` is written at `offset` over
/// `contents`: bytes in the written range come from `data`, bytes below it
/// keep their old value, and any gap between the old end and `offset` is
/// filled with zeros. The unit grows when the written range passes its end
/// and never shrinks.
pub open spec fn write_result(contents: Seq<u8>, offset: int, data: Seq<u8>) -> Seq<u8>
    recommends
        0 <= offset,
{
    let new_len = if contents.len() >= offset + data.len() {
        contents.len() as int
    } else {
        offset + data.len()
    };
    Seq::new(
        new_len as nat,
        |i: int|
            if offset <= i < offset + data.len() {
                data[i - offset]
            } else if i < contents.len() {
                contents[i]
            } else {
                0u8
            },
    )
}

/// Write-then-read round trip: for any starting contents, any offset, and
/// any data, reading back exactly the written range yields the data that
/// was written.
pub proof fn lemma_write_then_read(contents: Seq<u8>, offset: int, data: Seq<u8>)
    requires
        0 <= offset,
    ensures
        write_result(contents, offset, data).subrange(offset, offset + data.len()) == data,
{
    assert(write_result(contents, offset, data).subrange(offset, offset + data.len()) =~= data);
}

/// Growth zero-fill: writing data at an offset on an empty unit leaves
/// every byte of the gap `[0, offset)` zero.
pub proof fn lemma_growth_zero_fill(offset: int, data: Seq<u8>)
    requires
        0 <= offset,
    ensures
        write_result(Seq::<u8>::empty(), offset, data).subrange(0, offset) == Seq::new(
            offset as nat,
            |i: int| 0u8,
        ),
{
    assert(write_result(Seq::<u8>::empty(), offset, data).subrange(0, offset) =~= Seq::new(
        offset as nat,
        |i: int| 0u8,
    ));
}

/// A single write never shrinks the unit: the new size is the larger of
/// the old size and the extent `offset + data.len()` of the write.
pub proof fn lemma_write_size(contents: Seq<u8>, offset: int, data: Seq<u8>)
    requires
        0 <= offset,
    ensures
        write_result(contents, offset, data).len() >= contents.len(),
        write_result(contents, offset, data).len() == if contents.len() >= offset + data.len() {
            contents.len() as int
        } else {
            offset + data.len()
        },
{
}

/// The contents of a unit after a sequence of writes, applied in order;
/// each write is an offset paired with the data written there.
pub open spec fn apply_writes(contents: Seq<u8>, writes: Seq<(int, Seq<u8>)>) -> Seq<u8>
    decreases writes.len(),
{
    if writes.len() == 0 {
        contents
    } else {
        apply_writes(
            write_result(contents, writes[0].0, writes[0].1),
            writes.subrange(1, writes.len() as int),
        )
    }
}

/// The highest `offset + length` over a sequence of writes, or zero when
/// there are none.
pub open spec fn max_write_extent(writes: Seq<(int, Seq<u8>)>) -> int
    decreases writes.len(),
{
    if writes.len() == 0 {
        0
    } else {
        let first = writes[0].0 + writes[0].1.len();
        let rest = max_write_extent(writes.subrange(1, writes.len() as int));
        if first >= rest {
            first
        } else {
            rest
        }
    }
}

/// Size consistency: after any sequence of writes the size is the larger
/// of the starting size and the highest `offset + length` ever written. In
/// particular the size never decreases: no write shrinks the unit.
pub proof fn lemma_size_after_writes(contents: Seq<u8>, writes: Seq<(int, Seq<u8>)>)
    requires
        forall|k: int| 0 <= k < writes.len() ==> (#[trigger] writes[k]).0 >= 0,
    ensures
        apply_writes(contents, writes).len() >= contents.len(),
        apply_writes(contents, writes).len() == if contents.len() >= max_write_extent(writes) {
            contents.len() as int
        } else {
            max_write_extent(writes)
        },
    decreases writes.len(),
{
    if writes.len() > 0 {
        let written = write_result(contents, writes[0].0, writes[0].1);
        let rest = writes.subrange(1, writes.len() as int);
        assert forall|k: int| 0 <= k < rest.len() implies (#[trigger] rest[k]).0 >= 0 by {
            assert(rest[k] == writes[k + 1]);
        }
        lemma_size_after_writes(written, rest);
    }
}

/// Size consistency from a fresh unit: starting empty, after any sequence
/// of writes the size equals the highest `offset + length` ever written.
pub proof fn lemma_size_from_empty(writes: Seq<(int, Seq<u8>)>)
    requires
        forall|k: int| 0 <= k < writes.len() ==> (#[trigger] writes[k]).0 >= 0,
    ensures
        apply_writes(Seq::<u8>::empty(), writes).len() == max_write_extent(writes),
{
    lemma_max_write_extent_nonneg(writes);
    lemma_size_after_writes(Seq::<u8>::empty(), writes);
}

proof fn lemma_max_write_extent_nonneg(writes: Seq<(int, Seq<u8>)>)
    requires
        forall|k: int| 0 <= k < writes.len() ==> (#[trigger] writes[k]).0 >= 0,
    ensures
        max_write_extent(writes) >= 0,
    decreases writes.len(),
{
    if writes.len() > 0 {
        let rest = writes.subrange(1, writes.len() as int);
        assert forall|k: int| 0 <= k < rest.len() implies (#[trigger] rest[k]).0 >= 0 by {
            assert(rest[k] == writes[k + 1]);
        }
        lemma_max_write_extent_nonneg(rest);
    }
}

/// Represents operations that can be performed on a file.
///
/// This trait defines a set of methods for interacting with a file.
/// Implementors of this trait should provide concrete implementations for
/// different backing media (memory, disk, ...), and every backend must honor
/// the contracts below identically, so that structures built on top behave
/// the same whichever backend is plugged in.
///
/// Each method's contract is stated over the abstract model of the unit: its
/// name, its open/closed state, and its contents. Where a backing medium may
/// fail for reasons of its own (a same-named file already on disk, a missing
/// file on open), the contract pins the error and leaves the unit unchanged;
/// the in-memory backend has no such medium and refines these methods to
/// always succeed.
///
/// # Errors
///
/// Methods in this trait return [FileError].
pub trait File: Sized {
    /// The unit's identifying name or path.
    spec fn name(&self) -> Seq<char>;

    /// Whether the unit is open for I/O.
    spec fn is_open(&self) -> bool;

    /// The unit's current contents; its length is the unit's logical size.
    spec fn contents(&self) -> Seq<u8>;

    /// Creates and opens a new file. Fails with [FileError::FileOpened] if
    /// the file is already opened, and with [FileError::FileAlreadyExists]
    /// if the backing medium already holds a same-named file it refuses to
    /// overwrite; either failure leaves the unit unchanged.
    fn create(&mut self) -> (r: Result<(), FileError>)
        ensures
            old(self).is_open() ==> final(self).name() == old(self).name() && final(self).is_open()
                == old(self).is_open() && final(self).contents() == old(self).contents() && (r matches Err(
                FileError::FileOpened(n),
            ) && n@ == old(self).name()),
            !old(self).is_open() ==> match r {
                Ok(()) => final(self).is_open() && final(self).name() == old(self).name(),
                Err(e) => final(self).name() == old(self).name() && !final(self).is_open()
                    && final(self).contents() == old(self).contents() && (e matches FileError::FileAlreadyExists(
                    n,
                ) && n@ == old(self).name()),
            },
    ;

    /// Closes the file. Fails with [FileError::FileNotOpened] if the file is
    /// not opened; closing never alters the contents.
    fn close(&mut self) -> (r: Result<(), FileError>)
        ensures
            !old(self).is_open() ==> final(self).name() == old(self).name() && final(self).is_open()
                == old(self).is_open() && final(self).contents() == old(self).contents() && (r matches Err(
                FileError::FileNotOpened(n),
            ) && n@ == old(self).name()),
            old(self).is_open() ==> r is Ok && !final(self).is_open() && final(self).name()
                == old(self).name() && final(self).contents() == old(self).contents(),
    ;

    /// Opens an existing file for I/O, attaching to its prior contents.
    /// Fails with [FileError::FileOpened] if the file is already opened; a
    /// medium-backed implementation may also fail when the file does not
    /// exist, leaving the unit unchanged.
    fn open(&mut self) -> (r: Result<(), FileError>)
        ensures
            old(self).is_open() ==> final(self).name() == old(self).name() && final(self).is_open()
                == old(self).is_open() && final(self).contents() == old(self).contents() && (r matches Err(
                FileError::FileOpened(n),
            ) && n@ == old(self).name()),
            !old(self).is_open() ==> match r {
                Ok(()) => final(self).is_open() && final(self).name() == old(self).name()
                    && final(self).contents() == old(self).contents(),
                Err(_) => final(self).name() == old(self).name() && !final(self).is_open()
                    && final(self).contents() == old(self).contents(),
            },
    ;

    /// Deletes the file, removing it from the backing medium. Fails with
    /// [FileError::FileOpened] if the file is currently opened.
    fn delete(&mut self) -> (r: Result<(), FileError>)
        ensures
            old(self).is_open() ==> final(self).name() == old(self).name() && final(self).is_open()
                == old(self).is_open() && final(self).contents() == old(self).contents() && (r matches Err(
                FileError::FileOpened(n),
            ) && n@ == old(self).name()),
            !old(self).is_open() ==> r is Ok && !final(self).is_open() && final(self).name()
                == old(self).name(),
    ;

    /// Writes a block of data in the file at a specified offset. The bytes
    /// `[offset, offset + data.len())` are overwritten; if that range passes
    /// the current end, the unit grows to fit, and any gap between the old
    /// end and `offset` is filled with zero bytes. Fails with
    /// [FileError::FileNotOpened] if the file is not opened, leaving the
    /// unit unchanged.
    fn write(&mut self, offset: usize, data: &[u8]) -> (r: Result<(), FileError>)
        requires
            offset + data@.len() <= usize::MAX,
        ensures
            !old(self).is_open() ==> final(self).name() == old(self).name() && final(self).is_open()
                == old(self).is_open() && final(self).contents() == old(self).contents() && (r matches Err(
                FileError::FileNotOpened(n),
            ) && n@ == old(self).name()),
            old(self).is_open() ==> r is Ok && final(self).is_open() && final(self).name() == old(
                self,
            ).name() && final(self).contents() == write_result(
                old(self).contents(),
                offset as int,
                data@,
            ),
    ;

    /// Reads a block of data from the file at a specified offset into a
    /// buffer; the amount read is the buffer's length. The read is
    /// all-or-nothing: if the requested range passes the end of the file it
    /// fails with [FileError::EndOfFileRead] carrying the file's size and
    /// the requested extent, and the buffer is left untouched. Fails with
    /// [FileError::FileNotOpened] if the file is not opened.
    fn read(self, offset: usize, buffer: &mut Vec<u8>) -> (r: Result<(), FileError>)
        requires
            offset + old(buffer)@.len() <= usize::MAX,
        ensures
            final(buffer)@.len() == old(buffer)@.len(),
            !self.is_open() ==> final(buffer)@ == old(buffer)@ && (r matches Err(
                FileError::FileNotOpened(n),
            ) && n@ == self.name()),
            self.is_open() && offset + old(buffer)@.len() > self.contents().len() ==> final(buffer)@
                == old(buffer)@ && (r matches Err(
                FileError::EndOfFileRead { filename, file_size, offset: off, read_size },
            ) && filename@ == self.name() && file_size == self.contents().len() && off == offset
                && read_size == old(buffer)@.len()),
            self.is_open() && offset + old(buffer)@.len() <= self.contents().len() ==> r is Ok
                && final(buffer)@ == self.contents().subrange(
                offset as int,
                offset + old(buffer)@.len(),
            ),
    ;

    /// Flushes all prior writes to the backing medium, so they will not be
    /// lost in case of a crash or power failure. Durability is not part of
    /// the abstract model, so no more is promised here; a backend with no
    /// separate durable medium may treat this as a no-op.
    fn sync(self) -> (r: Result<(), FileError>);

    /// Gets the size of the file: the logical byte length of its contents.
    /// Fails with [FileError::FileNotOpened] if the file is not opened.
    fn size(self) -> (r: Result<usize, FileError>)
        ensures
            !self.is_open() ==> (r matches Err(FileError::FileNotOpened(n)) && n@ == self.name()),
            self.is_open() ==> (r matches Ok(s) && s == self.contents().len()),
    ;
}

} // verus!
