use rouilledb::common::RandomBlob;
use rouilledb::fs::File;
use rouilledb::fs::FileError;
use rouilledb::fs::MemoryFile;

/// Tests that when called once, the create method succeeds.
#[test]
fn create_called_once_succeeds() {
    let mut file = MemoryFile::new();
    let result = file.create();

    assert!(result.is_ok());
}

/// Tests that subsequent calls to create will fail with a [FileError::FileOpened]
/// error.
#[test]
fn create_called_twice_fails() {
    let mut file = MemoryFile::new();

    file.create()
        .expect("create should not fail when called once");
    let result = file.create();

    assert!(result.is_err());
    assert!(matches!(result, Err(FileError::FileOpened(_))));
}

/// Tests that close will fail if the file is not opened.
#[test]
fn close_file_is_no_opened_fails() {
    let mut file = MemoryFile::new();

    let result = file.close();

    assert!(result.is_err());
    assert!(matches!(result, Err(FileError::FileNotOpened(_))));
}

/// Test that the file can be created, closed, opened then closed again.
#[test]
fn create_close_open_close_succeed() {
    let mut file = MemoryFile::new();

    file.create().expect("create should not fail");
    file.close().expect("close should not fail");
    file.open().expect("open should not fail");
    file.close().expect("close should not fail");
}

/// Test that deleting an opened file will return an error.
#[test]
fn delete_an_opened_file_fails() {
    let mut file = MemoryFile::new();
    file.create().expect("create should not fail");

    let result = file.delete();

    assert!(result.is_err());
    assert!(matches!(result, Err(FileError::FileOpened(_))));
}

/// Writing a block of data to the file succeeds.
#[test]
fn write_an_non_zero_blob_succeed() {
    let blob = RandomBlob::default();

    let mut file = MemoryFile::new();
    file.create().expect("create should not fail");

    let result = file.write(0, blob.data());

    assert!(result.is_ok());
}

/// Trying to write when the file is not opened fails.
#[test]
fn write_file_not_opened_fails() {
    let blob = RandomBlob::default();

    let mut file = MemoryFile::new();

    let result = file.write(0, blob.data());

    assert!(result.is_err());
    assert!(matches!(result, Err(FileError::FileNotOpened(_))));
}

/// Trying to read when the file is not opened fails.
#[test]
fn read_when_file_not_opened_fails() {
    let file = MemoryFile::new();
    let mut buffer: Vec<u8> = vec![0u8; 512];

    let result = file.read(0, &mut buffer);

    assert!(result.is_err());
    assert!(matches!(result, Err(FileError::FileNotOpened(_))));
}

/// Reading the content of the whole file succeeds.
#[test]
fn read_whole_file_data_is_correctly_read() {
    let content = RandomBlob::new(128);
    let mut file = MemoryFile::new_with_data(content.data());
    let mut buffer = vec![0u8; 128];

    file.open().expect("open should not fail");

    let result = file.read(0, &mut buffer);

    assert!(result.is_ok());
    assert_eq!(&buffer, content.data());
}

/// Reading a part of the file, the data is read correctly.
#[test]
fn read_part_of_file_data_read_correctly() {
    let read_offset: usize = 32;
    let read_len: usize = 64;
    let content = RandomBlob::new(128);
    let mut file = MemoryFile::new_with_data(content.data());
    let mut buffer = vec![0u8; read_len];

    file.open().expect("open should not fail");

    let result = file.read(read_offset, &mut buffer);

    assert!(result.is_ok());
    assert_eq!(buffer, content.data()[read_offset..read_offset + read_len]);
}

/// Reading past the end of the file fails.
#[test]
fn read_past_the_end_of_the_file_fails() {
    let read_offset: usize = 1024;
    let read_len: usize = 32;
    let content = RandomBlob::new(128);
    let mut file = MemoryFile::new_with_data(content.data());
    let mut buffer = vec![0u8; read_len];

    file.open().expect("open should not fail");

    let result = file.read(read_offset, &mut buffer);

    assert!(result.is_err());
    assert!(matches!(result, Err(FileError::EndOfFileRead { .. })));
}

/// Size returns the correct size.
#[test]
fn size_returns_the_correct_size() {
    let content_size: usize = 128;
    let content = RandomBlob::new(content_size);
    let mut file = MemoryFile::new_with_data(content.data());
    file.open().expect("open should not fail");

    let result = file.size();

    assert!(matches!(result, Ok(value) if value == content_size));
}

/// Size returns an error if the file is not opened.
#[test]
fn size_when_file_not_opened_fails() {
    let file = MemoryFile::new();

    let result = file.size();

    assert!(matches!(result, Err(FileError::FileNotOpened(_))));
}
