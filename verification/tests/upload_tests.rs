use wasm_central::upload::{module_file_name, part_file_name, UploadBuffer};

#[test]
fn chunks_concatenate_under_the_first_name() {
    let mut upload = UploadBuffer::new();
    upload.push_chunk(&"echo".to_string(), &vec![0x01, 0x02]);
    upload.push_chunk(&"other".to_string(), &vec![0x03]);
    upload.push_chunk(&"echo".to_string(), &vec![0x04, 0x05]);
    let (name, data) = upload.finish().expect("a pinned upload");
    assert_eq!(name, "echo");
    assert_eq!(data, vec![0x01, 0x02, 0x03, 0x04, 0x05]);
}

#[test]
fn an_empty_stream_yields_nothing() {
    let upload = UploadBuffer::new();
    assert!(upload.finish().is_none());
}

#[test]
fn an_empty_chunk_still_pins_the_name() {
    let mut upload = UploadBuffer::new();
    upload.push_chunk(&"echo".to_string(), &vec![]);
    let (name, data) = upload.finish().expect("a pinned upload");
    assert_eq!(name, "echo");
    assert_eq!(data.len(), 0);
}

#[test]
fn upload_file_names() {
    assert_eq!(part_file_name("echo"), "echo.wasm.part");
    assert_eq!(module_file_name("echo"), "echo.wasm");
}
