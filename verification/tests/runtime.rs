//! Guests: their memory, their scripts and the interpreter.

use cealn::runtime::guest_memory::{
    read_output, write_input, DataEncoding, InputBuffer, MemoryError, OutputBuffer,
};
use cealn::runtime::guest_script::{
    current_directory, dup_result, output_buffer, package_of_directory, package_script, python_error,
    replace_char, root_workspace_script, script_package, workspace_file, TextData,
};
use cealn::runtime::interpreter::{created, CreateError, Options, Template};

/// A memory with a header at 4 that leads to a buffer at 16.
fn memory() -> Vec<u8> {
    let mut memory = vec![0u8; 32];
    memory[4] = 16;
    memory
}

#[test]
fn input_is_written_into_guests() {
    let mut memory = memory();
    assert_eq!(write_input(&mut memory, 4, b"abc"), Ok(InputBuffer { pointer: 4 }));
    assert_eq!(memory[4..12], [16, 0, 0, 0, 3, 0, 0, 0]);
    assert_eq!(memory[15..20], [0, b'a', b'b', b'c', 0]);
    assert_eq!(InputBuffer { pointer: 4 }.pointer(), 4);
}

#[test]
fn input_stays_inside_memory() {
    let mut outside = memory();
    assert_eq!(write_input(&mut outside, 4, &[1; 17]), Err(MemoryError::BadPointer));
    assert_eq!(outside, memory());
    assert_eq!(write_input(&mut outside, 29, b"a"), Err(MemoryError::BadPointer));
    assert_eq!(write_input(&mut outside, u32::MAX, b"a"), Err(MemoryError::BadPointer));

    // The length does not fit behind the header, but the bytes are in place.
    let mut short = memory();
    short[28] = 2;
    assert_eq!(write_input(&mut short, 28, b"z"), Err(MemoryError::BadPointer));
    assert_eq!(short[2], b'z');
}

#[test]
fn output_is_read_from_guests() {
    let buffer = OutputBuffer { bytes: b"hello".to_vec(), encoding: DataEncoding::Latin1 };
    let header = buffer.header(20);
    assert_eq!(header, vec![20, 0, 0, 0, 5, 0, 0, 0, 2, 0, 0, 0]);
    let mut memory = vec![0u8; 32];
    memory[4..16].copy_from_slice(&header);
    memory[20..25].copy_from_slice(&buffer.bytes);
    let read = read_output(&memory, 4).expect("the buffer lies inside the memory");
    assert_eq!((read.bytes.as_slice(), read.encoding), (&b"hello"[..], DataEncoding::Latin1));
}

#[test]
fn output_stays_inside_memory() {
    let at = |start: u32, len: u32, encoding: u32| {
        let mut memory = Vec::new();
        for number in [start, len, encoding] {
            memory.extend(number.to_le_bytes());
        }
        read_output(&memory, 0).map(|b| (b.bytes.len(), b.encoding))
    };
    assert_eq!(at(0, 12, 1), Ok((12, DataEncoding::Utf8)));
    assert_eq!(at(1, 12, 1), Err(MemoryError::BadPointer));
    assert_eq!(at(u32::MAX, 2, 1), Err(MemoryError::BadPointer));
    assert_eq!(at(0, 12, 0), Err(MemoryError::InvalidEncoding));
    assert_eq!(at(0, 99, 3), Err(MemoryError::InvalidEncoding));
    assert!(matches!(read_output(&[0; 11], 0), Err(MemoryError::BadPointer)));
}

#[test]
fn ascii_is_utf8() {
    let buffer = |bytes: &[u8], encoding| OutputBuffer { bytes: bytes.to_vec(), encoding };
    assert!(buffer(&[0xe4], DataEncoding::Utf8).is_utf8());
    assert!(!buffer(&[b'a', 0xe4], DataEncoding::Latin1).is_utf8());
    assert!(buffer(b"abc", DataEncoding::Latin1).is_utf8());
}

#[test]
fn scripts_belong_to_packages() {
    assert_eq!(package_of_directory("a/b", "root_workspace."), "root_workspace.a.b");
    assert_eq!(
        script_package("/workspace/a/b/build.cealn", "/workspace", "root_workspace."),
        Some("root_workspace.a.b".to_string())
    );
    assert_eq!(
        script_package("/workspace/workspace.cealn", "/workspace", "root_workspace."),
        Some("root_workspace.".to_string())
    );
    // A relative path cannot be seen from an absolute root.
    assert_eq!(script_package("workspace.cealn", "/workspace", "x."), None);
    assert_eq!(replace_char("a.b.c", '.', '_'), "a_b_c");
}

#[test]
fn scripts_stand_in_workspaces() {
    assert_eq!(workspace_file("com.a", "x/y"), "/workspaces/com.a/x/y");
    let script = root_workspace_script();
    assert_eq!(script.actual_path, "/workspace/workspace.cealn");
    assert_eq!(script.display_path, "workspace.cealn");
    assert_eq!(script.package_root, "/workspace");
    assert_eq!(script.package_root_prefix, "root_workspace.");
    let script = package_script("com.a", "libs/x");
    assert_eq!(script.actual_path, "/workspaces/com.a/libs/x/build.cealn");
    assert_eq!(script.display_path, "libs/x/build.cealn");
    assert_eq!(script.package_root, "/workspaces/com.a");
    assert_eq!(script.package_root_prefix, "workspaces.com_a.");
}

#[test]
fn guests_hand_out_texts() {
    let buffer = output_buffer(Ok(TextData::Latin1(vec![0xe4])));
    assert_eq!((buffer.bytes, buffer.encoding), (vec![0xe4], DataEncoding::Latin1));
    let buffer = output_buffer(Ok(TextData::Utf8(vec![1])));
    assert_eq!((buffer.bytes, buffer.encoding), (vec![1], DataEncoding::Utf8));
    let buffer = output_buffer(Err(b"{}".to_vec()));
    assert_eq!((buffer.bytes, buffer.encoding), (b"{}".to_vec(), DataEncoding::Utf8));
}

#[test]
fn exceptions_are_told() {
    let error = python_error("ValueError".to_string(), Some("bad".to_string()), Some("trace".to_string()));
    assert_eq!((error.class.as_str(), error.message.as_str()), ("ValueError", "bad"));
    assert_eq!(error.traceback.as_deref(), Some("trace"));
    let error = python_error("ValueError".to_string(), None, None);
    assert_eq!(error.message, "[str failed for Python error]");
    assert_eq!(error.traceback, None);
}

#[test]
fn guests_are_in_the_root() {
    assert_eq!(current_directory(2), Some(b"/\0".to_vec()));
    assert_eq!(current_directory(100), Some(b"/\0".to_vec()));
    assert_eq!(current_directory(1), None);
    assert_eq!(dup_result(3), Ok(3));
    assert_eq!(dup_result(0), Ok(0));
    assert_eq!(dup_result(-8), Err(8));
}

#[test]
fn interpreters_are_created() {
    assert!(matches!(created(Ok(3)), Ok(3)));
    match created::<u8>(Err(anyhow::Error::msg("no code"))) {
        Err(CreateError::Wasm(error)) => assert_eq!(error.to_string(), "no code"),
        Ok(_) => panic!("an error was expected"),
    }
    let options = Options { cache_config_file: None };
    assert!(options.cache_config_file.is_none());
    let template = Template::capture(&[1, 2, 3]).expect("capturing does not fail");
    assert_eq!(template.memory, vec![1, 2, 3]);
}
