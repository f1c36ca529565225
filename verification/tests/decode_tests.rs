use tracexec::decode::{decode_exec_call, DecodeLimits};
use tracexec::memory::{read_cstring, read_ptr_array, MemImage, MemSource};

const BASE: u64 = 0x1000;

/// Builds one contiguous image holding a filename, argv and envp strings,
/// and the two pointer arrays; returns the image with the three pointers.
fn synthetic_exec_image() -> (MemSource, u64, u64, u64) {
    let mut bytes: Vec<u8> = Vec::new();
    let filename_ptr = BASE;
    bytes.extend_from_slice(b"/bin/ls\0"); // offset 0, 8 bytes
    let arg0 = BASE + bytes.len() as u64;
    bytes.extend_from_slice(b"ls\0");
    let arg1 = BASE + bytes.len() as u64;
    bytes.extend_from_slice(b"-l\0");
    let arg2 = BASE + bytes.len() as u64;
    bytes.extend_from_slice(b"/tmp\0");
    let env0 = BASE + bytes.len() as u64;
    bytes.extend_from_slice(b"PATH=/bin\0");
    let env1 = BASE + bytes.len() as u64;
    bytes.extend_from_slice(b"HOME=/root\0");
    let argv_ptr = BASE + bytes.len() as u64;
    for p in [arg0, arg1, arg2, 0u64] {
        bytes.extend_from_slice(&p.to_le_bytes());
    }
    let envp_ptr = BASE + bytes.len() as u64;
    for p in [env0, env1, 0u64] {
        bytes.extend_from_slice(&p.to_le_bytes());
    }
    (
        MemSource::Image(MemImage { base: BASE, bytes }),
        filename_ptr,
        argv_ptr,
        envp_ptr,
    )
}

#[test]
fn well_formed_exec_decodes_byte_for_byte() {
    let (src, filename_ptr, argv_ptr, envp_ptr) = synthetic_exec_image();
    let limits = DecodeLimits { max_args: 32, max_str_len: 256 };
    let data = decode_exec_call(&src, filename_ptr, argv_ptr, envp_ptr, &limits);
    assert_eq!(data.filename, b"/bin/ls".to_vec());
    assert_eq!(
        data.argv,
        vec![b"ls".to_vec(), b"-l".to_vec(), b"/tmp".to_vec()]
    );
    assert_eq!(
        data.envp,
        vec![b"PATH=/bin".to_vec(), b"HOME=/root".to_vec()]
    );
    assert!(data.complete);
}

#[test]
fn argv_without_terminator_is_capped_with_failure_marker() {
    let (src, filename_ptr, argv_ptr, envp_ptr) = synthetic_exec_image();
    // a maximum count below the array's length: the walk never sees the
    // null entry, so the result is capped and marked incomplete
    let limits = DecodeLimits { max_args: 2, max_str_len: 256 };
    let data = decode_exec_call(&src, filename_ptr, argv_ptr, envp_ptr, &limits);
    assert_eq!(data.argv, vec![b"ls".to_vec(), b"-l".to_vec()]);
    assert!(!data.complete);
}

#[test]
fn argv_running_off_the_image_is_partial_with_failure_marker() {
    let mut bytes: Vec<u8> = Vec::new();
    bytes.extend_from_slice(b"x\0");
    let arg0 = BASE;
    let argv_ptr = BASE + bytes.len() as u64;
    // one valid pointer, then the image ends: no null entry in sight
    bytes.extend_from_slice(&arg0.to_le_bytes());
    let src = MemSource::Image(MemImage { base: BASE, bytes });
    let r = read_ptr_array(&src, argv_ptr, 32);
    assert_eq!(r.ptrs, vec![arg0]);
    assert!(!r.terminated);
}

#[test]
fn unmapped_filename_gives_empty_partial_result() {
    let (src, _, argv_ptr, envp_ptr) = synthetic_exec_image();
    let limits = DecodeLimits { max_args: 32, max_str_len: 256 };
    // the filename pointer lies outside the image: a read fault
    let data = decode_exec_call(&src, 0x9999_0000, argv_ptr, envp_ptr, &limits);
    assert_eq!(data.filename, Vec::<u8>::new());
    assert!(!data.complete);
    // argv and envp still decoded: one process's bad pointer is not fatal
    assert_eq!(data.argv.len(), 3);
}

#[test]
fn string_without_terminator_is_capped_at_max_len() {
    let bytes = b"abcdefgh".to_vec(); // no terminator anywhere
    let src = MemSource::Image(MemImage { base: BASE, bytes });
    let r = read_cstring(&src, BASE, 4);
    assert_eq!(r.bytes, b"abcd".to_vec());
    assert!(!r.terminated);
}

#[test]
fn string_hitting_image_end_is_partial() {
    let bytes = b"abc".to_vec();
    let src = MemSource::Image(MemImage { base: BASE, bytes });
    let r = read_cstring(&src, BASE, 16);
    assert_eq!(r.bytes, b"abc".to_vec());
    assert!(!r.terminated);
}

#[test]
fn empty_string_is_terminated_at_once() {
    let bytes = b"\0rest".to_vec();
    let src = MemSource::Image(MemImage { base: BASE, bytes });
    let r = read_cstring(&src, BASE, 16);
    assert_eq!(r.bytes, Vec::<u8>::new());
    assert!(r.terminated);
}

#[test]
fn pointer_words_are_read_little_endian() {
    let mut bytes: Vec<u8> = Vec::new();
    bytes.extend_from_slice(&[0x01, 0x02, 0x03, 0x04, 0x05, 0x06, 0x07, 0x08]);
    bytes.extend_from_slice(&[0u8; 8]);
    let src = MemSource::Image(MemImage { base: BASE, bytes });
    let r = read_ptr_array(&src, BASE, 4);
    assert_eq!(r.ptrs, vec![0x0807_0605_0403_0201u64]);
    assert!(r.terminated);
}

#[test]
fn remote_read_of_an_unmapped_address_is_a_fault() {
    // a real cross-process transfer, against this process, at an address
    // that is never mapped: the reader degrades to an empty partial result
    let me = nix::unistd::getpid().as_raw();
    let r = read_cstring(&MemSource::Remote(me), 0x10, 64);
    assert_eq!(r.bytes, Vec::<u8>::new());
    assert!(!r.terminated);
    let p = read_ptr_array(&MemSource::Remote(me), 0x10, 8);
    assert_eq!(p.ptrs, Vec::<u64>::new());
    assert!(!p.terminated);
}

#[test]
fn strings_spanning_chunks_are_assembled() {
    // longer than one 64-byte transfer chunk
    let mut long: Vec<u8> = Vec::new();
    for i in 0..200u8 {
        long.push(b'a' + (i % 26));
    }
    let mut bytes = long.clone();
    bytes.push(0);
    let src = MemSource::Image(MemImage { base: BASE, bytes });
    let r = read_cstring(&src, BASE, 1024);
    assert_eq!(r.bytes, long);
    assert!(r.terminated);
}
