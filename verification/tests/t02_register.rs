use ring_io::RawIoVec;
use ring_io::Ring;

#[test]
fn t02_02_register_buffer() {
    let mut ring = Ring::with_entries(32).setup().unwrap();

    let mut buf: Vec<u8> = vec![0; 1024];

    {
        let iovecs = vec![RawIoVec { base: buf.as_mut_ptr() as u64, len: buf.len() as u64 }];
        ring.register_buffers(&iovecs).unwrap();
        ring.unregister_buffers().unwrap();
    }

    drop(buf);

    drop(ring);
}

#[test]
fn register_file_roundtrip() {
    // Register one open descriptor, then unregister it; both calls succeed.
    let mut ring = Ring::with_entries(32).setup().unwrap();
    let fds = vec![0];
    ring.register_files(&fds).unwrap();
    ring.unregister_files().unwrap();
}

#[test]
fn register_twice_is_busy() {
    let mut ring = Ring::with_entries(4).setup().unwrap();
    let fds = vec![0, 1];
    ring.register_files(&fds).unwrap();
    let err = ring.register_files(&fds).unwrap_err();
    assert_eq!(err.raw_os_error(), 16);
    ring.unregister_files().unwrap();
}

#[test]
fn register_empty_is_invalid() {
    let mut ring = Ring::with_entries(4).setup().unwrap();
    let fds: Vec<i32> = Vec::new();
    let err = ring.register_files(&fds).unwrap_err();
    assert_eq!(err.raw_os_error(), 22);
    let iovecs: Vec<RawIoVec> = Vec::new();
    let err = ring.register_buffers(&iovecs).unwrap_err();
    assert_eq!(err.raw_os_error(), 22);
}

#[test]
fn unregister_nothing_reports_nxio() {
    let mut ring = Ring::with_entries(4).setup().unwrap();
    let err = ring.unregister_files().unwrap_err();
    assert_eq!(err.raw_os_error(), 6);
    let err = ring.unregister_buffers().unwrap_err();
    assert_eq!(err.raw_os_error(), 6);
}
