use wbuf::memory::MemoryCursor;

#[test]
fn new_buffer_is_empty() {
    let c = MemoryCursor::new();
    assert_eq!(c.position(), 0);
    assert!(c.bytes().is_empty());
}

#[test]
fn write_then_read_back_round_trip() {
    let data: Vec<u8> = (0u8..=255).collect();
    let mut out = MemoryCursor::new();
    let mut written = 0usize;
    while written < data.len() {
        written += out.write(&data[written..]);
    }
    assert_eq!(out.bytes(), &data[..]);
    let mut input = MemoryCursor::from_vec(out.into_inner());
    let mut back = vec![0u8; 300];
    let n = input.read(&mut back);
    assert_eq!(n, 256);
    assert_eq!(&back[..n], &data[..]);
    assert!(back[n..].iter().all(|b| *b == 0));
}

#[test]
fn round_trip_through_small_reads() {
    let data: Vec<u8> = vec![10, 20, 30, 40, 50, 60, 70];
    let mut out = MemoryCursor::new();
    assert_eq!(out.write(&data), 7);
    let mut input = MemoryCursor::from_vec(out.into_inner());
    let mut collected = Vec::new();
    let mut chunk = [0u8; 3];
    loop {
        let n = input.read(&mut chunk);
        if n == 0 {
            break;
        }
        collected.extend_from_slice(&chunk[..n]);
    }
    assert_eq!(collected, data);
}

#[test]
fn duplex_write_then_read_finds_end() {
    let mut c = MemoryCursor::new();
    assert_eq!(c.write(&[1, 2, 3]), 3);
    assert_eq!(c.position(), 3);
    let mut buf = [9u8; 4];
    assert_eq!(c.read(&mut buf), 0);
    assert_eq!(buf, [9, 9, 9, 9]);
    assert_eq!(c.bytes(), &[1, 2, 3]);
}

#[test]
fn short_read_returns_available_count() {
    let mut c = MemoryCursor::from_vec(vec![5, 6]);
    let mut buf = [0u8; 8];
    assert_eq!(c.read(&mut buf), 2);
    assert_eq!(buf, [5, 6, 0, 0, 0, 0, 0, 0]);
    assert_eq!(c.position(), 2);
    assert_eq!(c.read(&mut buf), 0);
}

#[test]
fn read_limited_by_capacity() {
    let mut c = MemoryCursor::from_vec(vec![1, 2, 3, 4, 5]);
    let mut buf = [0u8; 2];
    assert_eq!(c.read(&mut buf), 2);
    assert_eq!(buf, [1, 2]);
    assert_eq!(c.read(&mut buf), 2);
    assert_eq!(buf, [3, 4]);
    assert_eq!(c.read(&mut buf), 1);
    assert_eq!(buf, [5, 4]);
    assert_eq!(c.read(&mut buf), 0);
}

#[test]
fn read_into_empty_buffer_takes_nothing() {
    let mut c = MemoryCursor::from_vec(vec![1, 2]);
    let mut buf: [u8; 0] = [];
    assert_eq!(c.read(&mut buf), 0);
    assert_eq!(c.position(), 0);
}

#[test]
fn read_of_empty_buffer_is_zero() {
    let mut c = MemoryCursor::new();
    let mut buf = [0u8; 4];
    assert_eq!(c.read(&mut buf), 0);
}

#[test]
fn write_overwrites_then_extends() {
    let mut c = MemoryCursor::from_vec(vec![1, 2, 3, 4]);
    let mut buf = [0u8; 2];
    assert_eq!(c.read(&mut buf), 2);
    assert_eq!(c.write(&[7, 8, 9]), 3);
    assert_eq!(c.position(), 5);
    assert_eq!(c.bytes(), &[1, 2, 7, 8, 9]);
}

#[test]
fn write_inside_keeps_tail() {
    let mut c = MemoryCursor::from_vec(vec![1, 2, 3, 4, 5]);
    assert_eq!(c.write(&[9]), 1);
    assert_eq!(c.bytes(), &[9, 2, 3, 4, 5]);
    let mut buf = [0u8; 10];
    assert_eq!(c.read(&mut buf), 4);
    assert_eq!(&buf[..4], &[2, 3, 4, 5]);
}

#[test]
fn empty_write_changes_nothing() {
    let mut c = MemoryCursor::from_vec(vec![1]);
    assert_eq!(c.write(&[]), 0);
    assert_eq!(c.position(), 0);
    assert_eq!(c.bytes(), &[1]);
}

#[test]
fn flush_keeps_contents_and_position() {
    let mut c = MemoryCursor::new();
    c.write(&[4, 5, 6]);
    c.flush();
    assert_eq!(c.bytes(), &[4, 5, 6]);
    assert_eq!(c.position(), 3);
    let mut e = MemoryCursor::new();
    e.flush();
    assert!(e.bytes().is_empty());
}
