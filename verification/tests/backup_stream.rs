use ic_sqlite_backup::backup::backup_from;
use ic_sqlite_backup::stream::BackupStream;

#[test]
fn a_new_stream_stands_at_the_start() {
    let stream = BackupStream::new(vec![1, 2, 3]);
    assert_eq!(stream.len(), 3);
    assert_eq!(stream.position(), 0);
    assert_eq!(stream.remaining(), 3);
}

#[test]
fn stream_reads_in_pieces() {
    let mut stream = BackupStream::new(vec![10, 11, 12, 13, 14]);
    let mut buf = [0u8; 2];
    assert_eq!(stream.read(&mut buf), 2);
    assert_eq!(buf, [10, 11]);
    assert_eq!(stream.position(), 2);
    assert_eq!(stream.read(&mut buf), 2);
    assert_eq!(buf, [12, 13]);
    assert_eq!(stream.read(&mut buf), 1);
    assert_eq!(buf, [14, 13]);
    assert_eq!(stream.position(), 5);
    assert_eq!(stream.remaining(), 0);
    assert_eq!(stream.read(&mut buf), 0);
    assert_eq!(buf, [14, 13]);
    assert_eq!(stream.position(), 5);
}

#[test]
fn stream_read_into_a_larger_buffer_keeps_its_tail() {
    let mut stream = BackupStream::new(vec![1, 2, 3]);
    let mut buf = [9u8; 5];
    assert_eq!(stream.read(&mut buf), 3);
    assert_eq!(buf, [1, 2, 3, 9, 9]);
}

#[test]
fn stream_read_into_an_empty_buffer() {
    let mut stream = BackupStream::new(vec![1, 2, 3]);
    let mut buf: [u8; 0] = [];
    assert_eq!(stream.read(&mut buf), 0);
    assert_eq!(stream.position(), 0);
}

#[test]
fn stream_position_can_be_set() {
    let mut stream = BackupStream::new(vec![5, 6, 7, 8]);
    stream.set_position(3);
    assert_eq!(stream.remaining(), 1);
    let mut buf = [0u8; 4];
    assert_eq!(stream.read(&mut buf), 1);
    assert_eq!(buf, [8, 0, 0, 0]);
    stream.set_position(0);
    assert_eq!(stream.read(&mut buf), 4);
    assert_eq!(buf, [5, 6, 7, 8]);
}

#[test]
fn stream_position_beyond_the_end_reads_nothing() {
    let mut stream = BackupStream::new(vec![5, 6]);
    stream.set_position(usize::MAX);
    assert_eq!(stream.remaining(), 0);
    let mut buf = [1u8; 2];
    assert_eq!(stream.read(&mut buf), 0);
    assert_eq!(buf, [1, 1]);
    assert_eq!(stream.position(), usize::MAX);
    assert_eq!(stream.len(), 2);
}

#[test]
fn stream_gives_the_bytes_back() {
    let mut stream = BackupStream::new(vec![4, 5, 6]);
    let mut buf = [0u8; 2];
    stream.read(&mut buf);
    assert_eq!(stream.into_bytes(), vec![4, 5, 6]);
}

#[test]
fn a_backup_read_as_a_stream_is_the_backup() {
    let mut region = vec![0u8; 8];
    region.extend((0..8192u32).map(|i| (i % 253) as u8));
    let backup = backup_from(&region, 2).unwrap();
    let mut stream = BackupStream::new(backup.clone());
    let mut seen = Vec::new();
    let mut buf = [0u8; 1000];
    loop {
        let n = stream.read(&mut buf);
        if n == 0 {
            break;
        }
        seen.extend_from_slice(&buf[..n]);
    }
    assert_eq!(seen, backup);
    assert_eq!(seen, region[8..].to_vec());
}
