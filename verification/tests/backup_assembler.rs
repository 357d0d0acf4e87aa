use ic_sqlite_backup::backup::{
    backup_from, build_backup, db_backup_on_memory, page_offset_of, read_page_from,
    read_page_from_vfs, stream_db_backup, PAGE_SIZE,
};
use ic_sqlite_backup::utils::{plan_read, ReadError, ReadStep};
use std::cell::RefCell;

/// A region of `pages` database pages behind the header, page `n` filled
/// with the byte `n`.
fn numbered_region(pages: usize) -> Vec<u8> {
    let mut region = vec![0xFFu8; 8];
    for n in 1..=pages {
        region.extend(std::iter::repeat(n as u8).take(4096));
    }
    region
}

#[test]
fn page_size_is_4096() {
    assert_eq!(PAGE_SIZE, 4096);
}

#[test]
fn page_offsets_are_linear_from_page_one() {
    assert_eq!(page_offset_of(1, 4096), Some(0));
    assert_eq!(page_offset_of(2, 4096), Some(4096));
    assert_eq!(page_offset_of(3, 4096), Some(8192));
    assert_eq!(page_offset_of(1000, 512), Some(511488));
    assert_eq!(page_offset_of(7, 0), Some(0));
}

#[test]
fn page_numbers_below_one_have_no_offset() {
    assert_eq!(page_offset_of(0, 4096), None);
    assert_eq!(page_offset_of(-1, 4096), None);
    assert_eq!(page_offset_of(i64::MIN, 4096), None);
}

#[test]
fn page_offsets_end_with_the_address_space() {
    assert_eq!(page_offset_of(1 << 52, 4096), Some(u64::MAX - 4095));
    assert_eq!(page_offset_of((1 << 52) + 1, 4096), None);
    assert_eq!(page_offset_of(i64::MAX, 4096), None);
    assert_eq!(page_offset_of(i64::MAX, 1), Some(i64::MAX as u64 - 1));
}

#[test]
fn three_pages_are_read_at_8_4104_8200() {
    let mut starts = Vec::new();
    for n in 1..=3i64 {
        let offset = page_offset_of(n, PAGE_SIZE).unwrap();
        match plan_read(65536, offset, PAGE_SIZE) {
            ReadStep::Copy { from } => starts.push(from),
            other => panic!("page {} gave {:?}", n, other),
        }
    }
    assert_eq!(starts, vec![8, 4104, 8200]);
}

#[test]
fn read_page_from_gives_the_page_behind_the_header() {
    let region = numbered_region(3);
    assert_eq!(read_page_from(&region, 1, 4096), Ok(vec![1u8; 4096]));
    assert_eq!(read_page_from(&region, 2, 4096), Ok(vec![2u8; 4096]));
    assert_eq!(read_page_from(&region, 3, 4096), Ok(vec![3u8; 4096]));
}

#[test]
fn read_page_from_with_another_page_size() {
    let region = numbered_region(1);
    let page = read_page_from(&region, 3, 1024).unwrap();
    assert_eq!(page, region[8 + 2048..8 + 3072].to_vec());
    assert_eq!(read_page_from(&region, 4, 1024), Ok(vec![1u8; 1024]));
    assert_eq!(read_page_from(&region, 5, 1024), Err(ReadError::OutOfRange));
}

#[test]
fn read_page_from_rejects_what_is_no_page() {
    let region = numbered_region(1);
    assert_eq!(read_page_from(&region, 0, 4096), Err(ReadError::InvalidPage));
    assert_eq!(read_page_from(&region, -7, 4096), Err(ReadError::InvalidPage));
    assert_eq!(read_page_from(&region, i64::MAX, 4096), Err(ReadError::InvalidPage));
    assert_eq!(read_page_from(&[], 0, 4096), Err(ReadError::InvalidPage));
}

#[test]
fn read_page_from_beyond_the_region() {
    let region = numbered_region(2);
    assert_eq!(read_page_from(&region, 3, 4096), Err(ReadError::OutOfRange));
    let short = &region[..region.len() - 1];
    assert_eq!(read_page_from(short, 2, 4096), Err(ReadError::OutOfRange));
    assert_eq!(read_page_from(short, 1, 4096), Ok(vec![1u8; 4096]));
}

#[test]
fn read_page_from_an_empty_region_is_zeros() {
    assert_eq!(read_page_from(&[], 1, 4096), Ok(vec![0u8; 4096]));
    assert_eq!(read_page_from(&[], 1 << 40, 4096), Ok(vec![0u8; 4096]));
    assert_eq!(read_page_from(&[], 5, 0), Ok(Vec::new()));
}

#[test]
fn read_page_from_vfs_rejects_what_is_no_page() {
    assert_eq!(read_page_from_vfs(0, 4096), Err(ReadError::InvalidPage));
    assert_eq!(read_page_from_vfs(-1, 4096), Err(ReadError::InvalidPage));
    assert_eq!(read_page_from_vfs(i64::MAX, 4096), Err(ReadError::InvalidPage));
}

#[test]
fn backup_length_is_page_count_times_page_size() {
    let region = numbered_region(5);
    for count in 0..=5i64 {
        let backup = backup_from(&region, count).unwrap();
        assert_eq!(backup.len(), count as usize * 4096);
    }
}

#[test]
fn backup_holds_each_page_in_its_place() {
    let region = numbered_region(4);
    let backup = backup_from(&region, 4).unwrap();
    for i in 1..=4usize {
        let at = (i - 1) * 4096;
        assert_eq!(&backup[at..at + 4096], &region[at + 8..at + 8 + 4096]);
        assert_eq!(backup[at..at + 4096].to_vec(), read_page_from(&region, i as i64, 4096).unwrap());
    }
    assert_eq!(backup, region[8..].to_vec());
}

#[test]
fn backup_of_a_region_that_was_never_grown_is_zeros() {
    for count in [1i64, 2, 7] {
        assert_eq!(backup_from(&[], count), Ok(vec![0u8; count as usize * 4096]));
    }
}

#[test]
fn backup_twice_gives_the_same_bytes() {
    let region = numbered_region(3);
    let first = backup_from(&region, 3);
    let second = backup_from(&region, 3);
    assert!(first.is_ok());
    assert_eq!(first, second);
    assert_eq!(backup_from(&region, 4), backup_from(&region, 4));
}

#[test]
fn backup_through_the_same_reader_twice_gives_the_same_bytes() {
    let region = numbered_region(3);
    let first = build_backup(3, |n: i64, size: usize| read_page_from(&region, n, size));
    let second = build_backup(3, |n: i64, size: usize| read_page_from(&region, n, size));
    assert_eq!(first, second);
    assert_eq!(first.map(|b| b.len()), Ok(12288));
}

#[test]
fn backup_of_a_grown_region_is_what_lies_behind_the_header() {
    let region: Vec<u8> = (0..65536u32).map(|i| (i % 249) as u8).collect();
    assert_eq!(backup_from(&region, 15), Ok(region[8..8 + 15 * 4096].to_vec()));
    assert_eq!(backup_from(&region, 16), Err(ReadError::OutOfRange));
    let exact = &region[..8 + 2 * 4096];
    assert_eq!(backup_from(exact, 2), Ok(region[8..8 + 2 * 4096].to_vec()));
    assert_eq!(backup_from(&exact[..exact.len() - 1], 2), Err(ReadError::OutOfRange));
}

#[test]
fn one_page_of_ab_behind_the_header() {
    let mut region = vec![0u8; 8];
    region.extend(vec![0xABu8; 4096]);
    assert_eq!(backup_from(&region, 1), Ok(vec![0xABu8; 4096]));
    region.resize(65536, 0);
    assert_eq!(backup_from(&region, 1), Ok(vec![0xABu8; 4096]));
}

#[test]
fn no_pages_give_an_empty_backup_and_no_read() {
    let calls = RefCell::new(0u32);
    let backup = build_backup(0, |_n: i64, _size: usize| {
        *calls.borrow_mut() += 1;
        Ok(vec![0u8; 4096])
    });
    assert_eq!(backup, Ok(Vec::new()));
    assert_eq!(*calls.borrow(), 0);
    assert_eq!(backup_from(&numbered_region(2), 0), Ok(Vec::new()));
    assert_eq!(backup_from(&[], 0), Ok(Vec::new()));
}

#[test]
fn a_negative_page_count_gives_an_empty_backup() {
    let calls = RefCell::new(0u32);
    let backup = build_backup(-4, |_n: i64, _size: usize| {
        *calls.borrow_mut() += 1;
        Err(ReadError::OutOfRange)
    });
    assert_eq!(backup, Ok(Vec::new()));
    assert_eq!(*calls.borrow(), 0);
    assert_eq!(backup_from(&numbered_region(1), i64::MIN), Ok(Vec::new()));
}

#[test]
fn three_pages_are_asked_for_in_order() {
    let region = numbered_region(3);
    let calls = RefCell::new(Vec::new());
    let backup = build_backup(3, |n: i64, size: usize| {
        calls.borrow_mut().push((n, size));
        read_page_from(&region, n, size)
    });
    assert_eq!(*calls.borrow(), vec![(1i64, 4096usize), (2, 4096), (3, 4096)]);
    let mut joined = vec![1u8; 4096];
    joined.extend(vec![2u8; 4096]);
    joined.extend(vec![3u8; 4096]);
    assert_eq!(backup, Ok(joined));
}

#[test]
fn the_first_failure_ends_the_backup() {
    let region = numbered_region(2);
    let calls = RefCell::new(Vec::new());
    let backup = build_backup(5, |n: i64, size: usize| {
        calls.borrow_mut().push(n);
        read_page_from(&region, n, size)
    });
    assert_eq!(backup, Err(ReadError::OutOfRange));
    assert_eq!(*calls.borrow(), vec![1i64, 2, 3]);
    assert_eq!(backup_from(&region, 5), Err(ReadError::OutOfRange));
    assert_eq!(backup_from(&region, 3), Err(ReadError::OutOfRange));
    assert_eq!(backup_from(&region, 2).map(|b| b.len()), Ok(8192));
}

#[test]
fn the_error_of_the_failing_page_comes_out() {
    let backup = build_backup(3, |n: i64, _size: usize| {
        if n == 2 {
            Err(ReadError::InvalidPage)
        } else {
            Ok(vec![n as u8; 4096])
        }
    });
    assert_eq!(backup, Err(ReadError::InvalidPage));
}

#[test]
fn stable_memory_is_not_touched_without_pages() {
    assert_eq!(db_backup_on_memory(0), Ok(Vec::new()));
    assert_eq!(db_backup_on_memory(-1), Ok(Vec::new()));
    assert_eq!(db_backup_on_memory(i64::MIN), Ok(Vec::new()));
}

#[test]
fn stream_without_pages_is_empty() {
    let mut stream = stream_db_backup(0).unwrap();
    assert_eq!(stream.len(), 0);
    assert_eq!(stream.position(), 0);
    let mut buf = [0u8; 4];
    assert_eq!(stream.read(&mut buf), 0);
    assert!(stream_db_backup(-9).unwrap().into_bytes().is_empty());
}
