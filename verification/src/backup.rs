//! The backup assembler: every page of the database, in order, in one buffer.

use vstd::prelude::*;
use crate::stream::BackupStream;
use crate::utils::{
    block_of, outcome, read, read_from, ReadError, HEADER_BYTES, REGION_PAGE_BYTES,
};

verus! {

/// Bytes in one database page.
pub const PAGE_SIZE: usize = 4096;

/// Logical byte offset at which page `page_number` starts, for pages of
/// `page_size` bytes; pages are numbered from 1. `None` for a number below 1
/// and for a page that starts beyond the last 64-bit offset.
pub open spec fn page_offset(page_number: i64, page_size: usize) -> Option<u64> {
    if page_number >= 1 && (page_number - 1) * page_size <= u64::MAX {
        Some(((page_number - 1) * page_size) as u64)
    } else {
        None
    }
}

/// Computes [`page_offset`].
pub fn page_offset_of(page_number: i64, page_size: usize) -> (offset: Option<u64>)
    ensures
        offset == page_offset(page_number, page_size),
{
    if page_number < 1 {
        return None;
    }
    let index: u128 = (page_number - 1) as u128;
    let size: u128 = page_size as u128;
    assert(index * size <= 0x7fff_ffff_ffff_ffff * 0xffff_ffff_ffff_ffff) by (nonlinear_arith)
        requires
            0 <= index <= 0x7fff_ffff_ffff_ffff,
            0 <= size <= 0xffff_ffff_ffff_ffff,
    ;
    let start: u128 = index * size;
    if start <= u64::MAX as u128 {
        Some(start as u64)
    } else {
        None
    }
}

/// A buffer of `length` zero bytes.
pub open spec fn zeros(length: int) -> Seq<u8> {
    Seq::new(length as nat, |i: int| 0u8)
}

/// Reads page `page_number` of `page_size` bytes from stable memory.
///
/// The page is read whole or not at all. A stable memory that was never
/// grown gives a page of zeros.
pub fn read_page_from_vfs(page_number: i64, page_size: usize) -> (r: Result<Vec<u8>, ReadError>)
    ensures
        r matches Ok(page) ==> page@.len() == page_size,
        page_offset(page_number, page_size) is None <==> r == Err::<Vec<u8>, ReadError>(
            ReadError::InvalidPage,
        ),
        r is Err ==> r == Err::<Vec<u8>, ReadError>(ReadError::InvalidPage) || r == Err::<
            Vec<u8>,
            ReadError,
        >(ReadError::OutOfRange),
        page_offset(page_number, page_size) matches Some(offset) && offset + HEADER_BYTES
            + page_size <= REGION_PAGE_BYTES ==> r is Ok,
{
    match page_offset_of(page_number, page_size) {
        None => Err(ReadError::InvalidPage),
        Some(offset) => {
            let mut buffer = vec![0u8; page_size];
            match read(buffer.as_mut_slice(), offset) {
                Ok(()) => Ok(buffer),
                Err(e) => Err(e),
            }
        },
    }
}

/// The page `page_number` of `page_size` bytes in a storage region with the
/// bytes `region`: the error where it cannot be read.
pub open spec fn page_of(region: Seq<u8>, page_number: i64, page_size: usize) -> Result<
    Seq<u8>,
    ReadError,
> {
    match page_offset(page_number, page_size) {
        None => Err(ReadError::InvalidPage),
        Some(offset) => match block_of(region, offset, zeros(page_size as int)) {
            Some(block) => Ok(block),
            None => Err(ReadError::OutOfRange),
        },
    }
}

/// Reads page `page_number` of `page_size` bytes from `region`, a storage
/// region held in memory.
pub fn read_page_from(region: &[u8], page_number: i64, page_size: usize) -> (r: Result<
    Vec<u8>,
    ReadError,
>)
    ensures
        outcome(r) == page_of(region@, page_number, page_size),
{
    match page_offset_of(page_number, page_size) {
        None => Err(ReadError::InvalidPage),
        Some(offset) => {
            let mut buffer = vec![0u8; page_size];
            assert(buffer@ == zeros(page_size as int));
            match read_from(region, buffer.as_mut_slice(), offset) {
                Ok(()) => Ok(buffer),
                Err(e) => Err(e),
            }
        },
    }
}

/// Bytes in a backup of `page_count` pages; a count below 1 gives none.
pub open spec fn backup_len(page_count: i64) -> int {
    if page_count <= 0 {
        0
    } else {
        page_count * PAGE_SIZE
    }
}

/// The place of page `page_number` in a backup with the bytes `backup`.
pub open spec fn backup_page(backup: Seq<u8>, page_number: i64) -> Seq<u8> {
    backup.subrange((page_number - 1) * PAGE_SIZE, page_number * PAGE_SIZE)
}

/// Whether `read_page` may answer a request for page `page_number` with the
/// bytes `bytes`.
pub open spec fn gives_page<F: Fn(i64, usize) -> Result<Vec<u8>, ReadError>>(
    read_page: F,
    page_number: i64,
    bytes: Seq<u8>,
) -> bool {
    exists|page: Vec<u8>|
        page@ == bytes && #[trigger] call_ensures(
            read_page,
            (page_number, PAGE_SIZE),
            Ok::<Vec<u8>, ReadError>(page),
        )
}

/// Whether `r` is what a backup of `page_count` pages through `read_page`
/// may come to: every page in its place, or the error of the first page
/// that could not be read.
pub open spec fn built_from<F: Fn(i64, usize) -> Result<Vec<u8>, ReadError>>(
    read_page: F,
    page_count: i64,
    r: Result<Seq<u8>, ReadError>,
) -> bool {
    match r {
        Ok(backup) => {
            &&& backup.len() == backup_len(page_count)
            &&& forall|n: i64|
                1 <= n <= page_count ==> #[trigger] gives_page(
                    read_page,
                    n,
                    backup_page(backup, n),
                )
        },
        Err(e) => exists|n: i64| #[trigger] fails_at(read_page, page_count, e, n),
    }
}

/// Whether a backup of `page_count` pages through `read_page` may end at
/// page `page_number` with the error `e`: the pages before it are given, and
/// that page is refused with `e`.
pub open spec fn fails_at<F: Fn(i64, usize) -> Result<Vec<u8>, ReadError>>(
    read_page: F,
    page_count: i64,
    e: ReadError,
    page_number: i64,
) -> bool {
    &&& 1 <= page_number <= page_count
    &&& call_ensures(read_page, (page_number, PAGE_SIZE), Err::<Vec<u8>, ReadError>(e))
    &&& exists|head: Seq<u8>|
        {
            &&& #[trigger] head.len() == backup_len((page_number - 1) as i64)
            &&& forall|m: i64|
                1 <= m < page_number ==> #[trigger] gives_page(
                    read_page,
                    m,
                    backup_page(head, m),
                )
        }
}

/// Builds the backup of a database of `page_count` pages: asks `read_page`
/// for each page from 1 to `page_count`, in ascending order, and joins the
/// pages in that order. A count below 1 gives an empty backup and no request.
///
/// The first page that cannot be read ends the backup with its error, and
/// no bytes are handed out.
pub fn build_backup<F>(page_count: i64, read_page: F) -> (r: Result<Vec<u8>, ReadError>) where
    F: Fn(i64, usize) -> Result<Vec<u8>, ReadError>,

    requires
        forall|n: i64| 1 <= n <= page_count ==> call_requires(read_page, (n, PAGE_SIZE)),
        forall|n: i64, page: Vec<u8>| #[trigger]
            call_ensures(read_page, (n, PAGE_SIZE), Ok::<Vec<u8>, ReadError>(page))
                ==> page@.len() == PAGE_SIZE,
    ensures
        built_from(read_page, page_count, outcome(r)),
{
    let mut output: Vec<u8> = Vec::new();
    let mut page_number: i64 = 0;
    while page_number < page_count
        invariant
            0 <= page_number,
            page_number <= page_count || page_number == 0,
            forall|n: i64| 1 <= n <= page_count ==> call_requires(read_page, (n, PAGE_SIZE)),
            forall|n: i64, page: Vec<u8>| #[trigger]
                call_ensures(read_page, (n, PAGE_SIZE), Ok::<Vec<u8>, ReadError>(page))
                    ==> page@.len() == PAGE_SIZE,
            output@.len() == backup_len(page_number),
            forall|n: i64|
                1 <= n <= page_number ==> #[trigger] gives_page(
                    read_page,
                    n,
                    backup_page(output@, n),
                ),
        decreases page_count - page_number,
    {
        let ghost head = output@;
        page_number += 1;
        match read_page(page_number, PAGE_SIZE) {
            Ok(page) => {
                let mut page = page;
                let ghost bytes = page@;
                output.append(&mut page);
                proof {
                    assert(backup_page(output@, page_number) == bytes);
                    assert forall|n: i64| 1 <= n <= page_number implies #[trigger] gives_page(
                        read_page,
                        n,
                        backup_page(output@, n),
                    ) by {
                        if n < page_number {
                            assert(backup_page(output@, n) == backup_page(head, n));
                        }
                    }
                }
            },
            Err(e) => {
                proof {
                    assert(head.len() == backup_len((page_number - 1) as i64));
                    assert(fails_at(read_page, page_count, e, page_number));
                }
                return Err(e);
            },
        }
    }
    Ok(output)
}

/// Backs up the `page_count` pages of the database that lives in stable
/// memory: pages 1 to `page_count` of [`PAGE_SIZE`] bytes each, read one by
/// one through [`read_page_from_vfs`] and joined in ascending order.
///
/// A count below 1 gives an empty backup without touching stable memory. A
/// page that reaches beyond stable memory ends the backup with
/// [`ReadError::OutOfRange`]; a database whose pages all lie within the first
/// size unit of stable memory is always backed up.
pub fn db_backup_on_memory(page_count: i64) -> (r: Result<Vec<u8>, ReadError>)
    ensures
        built_from(read_page_from_vfs, page_count, outcome(r)),
        r matches Ok(backup) ==> backup@.len() == backup_len(page_count),
        r matches Err(e) ==> page_count >= 1 && (e == ReadError::OutOfRange || (e
            == ReadError::InvalidPage && page_offset(page_count, PAGE_SIZE) is None)),
        backup_len(page_count) + HEADER_BYTES <= REGION_PAGE_BYTES ==> r is Ok,
{
    let r = build_backup(page_count, read_page_from_vfs);
    proof {
        if let Err(e) = r {
            let n = choose|n: i64| #[trigger] fails_at(read_page_from_vfs, page_count, e, n);
            assert((n - 1) * PAGE_SIZE <= (page_count - 1) * PAGE_SIZE) by (nonlinear_arith)
                requires
                    n <= page_count,
            ;
        }
    }
    r
}

/// Backs up the `page_count` pages of the database that lives in stable
/// memory, as [`db_backup_on_memory`] does, and hands the backup out as a
/// stream that stands at its first byte.
pub fn stream_db_backup(page_count: i64) -> (r: Result<BackupStream, ReadError>)
    ensures
        built_from(
            read_page_from_vfs,
            page_count,
            match r {
                Ok(stream) => Ok(stream@),
                Err(e) => Err(e),
            },
        ),
        r matches Ok(stream) ==> stream@.len() == backup_len(page_count)
            && stream.spec_position() == 0,
        r matches Err(e) ==> page_count >= 1 && (e == ReadError::OutOfRange || (e
            == ReadError::InvalidPage && page_offset(page_count, PAGE_SIZE) is None)),
        backup_len(page_count) + HEADER_BYTES <= REGION_PAGE_BYTES ==> r is Ok,
{
    match db_backup_on_memory(page_count) {
        Ok(backup) => Ok(BackupStream::new(backup)),
        Err(e) => Err(e),
    }
}

/// The backup of the first `page_count` pages of a storage region with the
/// bytes `region`: the pages from 1 to `page_count` joined in ascending
/// order, or the error of the first page that cannot be read.
pub open spec fn backup_of(region: Seq<u8>, page_count: i64) -> Result<Seq<u8>, ReadError>
    decreases page_count,
{
    if page_count <= 0 {
        Ok(Seq::empty())
    } else {
        match backup_of(region, (page_count - 1) as i64) {
            Err(e) => Err(e),
            Ok(head) => match page_of(region, page_count, PAGE_SIZE) {
                Err(e) => Err(e),
                Ok(page) => Ok(head + page),
            },
        }
    }
}

/// Backs up the first `page_count` pages of `region`, a storage region held
/// in memory, as [`db_backup_on_memory`] does for stable memory.
pub fn backup_from(region: &[u8], page_count: i64) -> (r: Result<Vec<u8>, ReadError>)
    ensures
        outcome(r) == backup_of(region@, page_count),
{
    let read_page = |page_number: i64, page_size: usize| -> (page: Result<Vec<u8>, ReadError>)
        ensures
            outcome(page) == page_of(region@, page_number, page_size),
        { read_page_from(region, page_number, page_size) };
    let r = build_backup(page_count, read_page);
    proof {
        match outcome(r) {
            Ok(backup) => {
                assert forall|n: i64| 1 <= n <= page_count implies page_of(
                    region@,
                    n,
                    PAGE_SIZE,
                ) == Ok::<Seq<u8>, ReadError>(backup_page(backup, n)) by {
                    assert(gives_page(read_page, n, backup_page(backup, n)));
                }
                lemma_pages_join(region@, page_count, backup);
            },
            Err(e) => {
                let n = choose|n: i64| #[trigger] fails_at(read_page, page_count, e, n);
                let head = choose|head: Seq<u8>|
                    {
                        &&& #[trigger] head.len() == backup_len((n - 1) as i64)
                        &&& forall|m: i64|
                            1 <= m < n ==> #[trigger] gives_page(
                                read_page,
                                m,
                                backup_page(head, m),
                            )
                    };
                assert forall|m: i64| 1 <= m < n implies page_of(region@, m, PAGE_SIZE) == Ok::<
                    Seq<u8>,
                    ReadError,
                >(backup_page(head, m)) by {
                    assert(gives_page(read_page, m, backup_page(head, m)));
                }
                lemma_pages_join(region@, (n - 1) as i64, head);
                lemma_first_failure(region@, n, page_count);
            },
        }
    }
    r
}

/// Bytes that hold every page from 1 to `page_count` in its place are the
/// backup of those pages.
proof fn lemma_pages_join(region: Seq<u8>, page_count: i64, backup: Seq<u8>)
    requires
        backup.len() == backup_len(page_count),
        forall|n: i64|
            1 <= n <= page_count ==> #[trigger] page_of(region, n, PAGE_SIZE) == Ok::<
                Seq<u8>,
                ReadError,
            >(backup_page(backup, n)),
    ensures
        backup_of(region, page_count) == Ok::<Seq<u8>, ReadError>(backup),
    decreases page_count,
{
    if page_count <= 0 {
        assert(backup =~= Seq::<u8>::empty());
    } else {
        let before = (page_count - 1) as i64;
        let head = backup.subrange(0, backup_len(before));
        assert forall|n: i64| 1 <= n <= before implies #[trigger] page_of(region, n, PAGE_SIZE)
            == Ok::<Seq<u8>, ReadError>(backup_page(head, n)) by {
            assert(backup_page(head, n) =~= backup_page(backup, n));
        }
        lemma_pages_join(region, before, head);
        assert(head + backup_page(backup, page_count) =~= backup);
    }
}

/// Once the pages before `page_number` can be read and that page cannot, no
/// backup that reaches it can be built, and its error is the one that
/// comes out.
proof fn lemma_first_failure(region: Seq<u8>, page_number: i64, page_count: i64)
    requires
        1 <= page_number <= page_count,
        backup_of(region, (page_number - 1) as i64) is Ok,
        page_of(region, page_number, PAGE_SIZE) is Err,
    ensures
        backup_of(region, page_count) == Err::<Seq<u8>, ReadError>(
            page_of(region, page_number, PAGE_SIZE)->Err_0,
        ),
    decreases page_count - page_number,
{
    if page_number < page_count {
        lemma_first_failure(region, page_number, (page_count - 1) as i64);
    }
}

} // verus!
