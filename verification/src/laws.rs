//! What holds of every backup, stated over the models of [`crate::backup`]
//! and [`crate::utils`].

use vstd::prelude::*;
use crate::backup::{
    backup_len, backup_of, backup_page, built_from, fails_at, gives_page, page_of, page_offset,
    zeros, PAGE_SIZE,
};
use crate::utils::{outcome, ReadError, HEADER_BYTES};

verus! {

/// A backup of `page_count` pages holds exactly `page_count` times
/// [`PAGE_SIZE`] bytes, and none for a count below 1.
pub proof fn backup_has_page_count_pages(region: Seq<u8>, page_count: i64)
    ensures
        backup_of(region, page_count) matches Ok(backup) ==> backup.len() == backup_len(
            page_count,
        ),
        page_count <= 0 ==> backup_of(region, page_count) == Ok::<Seq<u8>, ReadError>(
            Seq::empty(),
        ),
    decreases page_count,
{
    if page_count > 0 {
        backup_has_page_count_pages(region, (page_count - 1) as i64);
    }
}

/// Page `page_number` stands in the backup at the bytes from
/// `(page_number - 1) * PAGE_SIZE` up to `page_number * PAGE_SIZE`, and holds
/// what the storage reader gives for that page: in a region that was grown,
/// the region's bytes from that offset on, past the header.
pub proof fn backup_holds_each_page(region: Seq<u8>, page_count: i64, page_number: i64)
    requires
        1 <= page_number <= page_count,
        backup_of(region, page_count) is Ok,
    ensures
        page_of(region, page_number, PAGE_SIZE) == Ok::<Seq<u8>, ReadError>(
            backup_page(backup_of(region, page_count)->Ok_0, page_number),
        ),
        region.len() > 0 ==> backup_page(backup_of(region, page_count)->Ok_0, page_number)
            == region.subrange(
            (page_number - 1) * PAGE_SIZE + HEADER_BYTES,
            page_number * PAGE_SIZE + HEADER_BYTES,
        ),
    decreases page_count,
{
    let backup = backup_of(region, page_count)->Ok_0;
    let before = (page_count - 1) as i64;
    let head = backup_of(region, before)->Ok_0;
    let last = page_of(region, page_count, PAGE_SIZE)->Ok_0;
    backup_has_page_count_pages(region, before);
    assert(backup == head + last);
    if page_number < page_count {
        backup_holds_each_page(region, before, page_number);
        assert(backup_page(backup, page_number) =~= backup_page(head, page_number));
    } else {
        assert(backup_page(backup, page_number) =~= last);
    }
}

/// A region that was never grown reads as zeros: every page that has an
/// offset is a page of zeros, and so is every backup of such pages.
pub proof fn empty_region_backs_up_as_zeros(region: Seq<u8>, page_count: i64)
    requires
        region.len() == 0,
        page_count >= 1 ==> page_offset(page_count, PAGE_SIZE) is Some,
    ensures
        backup_of(region, page_count) == Ok::<Seq<u8>, ReadError>(zeros(backup_len(page_count))),
        forall|n: i64|
            1 <= n <= page_count ==> #[trigger] page_of(region, n, PAGE_SIZE) == Ok::<
                Seq<u8>,
                ReadError,
            >(zeros(PAGE_SIZE as int)),
    decreases page_count,
{
    if page_count <= 0 {
        assert(zeros(0) =~= Seq::<u8>::empty());
    } else {
        let before = (page_count - 1) as i64;
        empty_region_backs_up_as_zeros(region, before);
        assert(zeros(backup_len(before)) + zeros(PAGE_SIZE as int) =~= zeros(
            backup_len(page_count),
        ));
    }
}

/// The backup of a region that was grown is the region's bytes behind the
/// header, as many as the pages take; it fails with
/// [`ReadError::OutOfRange`] exactly where the region does not hold that
/// many.
pub proof fn grown_region_backs_up_as_its_bytes(region: Seq<u8>, page_count: i64)
    requires
        0 < region.len() <= u64::MAX,
        page_count >= 1,
    ensures
        backup_of(region, page_count) == if HEADER_BYTES + backup_len(page_count)
            <= region.len() {
            Ok::<Seq<u8>, ReadError>(
                region.subrange(HEADER_BYTES as int, HEADER_BYTES + backup_len(page_count)),
            )
        } else {
            Err::<Seq<u8>, ReadError>(ReadError::OutOfRange)
        },
    decreases page_count,
{
    let before = (page_count - 1) as i64;
    if page_count > 1 {
        grown_region_backs_up_as_its_bytes(region, before);
    }
    if HEADER_BYTES + backup_len(page_count) <= region.len() {
        let head = region.subrange(HEADER_BYTES as int, HEADER_BYTES + backup_len(before));
        let last = region.subrange(
            HEADER_BYTES + backup_len(before),
            HEADER_BYTES + backup_len(page_count),
        );
        assert(backup_of(region, before) == Ok::<Seq<u8>, ReadError>(head)) by {
            if page_count == 1 {
                assert(head =~= Seq::<u8>::empty());
            }
        }
        assert(head + last =~= region.subrange(
            HEADER_BYTES as int,
            HEADER_BYTES + backup_len(page_count),
        ));
    }
}

/// Two backups of the same pages of a region with the same bytes are the
/// same: the same bytes, or the same error.
pub proof fn region_backup_is_repeatable(
    region: Seq<u8>,
    page_count: i64,
    first: Result<Vec<u8>, ReadError>,
    second: Result<Vec<u8>, ReadError>,
)
    requires
        outcome(first) == backup_of(region, page_count),
        outcome(second) == backup_of(region, page_count),
    ensures
        outcome(first) == outcome(second),
        first matches Ok(a) ==> second matches Ok(b) && a@ == b@,
        first matches Err(e) ==> second == Err::<Vec<u8>, ReadError>(e),
{
}

/// Whether `read_page` answers every request for one of the pages from 1 to
/// `page_count` in one way only, as a reader does while nothing writes to
/// what it reads.
pub open spec fn answers_once<F: Fn(i64, usize) -> Result<Vec<u8>, ReadError>>(
    read_page: F,
    page_count: i64,
) -> bool {
    forall|n: i64, first: Result<Vec<u8>, ReadError>, second: Result<Vec<u8>, ReadError>|
        1 <= n <= page_count && #[trigger] call_ensures(read_page, (n, PAGE_SIZE), first)
            && #[trigger] call_ensures(read_page, (n, PAGE_SIZE), second) ==> outcome(first)
            == outcome(second)
}

/// Two backups of the same pages through a reader that answers each request
/// in one way only come out the same, byte for byte.
pub proof fn backup_is_repeatable<F: Fn(i64, usize) -> Result<Vec<u8>, ReadError>>(
    read_page: F,
    page_count: i64,
    first: Result<Seq<u8>, ReadError>,
    second: Result<Seq<u8>, ReadError>,
)
    requires
        answers_once(read_page, page_count),
        built_from(read_page, page_count, first),
        built_from(read_page, page_count, second),
    ensures
        first == second,
{
    match (first, second) {
        (Ok(a), Ok(b)) => {
            assert forall|k: int| 0 <= k < a.len() implies a[k] == b[k] by {
                let n = (k / (PAGE_SIZE as int) + 1) as i64;
                let at = k % (PAGE_SIZE as int);
                assert(1 <= n <= page_count);
                same_page(read_page, page_count, n, backup_page(a, n), backup_page(b, n));
                assert(backup_page(a, n)[at] == a[k]);
                assert(backup_page(b, n)[at] == b[k]);
            }
            assert(a =~= b);
        },
        (Err(x), Err(y)) => {
            let n = choose|n: i64| #[trigger] fails_at(read_page, page_count, x, n);
            let m = choose|m: i64| #[trigger] fails_at(read_page, page_count, y, m);
            if n < m {
                refused_is_not_given(read_page, page_count, y, m, n, x);
            } else if m < n {
                refused_is_not_given(read_page, page_count, x, n, m, y);
            } else {
                assert(outcome(Err::<Vec<u8>, ReadError>(x)) == outcome(
                    Err::<Vec<u8>, ReadError>(y),
                ));
            }
        },
        (Ok(a), Err(y)) => {
            let m = choose|m: i64| #[trigger] fails_at(read_page, page_count, y, m);
            page_not_both(read_page, page_count, m, backup_page(a, m), y);
        },
        (Err(x), Ok(b)) => {
            let n = choose|n: i64| #[trigger] fails_at(read_page, page_count, x, n);
            page_not_both(read_page, page_count, n, backup_page(b, n), x);
        },
    }
}

/// A backup that ended at page `at` was given the page `earlier` before it,
/// so a reader that answers in one way only has not refused that page.
proof fn refused_is_not_given<F: Fn(i64, usize) -> Result<Vec<u8>, ReadError>>(
    read_page: F,
    page_count: i64,
    e: ReadError,
    at: i64,
    earlier: i64,
    refusal: ReadError,
)
    requires
        answers_once(read_page, page_count),
        fails_at(read_page, page_count, e, at),
        1 <= earlier < at,
    ensures
        !call_ensures(read_page, (earlier, PAGE_SIZE), Err::<Vec<u8>, ReadError>(refusal)),
{
    let head = choose|head: Seq<u8>|
        {
            &&& #[trigger] head.len() == backup_len((at - 1) as i64)
            &&& forall|m: i64|
                1 <= m < at ==> #[trigger] gives_page(read_page, m, backup_page(head, m))
        };
    assert(gives_page(read_page, earlier, backup_page(head, earlier)));
    if call_ensures(read_page, (earlier, PAGE_SIZE), Err::<Vec<u8>, ReadError>(refusal)) {
        page_not_both(read_page, page_count, earlier, backup_page(head, earlier), refusal);
    }
}

/// A reader that answers in one way only gives one page per request.
proof fn same_page<F: Fn(i64, usize) -> Result<Vec<u8>, ReadError>>(
    read_page: F,
    page_count: i64,
    n: i64,
    first: Seq<u8>,
    second: Seq<u8>,
)
    requires
        answers_once(read_page, page_count),
        1 <= n <= page_count,
        gives_page(read_page, n, first),
        gives_page(read_page, n, second),
    ensures
        first == second,
{
    let a = choose|page: Vec<u8>|
        page@ == first && #[trigger] call_ensures(
            read_page,
            (n, PAGE_SIZE),
            Ok::<Vec<u8>, ReadError>(page),
        );
    let b = choose|page: Vec<u8>|
        page@ == second && #[trigger] call_ensures(
            read_page,
            (n, PAGE_SIZE),
            Ok::<Vec<u8>, ReadError>(page),
        );
    assert(outcome(Ok::<Vec<u8>, ReadError>(a)) == outcome(Ok::<Vec<u8>, ReadError>(b)));
}

/// A reader that answers in one way only gives no page where it has
/// refused one.
proof fn page_not_both<F: Fn(i64, usize) -> Result<Vec<u8>, ReadError>>(
    read_page: F,
    page_count: i64,
    n: i64,
    bytes: Seq<u8>,
    e: ReadError,
)
    requires
        answers_once(read_page, page_count),
        1 <= n <= page_count,
        call_ensures(read_page, (n, PAGE_SIZE), Err::<Vec<u8>, ReadError>(e)),
    ensures
        !gives_page(read_page, n, bytes),
{
    if gives_page(read_page, n, bytes) {
        let a = choose|page: Vec<u8>|
            page@ == bytes && #[trigger] call_ensures(
                read_page,
                (n, PAGE_SIZE),
                Ok::<Vec<u8>, ReadError>(page),
            );
        assert(outcome(Ok::<Vec<u8>, ReadError>(a)) == outcome(Err::<Vec<u8>, ReadError>(e)));
    }
}

} // verus!
