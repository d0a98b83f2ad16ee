use vstd::prelude::*;

use crate::error::AdtsError;
use crate::stream::ByteStream;

verus! {

/// The longest ADTS header, in bytes, and the width of each window that the scanner reads.
pub const ADTS_HDR_MAX_LEN: usize = 9;

/// How far a window that holds no pattern advances the scan: four bytes of each window are
/// read again by the next, so that a pattern across the boundary is not missed.
pub const SCAN_STEP: usize = 5;

/// The loose two-byte synchronisation pattern at index `j` of `b`: a byte `0xFF`, then a byte
/// whose upper four bits are all set.
pub open spec fn sync_pair(b: Seq<u8>, j: int) -> bool {
    &&& 0 <= j
    &&& j + 1 < b.len()
    &&& b[j] == 0xFF
    &&& b[j + 1] & 0xF0 == 0xF0
}

/// `k` is the first position at or after `p` where the pattern starts.
pub open spec fn first_sync_from(d: Seq<u8>, p: int, k: int) -> bool {
    &&& p <= k
    &&& sync_pair(d, k)
    &&& forall|j: int| p <= j < k ==> !#[trigger] sync_pair(d, j)
}

/// Where the window that first sees a pattern at `k` starts, for a scan begun at `p`: windows
/// start at `p`, `p + 5`, `p + 10`, ..., and each one sees the patterns that start in its first
/// eight bytes.
pub open spec fn window_start(p: int, k: int) -> int {
    if k - p <= 7 {
        p
    } else {
        p + 5 * ((k - p - 3) / 5)
    }
}

/// A scan begun at `p` stops at `k`: `k` is the first pattern, and the whole window that
/// sees it lies within the stream.
pub open spec fn scan_stops_at(d: Seq<u8>, p: int, k: int) -> bool {
    &&& first_sync_from(d, p, k)
    &&& window_start(p, k) + ADTS_HDR_MAX_LEN <= d.len()
}

/// Where a scan of `d` begun at `p` finds its pattern, if it finds one before a read runs out.
pub open spec fn locate_spec(d: Seq<u8>, p: int) -> Option<int> {
    if exists|k: int| scan_stops_at(d, p, k) {
        Some(choose|k: int| scan_stops_at(d, p, k))
    } else {
        None
    }
}

/// There is at most one first pattern.
pub proof fn lemma_first_sync_unique(d: Seq<u8>, p: int, k1: int, k2: int)
    requires
        first_sync_from(d, p, k1),
        first_sync_from(d, p, k2),
    ensures
        k1 == k2,
{
    if k1 < k2 {
        assert(sync_pair(d, k1));
    } else if k2 < k1 {
        assert(sync_pair(d, k2));
    }
}

/// A scan that stops at `k` is what `locate_spec` reports.
pub proof fn lemma_locate_is(d: Seq<u8>, p: int, k: int)
    requires
        scan_stops_at(d, p, k),
    ensures
        locate_spec(d, p) == Some(k),
{
    let c = choose|c: int| scan_stops_at(d, p, c);
    lemma_first_sync_unique(d, p, c, k);
}

/// A scan begun at `p` over noise that holds no pattern, followed by a pattern at `k`, stops
/// exactly at `k`, however far past `p` it lies, once the window that sees it can be read.
pub proof fn lemma_locate_after_noise(d: Seq<u8>, p: int, k: int)
    requires
        p <= k,
        forall|j: int| p <= j < k ==> !#[trigger] sync_pair(d, j),
        sync_pair(d, k),
        window_start(p, k) + ADTS_HDR_MAX_LEN <= d.len(),
    ensures
        locate_spec(d, p) == Some(k),
{
    lemma_locate_is(d, p, k);
}

/// A scan begun with fewer than nine bytes left finds nothing: its first read falls short.
pub proof fn lemma_short_scan_fails(d: Seq<u8>, p: int)
    requires
        p + ADTS_HDR_MAX_LEN > d.len(),
    ensures
        locate_spec(d, p) is None,
{
    assert forall|k: int| !scan_stops_at(d, p, k) by {
        if scan_stops_at(d, p, k) {
            lemma_window_start(p, p, k);
        }
    }
}

/// Where windows start at `p + 5 * m` and none before `w` held a pattern, a pattern that
/// `w` did not rule out is first seen no earlier than `w`, and exactly at `w` when the window
/// at `w` holds it.
proof fn lemma_window_start(p: int, w: int, k: int)
    requires
        p <= w,
        (w - p) % 5 == 0,
        p <= k,
        w == p || k >= w + 3,
    ensures
        window_start(p, k) >= w,
        k <= w + 7 ==> window_start(p, k) == w,
{
    if w > p {
        let m = (w - p) / 5;
        assert(w == p + 5 * m && m >= 1) by (nonlinear_arith)
            requires
                w > p,
                (w - p) % 5 == 0,
                m == (w - p) / 5,
        ;
        assert((k - p - 3) / 5 >= m) by (nonlinear_arith)
            requires
                k - p - 3 >= 5 * m,
        ;
        if k <= w + 7 {
            assert((k - p - 3) / 5 == m) by (nonlinear_arith)
                requires
                    k - p - 3 >= 5 * m,
                    k - p - 3 < 5 * m + 5,
            ;
        }
    } else {
        if k - p > 7 {
            assert((k - p - 3) / 5 >= 0) by (nonlinear_arith)
                requires
                    k - p - 3 >= 0,
            ;
        }
    }
}

/// The index of the first loose synchronisation pattern in `buf`, if there is one.
pub fn find_startcode(buf: &[u8]) -> (r: Option<usize>)
    ensures
        match r {
            Some(i) => {
                &&& sync_pair(buf@, i as int)
                &&& forall|j: int| 0 <= j < i ==> !#[trigger] sync_pair(buf@, j)
            },
            None => forall|j: int| !#[trigger] sync_pair(buf@, j),
        },
{
    if buf.len() < 2 {
        return None;
    }
    let mut i: usize = 0;
    while i < buf.len() - 1
        invariant
            buf@.len() >= 2,
            forall|j: int| 0 <= j < i ==> !#[trigger] sync_pair(buf@, j),
        decreases buf.len() - i,
    {
        if buf[i] == 0xFF && (buf[i + 1] & 0xF0) == 0xF0 {
            return Some(i);
        }
        i = i + 1;
    }
    None
}

/// Moves `stream` to the first loose synchronisation pattern at or after its position and
/// returns that position.
///
/// The scan reads windows of nine bytes, each five bytes past the last. It fails with
/// `IoFailure` when a window cannot be read in full before a pattern is seen.
pub fn seek_startcode(stream: &mut ByteStream) -> (r: Result<usize, AdtsError>)
    ensures
        final(stream).contents() == old(stream).contents(),
        match r {
            Ok(k) => {
                &&& locate_spec(old(stream).contents(), old(stream).cursor() as int) == Some(
                    k as int,
                )
                &&& final(stream).cursor() == k
            },
            Err(e) => {
                &&& e == AdtsError::IoFailure
                &&& locate_spec(old(stream).contents(), old(stream).cursor() as int) is None
            },
        },
{
    let ghost d = stream.contents();
    let ghost p = stream.cursor() as int;
    loop
        invariant
            stream.contents() == d,
            d == old(stream).contents(),
            p == old(stream).cursor(),
            p <= stream.cursor(),
            (stream.cursor() - p) % 5 == 0,
            stream.cursor() == p || stream.cursor() <= d.len(),
            forall|j: int| p <= j < stream.cursor() ==> !#[trigger] sync_pair(d, j),
            stream.cursor() > p ==> forall|j: int|
                p <= j < stream.cursor() + 3 ==> !#[trigger] sync_pair(d, j),
        decreases d.len() + 1 - stream.cursor(),
    {
        let ghost w = stream.cursor() as int;
        let window = match stream.read_exact(ADTS_HDR_MAX_LEN) {
            Ok(v) => v,
            Err(e) => {
                proof {
                    assert forall|k: int| !scan_stops_at(d, p, k) by {
                        if scan_stops_at(d, p, k) {
                            lemma_window_start(p, w, k);
                        }
                    }
                }
                return Err(e);
            },
        };
        assert(forall|j: int|
            0 <= j < 8 ==> (sync_pair(window@, j) == #[trigger] sync_pair(d, w + j)));
        match find_startcode(window.as_slice()) {
            Some(i) => {
                let ghost k = w + i;
                assert(first_sync_from(d, p, k)) by {
                    assert forall|j: int| p <= j < k implies !#[trigger] sync_pair(d, j) by {
                        if j >= w {
                            assert(!sync_pair(window@, j - w));
                        }
                    }
                }
                proof {
                    if w > p {
                        assert(k >= w + 3);
                    }
                    lemma_window_start(p, w, k);
                    lemma_locate_is(d, p, k);
                }
                let back: i64 = (ADTS_HDR_MAX_LEN - i) as i64;
                return stream.seek_relative(-back);
            },
            None => {
                assert forall|j: int| p <= j < w + 8 implies !#[trigger] sync_pair(d, j) by {
                    if j >= w {
                        assert(!sync_pair(window@, j - w));
                    }
                }
                let _ = stream.seek_relative(-((ADTS_HDR_MAX_LEN - SCAN_STEP) as i64));
                assert((w + 5 - p) % 5 == 0) by (nonlinear_arith)
                    requires
                        (w - p) % 5 == 0,
                ;
            },
        }
    }
}

} // verus!
