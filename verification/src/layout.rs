//! The byte layout of a bare EXIF block (a TIFF header followed by its first image
//! file directory), as far as the orientation tag is concerned.
use vstd::prelude::*;

verus! {

/// Length of an EXIF block that holds nothing but an orientation tag.
pub const ORIENTATION_EXIF_LEN: usize = 26;

/// Length of one image file directory entry.
pub const ENTRY_LEN: usize = 12;

/// The TIFF tag number of `Orientation`.
pub const ORIENTATION_TAG: u16 = 0x0112;

/// The TIFF field type number of `SHORT` (an unsigned 16-bit value).
pub const SHORT_TYPE: u16 = 3;

/// The 16-bit value stored at `s[at..at + 2]` in the given byte order.
pub open spec fn read_u16(s: Seq<u8>, at: int, big_endian: bool) -> int {
    if big_endian {
        s[at] * 256 + s[at + 1]
    } else {
        s[at + 1] * 256 + s[at]
    }
}

/// The 32-bit value stored at `s[at..at + 4]` in the given byte order.
pub open spec fn read_u32(s: Seq<u8>, at: int, big_endian: bool) -> int {
    if big_endian {
        s[at] * 16777216 + s[at + 1] * 65536 + s[at + 2] * 256 + s[at + 3]
    } else {
        s[at + 3] * 16777216 + s[at + 2] * 65536 + s[at + 1] * 256 + s[at]
    }
}

/// The two bytes of `v` in the given byte order.
pub open spec fn u16_bytes(v: u16, big_endian: bool) -> Seq<u8> {
    if big_endian {
        seq![(v / 256) as u8, (v % 256) as u8]
    } else {
        seq![(v % 256) as u8, (v / 256) as u8]
    }
}

/// The little-endian bytes of a 32-bit value.
pub open spec fn u32_le_bytes(v: u32) -> Seq<u8> {
    seq![(v % 256) as u8, (v / 256 % 256) as u8, (v / 65536 % 256) as u8, (v / 16777216) as u8]
}

/// The byte order announced by the header: `Some(true)` for `MM` (big endian),
/// `Some(false)` for `II` (little endian), `None` when the block is shorter than the
/// 8-byte header or starts with neither mark.
pub open spec fn byte_order(s: Seq<u8>) -> Option<bool> {
    if s.len() < 8 {
        None
    } else if s[0] == 0x4D && s[1] == 0x4D {
        Some(true)
    } else if s[0] == 0x49 && s[1] == 0x49 {
        Some(false)
    } else {
        None
    }
}

/// Offset of the `index`-th entry of the directory that starts at `ifd`.
pub open spec fn entry_offset(ifd: int, index: int) -> int {
    ifd + 2 + index * 12
}

/// The entry at `at` lies inside the block and is an orientation tag: tag `0x0112`,
/// type `SHORT`, one value.
pub open spec fn is_orientation_entry(s: Seq<u8>, big_endian: bool, at: int) -> bool {
    &&& 0 <= at
    &&& at + 12 <= s.len()
    &&& read_u16(s, at, big_endian) == ORIENTATION_TAG
    &&& read_u16(s, at + 2, big_endian) == SHORT_TYPE
    &&& read_u32(s, at + 4, big_endian) == 1
}

/// Walks the entries `index..count` of the directory at `ifd` and gives the offset of
/// the first orientation entry; the walk stops with `None` at the first entry that does
/// not fit in the block.
pub open spec fn first_orientation_entry(
    s: Seq<u8>,
    big_endian: bool,
    ifd: int,
    count: int,
    index: int,
) -> Option<int>
    decreases count - index,
{
    if index >= count {
        None
    } else if entry_offset(ifd, index) + 12 > s.len() {
        None
    } else if is_orientation_entry(s, big_endian, entry_offset(ifd, index)) {
        Some(entry_offset(ifd, index))
    } else {
        first_orientation_entry(s, big_endian, ifd, count, index + 1)
    }
}

/// The offset of the first directory (IFD0), read from header bytes 4..8.
pub open spec fn ifd0_offset(s: Seq<u8>, big_endian: bool) -> int {
    read_u32(s, 4, big_endian)
}

/// Where the two value bytes of the orientation tag of IFD0 lie, if the block has a
/// readable header, a readable entry count and an orientation entry among the entries
/// that fit.
pub open spec fn orientation_value_offset(s: Seq<u8>) -> Option<int> {
    match byte_order(s) {
        None => None,
        Some(big_endian) => {
            let ifd = ifd0_offset(s, big_endian);
            if ifd + 2 > s.len() {
                None
            } else {
                match first_orientation_entry(
                    s,
                    big_endian,
                    ifd,
                    read_u16(s, ifd, big_endian),
                    0,
                ) {
                    Some(at) => Some(at + 8),
                    None => None,
                }
            }
        },
    }
}

/// The orientation that the block records in IFD0, if it records one there.
pub open spec fn orientation_value(s: Seq<u8>) -> Option<u16> {
    match orientation_value_offset(s) {
        Some(at) => Some(read_u16(s, at, byte_order(s).unwrap()) as u16),
        None => None,
    }
}

/// The block with the orientation value of IFD0 replaced by `v`, written in the block's
/// own byte order; the block itself when it has no orientation entry to rewrite.
pub open spec fn with_orientation(s: Seq<u8>, v: u16) -> Seq<u8> {
    match orientation_value_offset(s) {
        Some(at) => s.take(at) + u16_bytes(v, byte_order(s).unwrap()) + s.skip(at + 2),
        None => s,
    }
}

/// A little-endian EXIF block whose IFD0 holds a single entry: the orientation `v`.
pub open spec fn orientation_exif(v: u16) -> Seq<u8> {
    seq![0x49u8, 0x49, 0x2A, 0x00] + u32_le_bytes(8) + u16_bytes(1, false) + u16_bytes(
        ORIENTATION_TAG,
        false,
    ) + u16_bytes(SHORT_TYPE, false) + u32_le_bytes(1) + u16_bytes(v, false) + seq![0u8, 0]
        + u32_le_bytes(0)
}

/// Reads a 16-bit value at `at` in the given byte order.
pub fn read_u16_at(data: &[u8], at: usize, big_endian: bool) -> (v: u16)
    requires
        at + 2 <= data@.len(),
    ensures
        v == read_u16(data@, at as int, big_endian),
{
    let b0 = data[at] as u16;
    let b1 = data[at + 1] as u16;
    if big_endian {
        b0 * 256 + b1
    } else {
        b1 * 256 + b0
    }
}

/// Reads a 32-bit value at `at` in the given byte order.
pub fn read_u32_at(data: &[u8], at: usize, big_endian: bool) -> (v: u32)
    requires
        at + 4 <= data@.len(),
    ensures
        v == read_u32(data@, at as int, big_endian),
{
    let b0 = data[at] as u32;
    let b1 = data[at + 1] as u32;
    let b2 = data[at + 2] as u32;
    let b3 = data[at + 3] as u32;
    if big_endian {
        b0 * 16777216 + b1 * 65536 + b2 * 256 + b3
    } else {
        b3 * 16777216 + b2 * 65536 + b1 * 256 + b0
    }
}

/// The two bytes of a 16-bit value, in the given byte order, read back give the value.
pub proof fn lemma_u16_bytes_read(v: u16, big_endian: bool)
    ensures
        u16_bytes(v, big_endian).len() == 2,
        read_u16(u16_bytes(v, big_endian), 0, big_endian) == v,
{
}

/// The walk over the entries sees only the first eight bytes of each entry up to the
/// one it finds: a block that agrees with `s` on `[0, limit)` and has the same length
/// finds the same entry, when that entry's first eight bytes lie below `limit`.
proof fn lemma_first_entry_depends_on_prefix(
    s: Seq<u8>,
    t: Seq<u8>,
    big_endian: bool,
    ifd: int,
    count: int,
    index: int,
    limit: int,
)
    requires
        0 <= ifd,
        0 <= index,
        s.len() == t.len(),
        limit <= s.len(),
        forall|i: int| 0 <= i < limit ==> s[i] == t[i],
        first_orientation_entry(s, big_endian, ifd, count, index) matches Some(at) && at + 8
            <= limit,
    ensures
        first_orientation_entry(t, big_endian, ifd, count, index) == first_orientation_entry(
            s,
            big_endian,
            ifd,
            count,
            index,
        ),
    decreases count - index,
{
    let at = entry_offset(ifd, index);
    if index < count && at + 12 <= s.len() {
        let found = first_orientation_entry(s, big_endian, ifd, count, index).unwrap();
        if is_orientation_entry(s, big_endian, at) {
            assert(found == at);
        } else {
            lemma_first_entry_at_or_after(s, big_endian, ifd, count, index + 1);
        }
        assert(at + 8 <= limit);
        // the tag, type and count fields of this entry lie below `limit`: they read the same
        assert(is_orientation_entry(t, big_endian, at) == is_orientation_entry(s, big_endian, at));
        if !is_orientation_entry(s, big_endian, at) {
            lemma_first_entry_depends_on_prefix(s, t, big_endian, ifd, count, index + 1, limit);
        }
    }
}

/// The entry that the walk finds lies at or after the entry it starts from, inside
/// the block, and is an orientation entry.
pub proof fn lemma_first_entry_at_or_after(
    s: Seq<u8>,
    big_endian: bool,
    ifd: int,
    count: int,
    index: int,
)
    requires
        0 <= ifd,
        0 <= index,
    ensures
        first_orientation_entry(s, big_endian, ifd, count, index) matches Some(at) ==> {
            &&& entry_offset(ifd, index) <= at
            &&& is_orientation_entry(s, big_endian, at)
            &&& exists|k: int| index <= k < count && at == entry_offset(ifd, k)
        },
    decreases count - index,
{
    if index < count && entry_offset(ifd, index) + 12 <= s.len() && !is_orientation_entry(
        s,
        big_endian,
        entry_offset(ifd, index),
    ) {
        lemma_first_entry_at_or_after(s, big_endian, ifd, count, index + 1);
    }
}


/// The orientation value lies inside the block, past the header and the entry count.
pub proof fn lemma_value_offset_bounds(s: Seq<u8>)
    ensures
        orientation_value_offset(s) matches Some(at) ==> {
            &&& 10 <= at
            &&& ifd0_offset(s, byte_order(s).unwrap()) + 10 <= at
            &&& at + 4 <= s.len()
        },
{
    if let Some(at) = orientation_value_offset(s) {
        let big_endian = byte_order(s).unwrap();
        let ifd = ifd0_offset(s, big_endian);
        lemma_first_entry_at_or_after(s, big_endian, ifd, read_u16(s, ifd, big_endian), 0);
    }
}

/// Rewriting the orientation keeps the block's length, its byte order and the place of
/// its orientation value: only the two value bytes can change, and they lie after the
/// header, the entry count and every entry byte that the search for the tag reads.
pub proof fn lemma_rewrite_keeps_layout(s: Seq<u8>, v: u16)
    ensures
        with_orientation(s, v).len() == s.len(),
        byte_order(with_orientation(s, v)) == byte_order(s),
        orientation_value_offset(with_orientation(s, v)) == orientation_value_offset(s),
{
    let t = with_orientation(s, v);
    if let Some(at) = orientation_value_offset(s) {
        let big_endian = byte_order(s).unwrap();
        let ifd = ifd0_offset(s, big_endian);
        let count = read_u16(s, ifd, big_endian);
        lemma_first_entry_at_or_after(s, big_endian, ifd, count, 0);
        assert(at >= ifd + 10);
        assert forall|i: int| 0 <= i < at implies s[i] == t[i] by {}
        assert(t[0] == s[0] && t[1] == s[1]);
        assert(t[4] == s[4] && t[5] == s[5] && t[6] == s[6] && t[7] == s[7]);
        assert(byte_order(t) == byte_order(s));
        assert(ifd0_offset(t, big_endian) == ifd);
        assert(t[ifd] == s[ifd] && t[ifd + 1] == s[ifd + 1]);
        lemma_first_entry_depends_on_prefix(s, t, big_endian, ifd, count, 0, at);
    }
}

/// Read after write: once the orientation is rewritten to `v`, the block records `v`;
/// a block without an orientation entry is left exactly as it was.
pub proof fn law_orientation_read_after_rewrite(s: Seq<u8>, v: u16)
    ensures
        orientation_value_offset(s) is Some ==> orientation_value(with_orientation(s, v))
            == Some(v),
        orientation_value_offset(s) is None ==> with_orientation(s, v) == s,
{
    lemma_rewrite_keeps_layout(s, v);
    lemma_value_offset_bounds(s);
    if let Some(at) = orientation_value_offset(s) {
        let t = with_orientation(s, v);
        let big_endian = byte_order(s).unwrap();
        lemma_u16_bytes_read(v, big_endian);
        assert(t[at] == u16_bytes(v, big_endian)[0]);
        assert(t[at + 1] == u16_bytes(v, big_endian)[1]);
    }
}

/// The last rewrite wins: rewriting to `a` and then to `b` gives the same block as
/// rewriting to `b` alone.
pub proof fn law_last_rewrite_wins(s: Seq<u8>, a: u16, b: u16)
    ensures
        with_orientation(with_orientation(s, a), b) == with_orientation(s, b),
{
    lemma_rewrite_keeps_layout(s, a);
    lemma_value_offset_bounds(s);
    if let Some(at) = orientation_value_offset(s) {
        let t = with_orientation(s, a);
        let big_endian = byte_order(s).unwrap();
        assert(with_orientation(t, b) =~= with_orientation(s, b));
    }
}

/// Rewriting the orientation to the value the block already records leaves it as it is.
pub proof fn law_rewrite_to_same_value_is_identity(s: Seq<u8>)
    ensures
        orientation_value(s) matches Some(v) ==> with_orientation(s, v) == s,
{
    if let Some(at) = orientation_value_offset(s) {
        let big_endian = byte_order(s).unwrap();
        let ifd = ifd0_offset(s, big_endian);
        let count = read_u16(s, ifd, big_endian);
        lemma_first_entry_at_or_after(s, big_endian, ifd, count, 0);
        let v = orientation_value(s).unwrap();
        assert(with_orientation(s, v) =~= s);
    }
}

/// The block built for orientation `v` is 26 bytes long, records `v`, and rewriting it
/// to `w` gives the block built for `w`.
pub proof fn law_orientation_exif_round_trip(v: u16, w: u16)
    ensures
        orientation_exif(v).len() == ORIENTATION_EXIF_LEN,
        orientation_value(orientation_exif(v)) == Some(v),
        with_orientation(orientation_exif(v), w) == orientation_exif(w),
{
    let s = orientation_exif(v);
    assert(byte_order(s) == Some(false));
    assert(ifd0_offset(s, false) == 8);
    assert(read_u16(s, 8, false) == 1);
    assert(is_orientation_entry(s, false, 10));
    assert(first_orientation_entry(s, false, 8, 1, 0) == Some(10int));
    assert(orientation_value_offset(s) == Some(18int));
    lemma_u16_bytes_read(v, false);
    assert(read_u16(s, 18, false) == v);
    assert(with_orientation(s, w) =~= orientation_exif(w));
}


/// The tag, type and count fields of the entry at `at` say "orientation": tag `0x0112`,
/// type `SHORT`, one value.
pub open spec fn entry_says_orientation(s: Seq<u8>, big_endian: bool, at: int) -> bool {
    &&& read_u16(s, at, big_endian) == 0x0112
    &&& read_u16(s, at + 2, big_endian) == 3
    &&& read_u32(s, at + 4, big_endian) == 1
}

/// The walk from entry `i` reaches entry `k` when every entry from `i` up to `k` fits and
/// none before `k` says "orientation".
proof fn lemma_walk_reaches(
    s: Seq<u8>,
    big_endian: bool,
    ifd: int,
    count: int,
    i: int,
    k: int,
)
    requires
        0 <= ifd,
        0 <= i <= k < count,
        forall|j: int|
            0 <= j <= k ==> #[trigger] entry_offset(ifd, j) + 12 <= s.len(),
        forall|j: int|
            0 <= j < k ==> !entry_says_orientation(s, big_endian, #[trigger] entry_offset(ifd, j)),
    ensures
        first_orientation_entry(s, big_endian, ifd, count, i) == if entry_says_orientation(
            s,
            big_endian,
            entry_offset(ifd, k),
        ) {
            Some(entry_offset(ifd, k))
        } else {
            first_orientation_entry(s, big_endian, ifd, count, k + 1)
        },
    decreases k - i,
{
    assert(entry_offset(ifd, i) + 12 <= s.len());
    if i < k {
        assert(!entry_says_orientation(s, big_endian, entry_offset(ifd, i)));
        lemma_walk_reaches(s, big_endian, ifd, count, i + 1, k);
    }
}

/// Rewriting finds the orientation entry wherever it stands among the entries of IFD0:
/// when entry `k` says "orientation" and every entry before it fits in the block and
/// says something else (whatever its tag, type or count), the rewritten block has the
/// same length, differs from the block only in the two value bytes of entry `k`, and
/// those read `v` in the block's byte order.
pub proof fn law_rewrite_finds_orientation_entry(s: Seq<u8>, v: u16, big_endian: bool, k: int)
    requires
        byte_order(s) == Some(big_endian),
        read_u32(s, 4, big_endian) + 2 <= s.len(),
        0 <= k < read_u16(s, read_u32(s, 4, big_endian), big_endian),
        entry_offset(read_u32(s, 4, big_endian), k) + 12 <= s.len(),
        entry_says_orientation(s, big_endian, entry_offset(read_u32(s, 4, big_endian), k)),
        forall|j: int|
            0 <= j < k ==> #[trigger] entry_offset(read_u32(s, 4, big_endian), j) + 12
                <= s.len() && !entry_says_orientation(
                s,
                big_endian,
                entry_offset(read_u32(s, 4, big_endian), j),
            ),
    ensures
        ({
            let r = with_orientation(s, v);
            let at = read_u32(s, 4, big_endian) + 2 + 12 * k + 8;
            &&& r.len() == s.len()
            &&& forall|i: int| 0 <= i < s.len() && (i < at || at + 2 <= i) ==> r[i] == s[i]
            &&& read_u16(r, at, big_endian) == v
            &&& orientation_value(r) == Some(v)
        }),
{
    let ifd = read_u32(s, 4, big_endian);
    let count = read_u16(s, ifd, big_endian);
    assert forall|j: int| 0 <= j <= k implies #[trigger] entry_offset(ifd, j) + 12 <= s.len() by {
        if j < k {
            assert(entry_offset(ifd, j) + 12 <= s.len());
        }
    }
    assert forall|j: int| 0 <= j < k implies !entry_says_orientation(
        s,
        big_endian,
        #[trigger] entry_offset(ifd, j),
    ) by {
        assert(entry_offset(ifd, j) + 12 <= s.len());
    }
    lemma_walk_reaches(s, big_endian, ifd, count, 0, k);
    assert(orientation_value_offset(s) == Some(entry_offset(ifd, k) + 8));
    law_orientation_read_after_rewrite(s, v);
    lemma_u16_bytes_read(v, big_endian);
    let r = with_orientation(s, v);
    let at = entry_offset(ifd, k) + 8;
    assert(r[at] == u16_bytes(v, big_endian)[0]);
    assert(r[at + 1] == u16_bytes(v, big_endian)[1]);
}

/// A block whose entries up to the first one that runs past its end (or up to the
/// announced count) all fit and say something other than "orientation" is left as it
/// is.
pub proof fn law_rewrite_without_orientation_entry(s: Seq<u8>, v: u16, big_endian: bool, m: int)
    requires
        byte_order(s) == Some(big_endian),
        read_u32(s, 4, big_endian) + 2 <= s.len(),
        0 <= m <= read_u16(s, read_u32(s, 4, big_endian), big_endian),
        m == read_u16(s, read_u32(s, 4, big_endian), big_endian) || entry_offset(
            read_u32(s, 4, big_endian),
            m,
        ) + 12 > s.len(),
        forall|j: int|
            0 <= j < m ==> #[trigger] entry_offset(read_u32(s, 4, big_endian), j) + 12
                <= s.len() && !entry_says_orientation(
                s,
                big_endian,
                entry_offset(read_u32(s, 4, big_endian), j),
            ),
    ensures
        with_orientation(s, v) == s,
{
    let ifd = read_u32(s, 4, big_endian);
    let count = read_u16(s, ifd, big_endian);
    lemma_walk_to_end(s, big_endian, ifd, count, 0, m);
}

/// The walk from entry `i` finds nothing when every entry from `i` up to `m` fits and
/// says something else, and entry `m` is past the count or past the end.
proof fn lemma_walk_to_end(s: Seq<u8>, big_endian: bool, ifd: int, count: int, i: int, m: int)
    requires
        0 <= ifd,
        0 <= i <= m <= count,
        m == count || entry_offset(ifd, m) + 12 > s.len(),
        forall|j: int|
            0 <= j < m ==> #[trigger] entry_offset(ifd, j) + 12 <= s.len()
                && !entry_says_orientation(s, big_endian, entry_offset(ifd, j)),
    ensures
        first_orientation_entry(s, big_endian, ifd, count, i) is None,
    decreases m - i,
{
    if i < m {
        assert(entry_offset(ifd, i) + 12 <= s.len());
        lemma_walk_to_end(s, big_endian, ifd, count, i + 1, m);
    }
}

} // verus!
