//! Identity ranges and the mapping of container identifiers onto host
//! identifiers.

use vstd::prelude::*;
use vstd::string::*;
use crate::config::Settings;

verus! {

/// A contiguous block of user or group identifiers: `count` identifiers
/// starting at `start`.
#[derive(Clone, Copy, Debug, PartialEq, Eq, Structural)]
pub struct Range {
    pub start: u32,
    pub count: u32,
}

/// One row of an identity map: `count` identifiers starting at `inside` in
/// the container stand for the `count` identifiers starting at `outside` on
/// the host.
#[derive(Clone, Copy, Debug, PartialEq, Eq, Structural)]
pub struct MapEntry {
    pub inside: u32,
    pub outside: u32,
    pub count: u32,
}

/// The rows for user identifiers and, separately, for group identifiers.
#[derive(Clone, Debug)]
pub struct IdentityMap {
    pub uids: Vec<MapEntry>,
    pub gids: Vec<MapEntry>,
}

/// Why no identity map could be made.
#[derive(Clone, Copy, Debug, PartialEq, Eq, Structural)]
pub enum MapError {
    /// A range runs past the largest identifier.
    OutOfRange,
    /// Two requested ranges, or two ranges of the host, share an identifier.
    Overlap,
    /// The host offers fewer user identifiers than the container asks for.
    InsufficientUids,
    /// The host offers fewer group identifiers than the container asks for.
    InsufficientGids,
}

impl Range {
    /// The block does not run past the largest identifier.
    pub open spec fn fits(self) -> bool {
        self.start + self.count <= 0x1_0000_0000
    }

    /// The two blocks share an identifier.
    pub open spec fn overlaps(self, other: Range) -> bool {
        &&& self.count > 0
        &&& other.count > 0
        &&& self.start < other.start + other.count
        &&& other.start < self.start + self.count
    }
}

/// Whether no two ranges of the list share an identifier.
pub open spec fn disjoint(ranges: Seq<Range>) -> bool {
    forall|i: int, j: int|
        0 <= i < j < ranges.len() ==> !(#[trigger] ranges[i]).overlaps(#[trigger] ranges[j])
}

impl IdentityMap {
    /// No identifier occurs twice on either side of the map, for users and
    /// for groups: every identifier of the container stands for one of the
    /// host, and no identifier of the host for two of the container.
    pub open spec fn one_to_one(&self) -> bool {
        &&& inside_ids(self.uids@).no_duplicates()
        &&& outside_ids(self.uids@).no_duplicates()
        &&& inside_ids(self.gids@).no_duplicates()
        &&& outside_ids(self.gids@).no_duplicates()
    }
}

/// `count` consecutive identifiers, from `start` upwards.
pub open spec fn block(start: int, count: int) -> Seq<int> {
    Seq::new(count as nat, |i: int| start + i)
}

/// The identifiers of a list of ranges, in the order of the list.
pub open spec fn ids_of(ranges: Seq<Range>) -> Seq<int>
    decreases ranges.len(),
{
    if ranges.len() == 0 {
        Seq::empty()
    } else {
        ids_of(ranges.drop_last()) + block(
            ranges.last().start as int,
            ranges.last().count as int,
        )
    }
}

/// The container's identifiers that the rows of a map cover, row by row.
pub open spec fn inside_ids(rows: Seq<MapEntry>) -> Seq<int>
    decreases rows.len(),
{
    if rows.len() == 0 {
        Seq::empty()
    } else {
        inside_ids(rows.drop_last()) + block(rows.last().inside as int, rows.last().count as int)
    }
}

/// The host's identifiers that the rows of a map cover, row by row. The
/// identifier at a position stands for the container's identifier at the
/// same position of `inside_ids`.
pub open spec fn outside_ids(rows: Seq<MapEntry>) -> Seq<int>
    decreases rows.len(),
{
    if rows.len() == 0 {
        Seq::empty()
    } else {
        outside_ids(rows.drop_last()) + block(
            rows.last().outside as int,
            rows.last().count as int,
        )
    }
}

/// Whether every range of the list fits.
pub open spec fn all_fit(ranges: Seq<Range>) -> bool {
    forall|i: int| 0 <= i < ranges.len() ==> (#[trigger] ranges[i]).fits()
}

/// The rows that lay what is left of the requested ranges onto what is left
/// of the host's ranges: of the requested range `ri` the first `done`
/// identifiers are laid already, and of the host's range `hi` the first
/// `used` are taken. Each row is as long as it can be: it ends where the
/// requested range or the host's range ends, whichever comes first. Laying
/// stops where the request or the host is exhausted.
pub open spec fn lay(
    requested: Seq<Range>,
    host: Seq<Range>,
    ri: int,
    done: int,
    hi: int,
    used: int,
) -> Seq<MapEntry>
    decreases requested.len() - ri, host.len() - hi, (if 0 <= ri < requested.len() {
        requested[ri].count - done
    } else {
        0
    }),
{
    if ri < 0 || hi < 0 || done < 0 || used < 0 || ri >= requested.len() {
        Seq::empty()
    } else if done >= requested[ri].count {
        lay(requested, host, ri + 1, 0, hi, used)
    } else if hi >= host.len() {
        Seq::empty()
    } else if used >= host[hi].count {
        lay(requested, host, ri, done, hi + 1, 0)
    } else {
        let need = requested[ri].count - done;
        let free = host[hi].count - used;
        let len = if need < free {
            need
        } else {
            free
        };
        seq![
            MapEntry {
                inside: (requested[ri].start + done) as u32,
                outside: (host[hi].start + used) as u32,
                count: len as u32,
            },
        ] + lay(requested, host, ri, done + len, hi, used + len)
    }
}

/// The rows that lay the requested ranges onto the host's ranges, from the
/// first identifier of each.
pub open spec fn laid_rows(requested: Seq<Range>, host: Seq<Range>) -> Seq<MapEntry> {
    lay(requested, host, 0, 0, 0, 0)
}

/// Whether `rows` map the requested identifiers, all of them and in their
/// order, onto the first identifiers that the host offers, in their order.
pub open spec fn maps_onto(rows: Seq<MapEntry>, requested: Seq<Range>, host: Seq<Range>) -> bool {
    &&& inside_ids(rows) == ids_of(requested)
    &&& outside_ids(rows) == ids_of(host).take(ids_of(requested).len() as int)
    &&& ids_of(requested).len() <= ids_of(host).len()
    &&& forall|i: int| 0 <= i < rows.len() ==> (#[trigger] rows[i]).count > 0
}

/// A map for ranges that do not overlap, onto host ranges that do not
/// overlap, is one to one and complete: it covers as many identifiers as are
/// requested, the identifier at each position of the request stands for the
/// host's identifier at the same position, and no identifier occurs twice on
/// either side.
pub proof fn lemma_map_is_one_to_one(rows: Seq<MapEntry>, requested: Seq<Range>, host: Seq<Range>)
    requires
        maps_onto(rows, requested, host),
        ids_of(requested).no_duplicates(),
        ids_of(host).no_duplicates(),
    ensures
        inside_ids(rows).len() == ids_of(requested).len(),
        outside_ids(rows).len() == ids_of(requested).len(),
        forall|k: int|
            0 <= k < ids_of(requested).len() ==> inside_ids(rows)[k] == ids_of(requested)[k]
                && outside_ids(rows)[k] == ids_of(host)[k],
        inside_ids(rows).no_duplicates(),
        outside_ids(rows).no_duplicates(),
{
}

/// One row for each non-empty range of the list, of the range's own size,
/// onto consecutive identifiers of the host from `first` upwards.
pub open spec fn kept_rows(requested: Seq<Range>, first: int) -> Seq<MapEntry>
    decreases requested.len(),
{
    if requested.len() == 0 {
        Seq::empty()
    } else if requested[0].count == 0 {
        kept_rows(requested.skip(1), first)
    } else {
        seq![
            MapEntry {
                inside: requested[0].start,
                outside: first as u32,
                count: requested[0].count,
            },
        ] + kept_rows(requested.skip(1), first + requested[0].count)
    }
}

/// The number of identifiers of a list is that of its first range and of
/// the rest.
proof fn lemma_ids_len_front(ranges: Seq<Range>)
    requires
        ranges.len() > 0,
    ensures
        ids_of(ranges).len() == ranges[0].count + ids_of(ranges.skip(1)).len(),
    decreases ranges.len(),
{
    if ranges.len() == 1 {
        assert(ranges.drop_last() =~= Seq::<Range>::empty());
        assert(ranges.skip(1) =~= Seq::<Range>::empty());
        assert(ids_of(ranges.drop_last()).len() == 0);
    } else {
        lemma_ids_len_front(ranges.drop_last());
        assert(ranges.drop_last().skip(1) =~= ranges.skip(1).drop_last());
        assert(ranges.drop_last()[0] == ranges[0]);
        assert(ranges.skip(1).last() == ranges.last());
    }
}

/// What is left of a request is laid onto what is left of a single host
/// range, with room for it, as one row for each non-empty range.
proof fn lemma_lay_in_one_range(requested: Seq<Range>, room: Range, ri: int, used: int)
    requires
        0 <= ri <= requested.len(),
        0 <= used,
        used + ids_of(requested.skip(ri)).len() <= room.count,
    ensures
        lay(requested, seq![room], ri, 0, 0, used) == kept_rows(
            requested.skip(ri),
            room.start + used,
        ),
    decreases requested.len() - ri,
{
    let host = seq![room];
    let rest = requested.skip(ri);
    if ri < requested.len() {
        lemma_ids_len_front(rest);
        assert(rest[0] == requested[ri]);
        assert(rest.skip(1) =~= requested.skip(ri + 1));
        let wanted = requested[ri];
        if wanted.count == 0 {
            lemma_lay_in_one_range(requested, room, ri + 1, used);
        } else {
            lemma_lay_in_one_range(requested, room, ri + 1, used + wanted.count);
            assert(host[0] == room);
            assert(lay(requested, host, ri, wanted.count as int, 0, used + wanted.count) == lay(
                requested,
                host,
                ri + 1,
                0,
                0,
                used + wanted.count,
            ));
        }
    }
}

/// Range sizes are kept: where the host offers a single range with room for
/// the whole request, the map has one row for each non-empty requested
/// range, of that range's size, and the rows follow each other on the host
/// without a gap.
pub proof fn lemma_sizes_kept(requested: Seq<Range>, room: Range)
    requires
        ids_of(requested).len() <= room.count,
    ensures
        laid_rows(requested, seq![room]) == kept_rows(requested, room.start as int),
{
    assert(requested.skip(0) =~= requested);
    lemma_lay_in_one_range(requested, room, 0, 0);
}

/// Every identifier of a list of ranges lies in one of its ranges.
proof fn lemma_id_in_range(ranges: Seq<Range>, k: int)
    requires
        0 <= k < ids_of(ranges).len(),
    ensures
        exists|i: int|
            0 <= i < ranges.len() && (#[trigger] ranges[i]).count > 0 && ranges[i].start <= ids_of(
                ranges,
            )[k] < ranges[i].start + ranges[i].count,
    decreases ranges.len(),
{
    if ranges.len() > 0 {
        let rest = ranges.drop_last();
        if k < ids_of(rest).len() {
            lemma_id_in_range(rest, k);
            let i = choose|i: int|
                0 <= i < rest.len() && (#[trigger] rest[i]).count > 0 && rest[i].start <= ids_of(
                    rest,
                )[k] < rest[i].start + rest[i].count;
            assert(ranges[i] == rest[i]);
        } else {
            let last = ranges.len() - 1;
            assert(ranges[last].count > 0);
            assert(ids_of(ranges)[k] == ranges[last].start + (k - ids_of(rest).len()));
        }
    }
}

/// Two identifiers at different places of a list of disjoint ranges differ,
/// where those of the list without its last range do.
proof fn lemma_ids_differ(ranges: Seq<Range>, a: int, b: int)
    requires
        ranges.len() > 0,
        disjoint(ranges),
        ids_of(ranges.drop_last()).no_duplicates(),
        0 <= a < b < ids_of(ranges).len(),
    ensures
        ids_of(ranges)[a] != ids_of(ranges)[b],
{
    let rest = ranges.drop_last();
    let n = ids_of(rest).len() as int;
    let last = ranges.len() - 1;
    if b < n {
        assert(ids_of(ranges)[a] == ids_of(rest)[a]);
        assert(ids_of(ranges)[b] == ids_of(rest)[b]);
    } else if a >= n {
        assert(ids_of(ranges)[a] == ranges[last].start + (a - n));
        assert(ids_of(ranges)[b] == ranges[last].start + (b - n));
    } else {
        lemma_id_in_range(rest, a);
        let i = choose|i: int|
            0 <= i < rest.len() && (#[trigger] rest[i]).count > 0 && rest[i].start <= ids_of(
                rest,
            )[a] < rest[i].start + rest[i].count;
        assert(ranges[i] == rest[i]);
        assert(!ranges[i].overlaps(ranges[last]));
        assert(ids_of(ranges)[a] == ids_of(rest)[a]);
        assert(ids_of(ranges)[b] == ranges[last].start + (b - n));
    }
}

/// No identifier occurs twice among those of disjoint ranges.
pub proof fn lemma_disjoint_ids(ranges: Seq<Range>)
    requires
        disjoint(ranges),
    ensures
        ids_of(ranges).no_duplicates(),
    decreases ranges.len(),
{
    if ranges.len() > 0 {
        let rest = ranges.drop_last();
        assert(disjoint(rest)) by {
            assert forall|i: int, j: int| 0 <= i < j < rest.len() implies !(#[trigger] rest[i]).overlaps(
                #[trigger] rest[j],
            ) by {
                assert(rest[i] == ranges[i]);
                assert(rest[j] == ranges[j]);
            }
        }
        lemma_disjoint_ids(rest);
        let ids = ids_of(ranges);
        assert forall|a: int, b: int| 0 <= a < ids.len() && 0 <= b < ids.len() && a != b implies ids[a]
            != ids[b] by {
            if a < b {
                lemma_ids_differ(ranges, a, b);
            } else {
                lemma_ids_differ(ranges, b, a);
            }
        }
    }
}

/// The identifiers of a shorter list of ranges start those of the whole list.
pub proof fn lemma_ids_prefix(ranges: Seq<Range>, k: int)
    requires
        0 <= k <= ranges.len(),
    ensures
        ids_of(ranges.take(k)).is_prefix_of(ids_of(ranges)),
    decreases ranges.len() - k,
{
    if k == ranges.len() {
        assert(ranges.take(k) =~= ranges);
    } else {
        lemma_ids_prefix(ranges, k + 1);
        assert(ranges.take(k + 1).drop_last() =~= ranges.take(k));
        let short = ids_of(ranges.take(k));
        let longer = ids_of(ranges.take(k + 1));
        let whole = ids_of(ranges);
        assert(short =~= longer.subrange(0, short.len() as int));
        assert(longer =~= whole.subrange(0, longer.len() as int));
        assert(short =~= whole.subrange(0, short.len() as int));
    }
}

/// Two adjoining blocks make one block.
pub proof fn lemma_block_join(start: int, first: int, second: int)
    requires
        0 <= first,
        0 <= second,
    ensures
        block(start, first) + block(start + first, second) == block(start, first + second),
{
    assert(block(start, first) + block(start + first, second) =~= block(start, first + second));
}

/// The identifiers of the first `whole` ranges of a list and of the first
/// `part` identifiers of the range after them.
pub open spec fn ids_up_to(ranges: Seq<Range>, whole: int, part: int) -> Seq<int> {
    if whole < ranges.len() {
        ids_of(ranges.take(whole)) + block(ranges[whole].start as int, part)
    } else {
        ids_of(ranges.take(whole))
    }
}

/// Taking a range in whole is taking all of its identifiers.
proof fn lemma_ids_up_to_next(ranges: Seq<Range>, whole: int)
    requires
        0 <= whole < ranges.len(),
    ensures
        ids_up_to(ranges, whole, ranges[whole].count as int) == ids_up_to(ranges, whole + 1, 0),
{
    assert(ranges.take(whole + 1).drop_last() =~= ranges.take(whole));
    assert(ranges.take(whole + 1).last() == ranges[whole]);
    if whole + 1 < ranges.len() {
        assert(block(ranges[whole + 1].start as int, 0) =~= Seq::<int>::empty());
    }
    assert(ids_up_to(ranges, whole, ranges[whole].count as int) =~= ids_up_to(
        ranges,
        whole + 1,
        0,
    ));
}

/// What has been taken so far starts the identifiers of the whole list.
proof fn lemma_ids_up_to_prefix(ranges: Seq<Range>, whole: int, part: int)
    requires
        0 <= whole <= ranges.len(),
        whole < ranges.len() ==> 0 <= part <= ranges[whole].count,
    ensures
        ids_up_to(ranges, whole, part).is_prefix_of(ids_of(ranges)),
{
    if whole < ranges.len() {
        lemma_ids_prefix(ranges, whole + 1);
        lemma_ids_up_to_next(ranges, whole);
        let taken = ids_up_to(ranges, whole, part);
        let next = ids_of(ranges.take(whole + 1));
        let all = ids_of(ranges);
        assert(ranges.take(whole + 1).drop_last() =~= ranges.take(whole));
        assert(taken =~= next.subrange(0, taken.len() as int));
        assert(next =~= all.subrange(0, next.len() as int));
        assert(taken =~= all.subrange(0, taken.len() as int));
    } else {
        lemma_ids_prefix(ranges, whole);
    }
}

/// Adding a row adds its block to both sides of the map.
proof fn lemma_row_added(rows: Seq<MapEntry>, row: MapEntry)
    ensures
        inside_ids(rows.push(row)) == inside_ids(rows) + block(row.inside as int, row.count as int),
        outside_ids(rows.push(row)) == outside_ids(rows) + block(
            row.outside as int,
            row.count as int,
        ),
{
    assert(rows.push(row).drop_last() =~= rows);
}

/// Lays the requested identifiers, in their order, onto the identifiers that
/// the host offers, in their order. A requested range that does not fit in
/// what is left of a host range goes on in the next one. Returns `None` where
/// the host offers fewer identifiers than are requested.
pub fn match_ranges(requested: &Vec<Range>, host: &Vec<Range>) -> (res: Option<Vec<MapEntry>>)
    requires
        all_fit(requested@),
        all_fit(host@),
    ensures
        res is Some <==> ids_of(requested@).len() <= ids_of(host@).len(),
        res matches Some(rows) ==> rows@ == laid_rows(requested@, host@) && maps_onto(
            rows@,
            requested@,
            host@,
        ),
{
    let mut rows: Vec<MapEntry> = Vec::new();
    let mut ri: usize = 0;
    let mut done: u32 = 0;
    let mut hi: usize = 0;
    let mut used: u32 = 0;
    proof {
        assert(rows@ + laid_rows(requested@, host@) =~= laid_rows(requested@, host@));
        assert(requested@.take(0) =~= Seq::<Range>::empty());
        assert(host@.take(0) =~= Seq::<Range>::empty());
        assert(inside_ids(rows@) =~= ids_up_to(requested@, 0, 0));
        assert(outside_ids(rows@) =~= ids_up_to(host@, 0, 0));
    }
    while ri < requested.len()
        invariant
            all_fit(requested@),
            all_fit(host@),
            ri <= requested.len(),
            hi <= host.len(),
            ri < requested.len() ==> done <= requested@[ri as int].count,
            ri == requested.len() ==> done == 0,
            hi < host.len() ==> used <= host@[hi as int].count,
            hi == host.len() ==> used == 0,
            inside_ids(rows@) == ids_up_to(requested@, ri as int, done as int),
            outside_ids(rows@) == ids_up_to(host@, hi as int, used as int),
            inside_ids(rows@).len() == outside_ids(rows@).len(),
            forall|i: int| 0 <= i < rows@.len() ==> (#[trigger] rows@[i]).count > 0,
            laid_rows(requested@, host@) == rows@ + lay(
                requested@,
                host@,
                ri as int,
                done as int,
                hi as int,
                used as int,
            ),
        decreases
            requested.len() - ri,
            host.len() - hi,
            (if ri < requested.len() {
                requested@[ri as int].count - done
            } else {
                0
            }),
    {
        let wanted = requested[ri];
        if done == wanted.count {
            proof {
                lemma_ids_up_to_next(requested@, ri as int);
            }
            ri += 1;
            done = 0;
        } else if hi == host.len() {
            proof {
                lemma_ids_up_to_prefix(requested@, ri as int, wanted.count as int);
                assert(host@.take(hi as int) =~= host@);
            }
            return None;
        } else {
            let offered = host[hi];
            if used == offered.count {
                proof {
                    lemma_ids_up_to_next(host@, hi as int);
                }
                hi += 1;
                used = 0;
            } else {
                let need: u32 = wanted.count - done;
                let free: u32 = offered.count - used;
                let len: u32 = if need < free {
                    need
                } else {
                    free
                };
                assert(wanted.fits());
                assert(offered.fits());
                let row = MapEntry { inside: wanted.start + done, outside: offered.start + used, count: len };
                proof {
                    lemma_row_added(rows@, row);
                    lemma_block_join(wanted.start as int, done as int, len as int);
                    lemma_block_join(offered.start as int, used as int, len as int);
                    assert(inside_ids(rows@.push(row)) =~= ids_up_to(
                        requested@,
                        ri as int,
                        done + len,
                    ));
                    assert(outside_ids(rows@.push(row)) =~= ids_up_to(
                        host@,
                        hi as int,
                        used + len,
                    ));
                    assert(rows@.push(row) + lay(
                        requested@,
                        host@,
                        ri as int,
                        done + len,
                        hi as int,
                        used + len,
                    ) =~= rows@ + lay(
                        requested@,
                        host@,
                        ri as int,
                        done as int,
                        hi as int,
                        used as int,
                    ));
                }
                rows.push(row);
                done += len;
                used += len;
            }
        }
    }
    proof {
        assert(rows@ + Seq::<MapEntry>::empty() =~= rows@);
        assert(requested@.take(ri as int) =~= requested@);
        lemma_ids_up_to_prefix(host@, hi as int, used as int);
        assert(outside_ids(rows@) =~= ids_of(host@).take(ids_of(requested@).len() as int));
    }
    Some(rows)
}

/// Whether every range of the list fits.
pub fn check_ranges(ranges: &Vec<Range>) -> (ok: bool)
    ensures
        ok == all_fit(ranges@),
{
    let mut i: usize = 0;
    while i < ranges.len()
        invariant
            i <= ranges.len(),
            forall|j: int| 0 <= j < i ==> (#[trigger] ranges@[j]).fits(),
        decreases ranges.len() - i,
    {
        let r = ranges[i];
        if r.count > 0 && r.start > u32::MAX - (r.count - 1) {
            assert(!ranges@[i as int].fits());
            return false;
        }
        i += 1;
    }
    true
}

/// Whether no two ranges of the list share an identifier.
pub fn check_disjoint(ranges: &Vec<Range>) -> (ok: bool)
    ensures
        ok == disjoint(ranges@),
{
    let mut i: usize = 0;
    while i < ranges.len()
        invariant
            i <= ranges.len(),
            forall|a: int, b: int|
                0 <= a < b < ranges@.len() && a < i ==> !(#[trigger] ranges@[a]).overlaps(
                    #[trigger] ranges@[b],
                ),
        decreases ranges.len() - i,
    {
        let first = ranges[i];
        let mut j: usize = i + 1;
        while j < ranges.len()
            invariant
                i < j <= ranges.len(),
                first == ranges@[i as int],
                forall|b: int| i < b < j ==> !first.overlaps(#[trigger] ranges@[b]),
            decreases ranges.len() - j,
        {
            let second = ranges[j];
            if first.count > 0 && second.count > 0 && (first.start as u64) < second.start as u64
                + second.count as u64 && (second.start as u64) < first.start as u64
                + first.count as u64 {
                assert(ranges@[i as int].overlaps(ranges@[j as int]));
                return false;
            }
            j += 1;
        }
        i += 1;
    }
    true
}

/// The error that mapping the requested ranges onto the host's ranges ends
/// in, or `None` where a map can be made. A range that does not fit is
/// reported before an overlap, an overlap before a shortage, and a shortage
/// of user identifiers before one of group identifiers.
pub open spec fn map_outcome(settings: &Settings, uids: Seq<Range>, gids: Seq<Range>) -> Option<
    MapError,
> {
    if !all_fit(uids) || !all_fit(gids) || !all_fit(settings.subordinate_uids@) || !all_fit(
        settings.subordinate_gids@,
    ) {
        Some(MapError::OutOfRange)
    } else if !disjoint(uids) || !disjoint(gids) || !disjoint(settings.subordinate_uids@)
        || !disjoint(settings.subordinate_gids@) {
        Some(MapError::Overlap)
    } else if ids_of(uids).len() > ids_of(settings.subordinate_uids@).len() {
        Some(MapError::InsufficientUids)
    } else if ids_of(gids).len() > ids_of(settings.subordinate_gids@).len() {
        Some(MapError::InsufficientGids)
    } else {
        None
    }
}

/// Whether `map` is the map that lays the requested ranges onto the host's
/// ranges: its rows are the laid rows, they cover every requested identifier,
/// and no identifier occurs twice.
pub open spec fn is_map_of(map: &IdentityMap, settings: &Settings, uids: Seq<Range>, gids: Seq<
    Range,
>) -> bool {
    &&& map.uids@ == laid_rows(uids, settings.subordinate_uids@)
    &&& map.gids@ == laid_rows(gids, settings.subordinate_gids@)
    &&& maps_onto(map.uids@, uids, settings.subordinate_uids@)
    &&& maps_onto(map.gids@, gids, settings.subordinate_gids@)
    &&& map.one_to_one()
}

/// Maps the identifiers that a container asks for onto those that the host
/// offers. Every requested identifier is mapped or the call fails: a map is
/// never cut short, and no identifier is mapped twice.
pub fn map_users(settings: &Settings, uids: &Vec<Range>, gids: &Vec<Range>) -> (res: Result<
    IdentityMap,
    MapError,
>)
    ensures
        match res {
            Ok(map) => map_outcome(settings, uids@, gids@) is None && is_map_of(
                &map,
                settings,
                uids@,
                gids@,
            ),
            Err(error) => map_outcome(settings, uids@, gids@) == Some(error),
        },
{
    if !check_ranges(uids) || !check_ranges(gids) || !check_ranges(&settings.subordinate_uids)
        || !check_ranges(&settings.subordinate_gids) {
        return Err(MapError::OutOfRange);
    }
    if !check_disjoint(uids) || !check_disjoint(gids) || !check_disjoint(&settings.subordinate_uids)
        || !check_disjoint(&settings.subordinate_gids) {
        return Err(MapError::Overlap);
    }
    let uid_rows = match match_ranges(uids, &settings.subordinate_uids) {
        Some(rows) => rows,
        None => {
            return Err(MapError::InsufficientUids);
        },
    };
    let gid_rows = match match_ranges(gids, &settings.subordinate_gids) {
        Some(rows) => rows,
        None => {
            return Err(MapError::InsufficientGids);
        },
    };
    proof {
        lemma_disjoint_ids(uids@);
        lemma_disjoint_ids(gids@);
        lemma_disjoint_ids(settings.subordinate_uids@);
        lemma_disjoint_ids(settings.subordinate_gids@);
        lemma_map_is_one_to_one(uid_rows@, uids@, settings.subordinate_uids@);
        lemma_map_is_one_to_one(gid_rows@, gids@, settings.subordinate_gids@);
    }
    Ok(IdentityMap { uids: uid_rows, gids: gid_rows })
}

/// The rows that map each non-empty range onto itself.
pub open spec fn identity_rows(ranges: Seq<Range>) -> Seq<MapEntry>
    decreases ranges.len(),
{
    if ranges.len() == 0 {
        Seq::empty()
    } else if ranges.last().count > 0 {
        identity_rows(ranges.drop_last()).push(
            MapEntry {
                inside: ranges.last().start,
                outside: ranges.last().start,
                count: ranges.last().count,
            },
        )
    } else {
        identity_rows(ranges.drop_last())
    }
}

/// Identity rows cover the identifiers of their ranges on both sides: each
/// identifier stands for itself.
pub proof fn lemma_identity_rows(ranges: Seq<Range>)
    ensures
        inside_ids(identity_rows(ranges)) == ids_of(ranges),
        outside_ids(identity_rows(ranges)) == ids_of(ranges),
        forall|i: int|
            0 <= i < identity_rows(ranges).len() ==> (#[trigger] identity_rows(ranges)[i]).count
                > 0,
    decreases ranges.len(),
{
    if ranges.len() > 0 {
        lemma_identity_rows(ranges.drop_last());
        let last = ranges.last();
        if last.count > 0 {
            let row = MapEntry { inside: last.start, outside: last.start, count: last.count };
            lemma_row_added(identity_rows(ranges.drop_last()), row);
        } else {
            assert(block(last.start as int, 0) =~= Seq::<int>::empty());
            assert(ids_of(ranges) =~= ids_of(ranges.drop_last()));
        }
    }
}

/// The rows that map each non-empty range of the list onto itself.
fn identity_map_rows(ranges: &Vec<Range>) -> (rows: Vec<MapEntry>)
    ensures
        rows@ == identity_rows(ranges@),
{
    let mut rows: Vec<MapEntry> = Vec::new();
    let mut i: usize = 0;
    proof {
        assert(ranges@.take(0) =~= Seq::<Range>::empty());
    }
    while i < ranges.len()
        invariant
            i <= ranges.len(),
            rows@ == identity_rows(ranges@.take(i as int)),
        decreases ranges.len() - i,
    {
        let r = ranges[i];
        proof {
            assert(ranges@.take(i + 1).drop_last() =~= ranges@.take(i as int));
            assert(ranges@.take(i + 1).last() == r);
        }
        if r.count > 0 {
            rows.push(MapEntry { inside: r.start, outside: r.start, count: r.count });
        }
        i += 1;
    }
    proof {
        assert(ranges@.take(i as int) =~= ranges@);
    }
    rows
}

/// The error that asking for the largest map ends in, or `None` where the
/// host's ranges make one. A range that does not fit is reported before an
/// overlap.
pub open spec fn max_outcome(settings: &Settings) -> Option<MapError> {
    if !all_fit(settings.subordinate_uids@) || !all_fit(settings.subordinate_gids@) {
        Some(MapError::OutOfRange)
    } else if !disjoint(settings.subordinate_uids@) || !disjoint(settings.subordinate_gids@) {
        Some(MapError::Overlap)
    } else {
        None
    }
}

/// Whether `map` is the largest map that the host allows: every identifier
/// that it offers stands for itself, and none occurs twice.
pub open spec fn is_max_map(map: &IdentityMap, settings: &Settings) -> bool {
    &&& map.uids@ == identity_rows(settings.subordinate_uids@)
    &&& map.gids@ == identity_rows(settings.subordinate_gids@)
    &&& inside_ids(map.uids@) == ids_of(settings.subordinate_uids@)
    &&& outside_ids(map.uids@) == ids_of(settings.subordinate_uids@)
    &&& inside_ids(map.gids@) == ids_of(settings.subordinate_gids@)
    &&& outside_ids(map.gids@) == ids_of(settings.subordinate_gids@)
    &&& map.one_to_one()
}

/// The largest map that the host allows: every identifier that it offers
/// stands for itself. Fails where a range of the host does not fit or two of
/// them overlap.
pub fn get_max_uidmap(settings: &Settings) -> (res: Result<IdentityMap, MapError>)
    ensures
        match res {
            Ok(map) => max_outcome(settings) is None && is_max_map(&map, settings),
            Err(error) => max_outcome(settings) == Some(error),
        },
{
    if !check_ranges(&settings.subordinate_uids) || !check_ranges(&settings.subordinate_gids) {
        return Err(MapError::OutOfRange);
    }
    if !check_disjoint(&settings.subordinate_uids) || !check_disjoint(&settings.subordinate_gids) {
        return Err(MapError::Overlap);
    }
    let uids = identity_map_rows(&settings.subordinate_uids);
    let gids = identity_map_rows(&settings.subordinate_gids);
    proof {
        lemma_identity_rows(settings.subordinate_uids@);
        lemma_identity_rows(settings.subordinate_gids@);
        lemma_disjoint_ids(settings.subordinate_uids@);
        lemma_disjoint_ids(settings.subordinate_gids@);
    }
    Ok(IdentityMap { uids, gids })
}

impl MapError {
    /// The text of the message for each error.
    pub open spec fn message_text(self) -> Seq<char> {
        match self {
            MapError::OutOfRange => "Identity range runs past the largest identifier"@,
            MapError::Overlap => "Identity ranges overlap"@,
            MapError::InsufficientUids =>
                "Number of allowed subordinate user ids is too small for the container"@,
            MapError::InsufficientGids =>
                "Number of allowed subordinate group ids is too small for the container"@,
        }
    }

    /// A message for the user.
    pub fn message(&self) -> (text: String)
        ensures
            text@ == self.message_text(),
    {
        match self {
            MapError::OutOfRange => String::from_str(
                "Identity range runs past the largest identifier",
            ),
            MapError::Overlap => String::from_str("Identity ranges overlap"),
            MapError::InsufficientUids => String::from_str(
                "Number of allowed subordinate user ids is too small for the container",
            ),
            MapError::InsufficientGids => String::from_str(
                "Number of allowed subordinate group ids is too small for the container",
            ),
        }
    }
}

} // verus!
