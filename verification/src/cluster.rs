use vstd::prelude::*;
use crate::geo::{spec_zoom_precision, zoom_to_geohash_precision, valid_lat_e6, valid_lon_e6};
use crate::store::{MediaStore, MediaRecord, AccessGrant, live_grant_present, grant_matches};
use crate::text::{spec_lex_lt, str_lex_lt, str_eq};

verus! {

/// A map viewport, in microdegrees. A box whose west edge lies east of its
/// east edge crosses the antimeridian and selects the two outer longitude
/// ranges instead of the one between.
#[derive(Clone, Copy, Debug, PartialEq, Eq, Structural)]
pub struct BoundingBox {
    pub north_e6: i64,
    pub south_e6: i64,
    pub east_e6: i64,
    pub west_e6: i64,
}

/// A clusters request from the map view.
#[derive(Clone, Copy, Debug, PartialEq, Eq, Structural)]
pub struct MapClustersRequest {
    pub bounds: BoundingBox,
    pub zoom: u8,
}

/// One cluster on the map: a geohash-prefix cell, how many visible records
/// fall in it, their mean position, and the most recent record as the
/// representative.
#[derive(Debug)]
pub struct Cluster {
    pub cell: String,
    pub count: i64,
    pub center_lat_e6: i64,
    pub center_lon_e6: i64,
    pub representative_id: i64,
}

#[derive(Debug)]
pub struct MapClustersResponse {
    pub clusters: Vec<Cluster>,
    pub total_count: i64,
}

pub open spec fn in_lat_range(lat: i64, b: BoundingBox) -> bool {
    b.south_e6 <= lat <= b.north_e6
}

pub open spec fn in_lon_range(lon: i64, b: BoundingBox) -> bool {
    if b.west_e6 <= b.east_e6 {
        b.west_e6 <= lon <= b.east_e6
    } else {
        lon >= b.west_e6 || lon <= b.east_e6
    }
}

/// Which records a cluster query sees: geotagged with a stored geohash, a
/// well-formed coordinate, a live grant for the requesting user, and a
/// position inside the viewport.
pub open spec fn cluster_member(
    rec: MediaRecord, grants: Seq<AccessGrant>, user_id: i64, b: BoundingBox,
) -> bool {
    &&& rec.gps_latitude_e6 is Some
    &&& rec.gps_longitude_e6 is Some
    &&& rec.geohash is Some
    &&& valid_lat_e6(rec.gps_latitude_e6->0 as int)
    &&& valid_lon_e6(rec.gps_longitude_e6->0 as int)
    &&& live_grant_present(grants, rec.id, user_id)
    &&& in_lat_range(rec.gps_latitude_e6->0, b)
    &&& in_lon_range(rec.gps_longitude_e6->0, b)
}

/// The cell a record clusters into: the prefix of its stored geohash, whole
/// hash if the prefix length exceeds it.
pub open spec fn spec_cell_of(rec: MediaRecord, p: int) -> Seq<char> {
    let gh = rec.geohash->0@;
    if gh.len() <= p { gh } else { gh.take(p) }
}

/// The sort key of a record for representative selection: capture time when
/// known, else creation time.
pub open spec fn spec_rec_key(rec: MediaRecord) -> Seq<char> {
    if rec.date_taken is Some { rec.date_taken->0@ } else { rec.created_at@ }
}

/// Strict order on (key, id) pairs: later key wins, ties go to the higher id.
pub open spec fn spec_pair_lt(k1: Seq<char>, i1: i64, k2: Seq<char>, i2: i64) -> bool {
    spec_lex_lt(k1, k2) || (k1 == k2 && i1 < i2)
}

/// How many of the first `n` records are members of the given cell.
#[verifier::opaque]
pub open spec fn spec_cell_count(
    recs: Seq<MediaRecord>, grants: Seq<AccessGrant>, user_id: i64, b: BoundingBox,
    p: int, cell: Seq<char>, n: int,
) -> int
    decreases n,
{
    if n <= 0 {
        0
    } else {
        spec_cell_count(recs, grants, user_id, b, p, cell, n - 1)
            + if cluster_member(recs[n - 1], grants, user_id, b)
                && spec_cell_of(recs[n - 1], p) == cell { 1int } else { 0int }
    }
}

/// The latitude sum of the first `n` records that are members of the cell.
#[verifier::opaque]
pub open spec fn spec_cell_sum_lat(
    recs: Seq<MediaRecord>, grants: Seq<AccessGrant>, user_id: i64, b: BoundingBox,
    p: int, cell: Seq<char>, n: int,
) -> int
    decreases n,
{
    if n <= 0 {
        0
    } else {
        spec_cell_sum_lat(recs, grants, user_id, b, p, cell, n - 1)
            + if cluster_member(recs[n - 1], grants, user_id, b)
                && spec_cell_of(recs[n - 1], p) == cell {
                recs[n - 1].gps_latitude_e6->0 as int
            } else { 0int }
    }
}

/// The longitude sum of the first `n` records that are members of the cell.
#[verifier::opaque]
pub open spec fn spec_cell_sum_lon(
    recs: Seq<MediaRecord>, grants: Seq<AccessGrant>, user_id: i64, b: BoundingBox,
    p: int, cell: Seq<char>, n: int,
) -> int
    decreases n,
{
    if n <= 0 {
        0
    } else {
        spec_cell_sum_lon(recs, grants, user_id, b, p, cell, n - 1)
            + if cluster_member(recs[n - 1], grants, user_id, b)
                && spec_cell_of(recs[n - 1], p) == cell {
                recs[n - 1].gps_longitude_e6->0 as int
            } else { 0int }
    }
}

/// `id` names a member of the cell among the first `n` records.
pub open spec fn spec_cell_has_rec(
    recs: Seq<MediaRecord>, grants: Seq<AccessGrant>, user_id: i64, b: BoundingBox,
    p: int, cell: Seq<char>, n: int, id: i64,
) -> bool {
    exists|k: int| 0 <= k < n && cluster_member(recs[k], grants, user_id, b)
        && spec_cell_of(recs[k], p) == cell && recs[k].id == id
}

pub open spec fn spec_pair_le(k1: Seq<char>, i1: i64, k2: Seq<char>, i2: i64) -> bool {
    spec_pair_lt(k1, i1, k2, i2) || (k1 == k2 && i1 == i2)
}

/// `(key, id)` is the representative pair of the cell among the first `n`
/// records: some member carries it, and no member's pair beats it. This is
/// the most recent capture-or-creation time, ties going to the higher id.
#[verifier::opaque]
pub open spec fn spec_cell_rep(
    recs: Seq<MediaRecord>, grants: Seq<AccessGrant>, user_id: i64, b: BoundingBox,
    p: int, cell: Seq<char>, n: int, key: Seq<char>, id: i64,
) -> bool {
    &&& exists|k: int| 0 <= k < n && cluster_member(recs[k], grants, user_id, b)
        && spec_cell_of(recs[k], p) == cell && recs[k].id == id
        && spec_rec_key(recs[k]) == key
    &&& forall|k: int| 0 <= k < n && #[trigger] cluster_member(recs[k], grants, user_id, b)
        && spec_cell_of(recs[k], p) == cell
        ==> spec_pair_le(spec_rec_key(recs[k]), recs[k].id, key, id)
}

/// The cell's representative is its best member: some key makes the
/// (key, id) pair maximal among the cell's members.
pub open spec fn spec_rep_is_best(
    recs: Seq<MediaRecord>, grants: Seq<AccessGrant>, user_id: i64, b: BoundingBox,
    p: int, cell: Seq<char>, n: int, id: i64,
) -> bool {
    exists|key: Seq<char>| spec_cell_rep(recs, grants, user_id, b, p, cell, n, key, id)
}

proof fn lemma_lex_lt_connected(a: Seq<char>, b: Seq<char>)
    requires
        a != b,
    ensures
        spec_lex_lt(a, b) || spec_lex_lt(b, a),
    decreases a.len(),
{
    if b.len() == 0 {
        if a.len() == 0 {
            assert(a =~= b);
        }
    } else if a.len() == 0 {
    } else if a.first() != b.first() {
    } else {
        if a.drop_first() == b.drop_first() {
            assert(a.drop_first().len() == b.drop_first().len());
            assert(a.len() == b.len());
            assert forall|i: int| 0 <= i < a.len() implies a[i] == b[i] by {
                if i > 0 {
                    assert(a[i] == a.drop_first()[i - 1]);
                    assert(b[i] == b.drop_first()[i - 1]);
                }
            };
            assert(a =~= b);
        }
        lemma_lex_lt_connected(a.drop_first(), b.drop_first());
    }
}

proof fn lemma_lex_lt_trans(a: Seq<char>, b: Seq<char>, c: Seq<char>)
    requires
        spec_lex_lt(a, b),
        spec_lex_lt(b, c),
    ensures
        spec_lex_lt(a, c),
    decreases a.len(),
{
    if b.len() == 0 {
    } else if c.len() == 0 {
    } else if a.len() == 0 {
    } else if a.first() == b.first() && b.first() == c.first() {
        lemma_lex_lt_trans(a.drop_first(), b.drop_first(), c.drop_first());
    }
}

/// `le` then `lt` chains to `lt` on (key, id) pairs.
proof fn lemma_pair_le_lt_trans(
    k1: Seq<char>, i1: i64, k2: Seq<char>, i2: i64, k3: Seq<char>, i3: i64,
)
    requires
        spec_pair_le(k1, i1, k2, i2),
        spec_pair_lt(k2, i2, k3, i3),
    ensures
        spec_pair_lt(k1, i1, k3, i3),
{
    if spec_lex_lt(k1, k2) && spec_lex_lt(k2, k3) {
        lemma_lex_lt_trans(k1, k2, k3);
    }
}

/// Pairs are totally ordered: what does not beat is bounded.
proof fn lemma_pair_total(k1: Seq<char>, i1: i64, k2: Seq<char>, i2: i64)
    requires
        !spec_pair_lt(k2, i2, k1, i1),
    ensures
        spec_pair_le(k1, i1, k2, i2),
{
    if k1 != k2 {
        lemma_lex_lt_connected(k1, k2);
    }
}

/// The sum of all cluster counts.
pub open spec fn spec_sum_counts(cs: Seq<Cluster>, n: int) -> int
    decreases n,
{
    if n <= 0 { 0 } else { spec_sum_counts(cs, n - 1) + cs[n - 1].count }
}

/// Strict order on (key, id) pairs, executable.
fn pair_lt(k1: &str, i1: i64, k2: &str, i2: i64) -> (r: bool)
    ensures
        r == spec_pair_lt(k1@, i1, k2@, i2),
{
    if str_lex_lt(k1, k2) {
        true
    } else if str_eq(k1, k2) {
        i1 < i2
    } else {
        false
    }
}

/// A cluster being accumulated: its cell, running count and coordinate sums,
/// and the best representative seen so far.
struct ClusterAcc {
    cell: String,
    count: i64,
    sum_lat: i128,
    sum_lon: i128,
    rep_key: String,
    rep_id: i64,
}

impl MediaStore {
    /// Whether the user holds a live (not soft-deleted) grant on the record.
    pub fn has_live_access(&self, media_id: i64, user_id: i64) -> (r: bool)
        requires
            self.wf(),
        ensures
            r == live_grant_present(self.grants@, media_id, user_id),
    {
        let mut i: usize = 0;
        while i < self.grants.len()
            invariant
                i <= self.grants@.len(),
                forall|j: int| 0 <= j < i ==> !(grant_matches(self.grants@[j], media_id, user_id)
                    && self.grants@[j].deleted_at is None),
            decreases self.grants@.len() - i,
        {
            if self.grants[i].media_id == media_id && self.grants[i].user_id == user_id
                && self.grants[i].deleted_at.is_none() {
                return true;
            }
            i = i + 1;
        }
        false
    }
}

/// Floor of `sum / count` for a sum of microdegree coordinates.
fn mean_e6(sum: i128, count: i64) -> (r: i64)
    requires
        1 <= count,
        -(count as int) * 180_000_000 <= sum <= (count as int) * 180_000_000,
    ensures
        r == sum as int / count as int,
{
    let c = count as u128;
    let off: i128 = sum + (count as i128) * 180_000_000;
    assert(off >= 0) by (nonlinear_arith)
        requires sum >= -(count as int) * 180_000_000, off == sum + (count as int) * 180_000_000;
    assert(off <= (count as int) * 360_000_000) by (nonlinear_arith)
        requires sum <= (count as int) * 180_000_000, off == sum + (count as int) * 180_000_000;
    let q = (off as u128) / c;
    proof {
        vstd::arithmetic::div_mod::lemma_hoist_over_denominator(
            sum as int, 180_000_000, count as nat);
        assert(q == (sum as int + 180_000_000 * (count as int)) / (count as int));
        assert(180_000_000 * (count as int) == (count as int) * 180_000_000)
            by (nonlinear_arith);
        // The mean lies between the extremes, so it fits back in range.
        vstd::arithmetic::div_mod::lemma_div_is_ordered(
            -(count as int) * 180_000_000, sum as int, count as int);
        vstd::arithmetic::div_mod::lemma_div_is_ordered(
            sum as int, (count as int) * 180_000_000, count as int);
        vstd::arithmetic::div_mod::lemma_div_multiples_vanish(-180_000_000, count as int);
        vstd::arithmetic::div_mod::lemma_div_multiples_vanish(180_000_000, count as int);
        assert((count as int) * -180_000_000 == -((count as int) * 180_000_000))
            by (nonlinear_arith);
        assert((count as int) * 180_000_000 / (count as int) == 180_000_000);
        assert(-180_000_000 <= sum as int / count as int <= 180_000_000);
    }
    (q as i64) - 180_000_000
}

spec fn spec_sum_acc(accs: Seq<ClusterAcc>, n: int) -> int
    decreases n,
{
    if n <= 0 { 0 } else { spec_sum_acc(accs, n - 1) + accs[n - 1].count }
}

proof fn lemma_sum_acc_prefix(a: Seq<ClusterAcc>, c: Seq<ClusterAcc>, n: int)
    requires
        0 <= n,
        forall|j: int| 0 <= j < n ==> a[j].count == c[j].count,
    ensures
        spec_sum_acc(a, n) == spec_sum_acc(c, n),
    decreases n,
{
    if n > 0 {
        lemma_sum_acc_prefix(a, c, n - 1);
    }
}

proof fn lemma_sum_acc_update(a: Seq<ClusterAcc>, c: Seq<ClusterAcc>, x: int, n: int)
    requires
        0 <= x < n,
        a.len() == c.len() >= n,
        forall|j: int| 0 <= j < n && j != x ==> a[j].count == c[j].count,
        c[x].count == a[x].count + 1,
    ensures
        spec_sum_acc(c, n) == spec_sum_acc(a, n) + 1,
    decreases n,
{
    if x == n - 1 {
        lemma_sum_acc_prefix(a, c, n - 1);
    } else {
        lemma_sum_acc_update(a, c, x, n - 1);
    }
}

proof fn lemma_sum_counts_matches(cs: Seq<Cluster>, accs: Seq<ClusterAcc>, n: int)
    requires
        0 <= n,
        forall|j: int| 0 <= j < n ==> cs[j].count == accs[j].count,
    ensures
        spec_sum_counts(cs, n) == spec_sum_acc(accs, n),
    decreases n,
{
    if n > 0 {
        lemma_sum_counts_matches(cs, accs, n - 1);
    }
}

/// One accumulator entry is exact over the first `i` records: its count,
/// coordinate sums, bounds for the mean, and representative.
spec fn acc_entry_ok(
    a: ClusterAcc, recs: Seq<MediaRecord>, g: Seq<AccessGrant>,
    user_id: i64, b: BoundingBox, p: int, i: int,
) -> bool {
    &&& 1 <= a.count <= i
    &&& a.count == spec_cell_count(recs, g, user_id, b, p, a.cell@, i)
    &&& a.sum_lat == spec_cell_sum_lat(recs, g, user_id, b, p, a.cell@, i)
    &&& a.sum_lon == spec_cell_sum_lon(recs, g, user_id, b, p, a.cell@, i)
    &&& -(a.count as int) * 180_000_000 <= a.sum_lat <= (a.count as int) * 180_000_000
    &&& -(a.count as int) * 180_000_000 <= a.sum_lon <= (a.count as int) * 180_000_000
    &&& spec_cell_has_rec(recs, g, user_id, b, p, a.cell@, i, a.rep_id)
    &&& spec_cell_rep(recs, g, user_id, b, p, a.cell@, i, a.rep_key@, a.rep_id)
}

/// The accumulator state after the first `i` records have been absorbed:
/// distinct cells, every member so far covered, and every entry exact.
spec fn accs_ok(
    accs: Seq<ClusterAcc>, recs: Seq<MediaRecord>, g: Seq<AccessGrant>,
    user_id: i64, b: BoundingBox, p: int, i: int,
) -> bool {
    &&& forall|x: int, y: int| 0 <= x < y < accs.len() ==> accs[x].cell@ != accs[y].cell@
    &&& forall|k: int| 0 <= k < i && #[trigger] cluster_member(recs[k], g, user_id, b)
        ==> exists|x: int| 0 <= x < accs.len()
            && #[trigger] accs[x].cell@ == spec_cell_of(recs[k], p)
    &&& forall|x: int| 0 <= x < accs.len()
        ==> #[trigger] acc_entry_ok(accs[x], recs, g, user_id, b, p, i)
}


/// A record that is not a member of `cell` leaves that cell's aggregates and
/// representative untouched when the fold advances over it.
proof fn lemma_cell_step_other(
    recs: Seq<MediaRecord>, g: Seq<AccessGrant>, user_id: i64, b: BoundingBox,
    p: int, i: int, cell: Seq<char>, key: Seq<char>, idd: i64,
)
    requires
        0 <= i < recs.len(),
        !(cluster_member(recs[i], g, user_id, b) && spec_cell_of(recs[i], p) == cell),
        spec_cell_has_rec(recs, g, user_id, b, p, cell, i, idd),
        spec_cell_rep(recs, g, user_id, b, p, cell, i, key, idd),
    ensures
        spec_cell_count(recs, g, user_id, b, p, cell, i + 1)
            == spec_cell_count(recs, g, user_id, b, p, cell, i),
        spec_cell_sum_lat(recs, g, user_id, b, p, cell, i + 1)
            == spec_cell_sum_lat(recs, g, user_id, b, p, cell, i),
        spec_cell_sum_lon(recs, g, user_id, b, p, cell, i + 1)
            == spec_cell_sum_lon(recs, g, user_id, b, p, cell, i),
        spec_cell_has_rec(recs, g, user_id, b, p, cell, i + 1, idd),
        spec_cell_rep(recs, g, user_id, b, p, cell, i + 1, key, idd),
{
    reveal(spec_cell_count);
    reveal(spec_cell_sum_lat);
    reveal(spec_cell_sum_lon);
    reveal(spec_cell_rep);
    let k0 = choose|k: int| 0 <= k < i && cluster_member(recs[k], g, user_id, b)
        && spec_cell_of(recs[k], p) == cell && recs[k].id == idd;
    assert(0 <= k0 < i + 1 && cluster_member(recs[k0], g, user_id, b)
        && spec_cell_of(recs[k0], p) == cell && recs[k0].id == idd);
    let k1 = choose|k: int| 0 <= k < i && cluster_member(recs[k], g, user_id, b)
        && spec_cell_of(recs[k], p) == cell && recs[k].id == idd
        && spec_rec_key(recs[k]) == key;
    assert(0 <= k1 < i + 1 && cluster_member(recs[k1], g, user_id, b)
        && spec_cell_of(recs[k1], p) == cell && recs[k1].id == idd
        && spec_rec_key(recs[k1]) == key);
}

/// Advancing the fold over a member of `cell` adds one to its count and the
/// member's coordinates to its sums.
proof fn lemma_cell_step_member(
    recs: Seq<MediaRecord>, g: Seq<AccessGrant>, user_id: i64, b: BoundingBox,
    p: int, i: int, cell: Seq<char>,
)
    requires
        0 <= i < recs.len(),
        cluster_member(recs[i], g, user_id, b),
        spec_cell_of(recs[i], p) == cell,
    ensures
        spec_cell_count(recs, g, user_id, b, p, cell, i + 1)
            == spec_cell_count(recs, g, user_id, b, p, cell, i) + 1,
        spec_cell_sum_lat(recs, g, user_id, b, p, cell, i + 1)
            == spec_cell_sum_lat(recs, g, user_id, b, p, cell, i)
                + recs[i].gps_latitude_e6->0 as int,
        spec_cell_sum_lon(recs, g, user_id, b, p, cell, i + 1)
            == spec_cell_sum_lon(recs, g, user_id, b, p, cell, i)
                + recs[i].gps_longitude_e6->0 as int,
{
    reveal(spec_cell_count);
    reveal(spec_cell_sum_lat);
    reveal(spec_cell_sum_lon);
}

/// Fold one member record into the accumulators.
#[verifier::rlimit(100)]
fn absorb_member(
    accs: &mut Vec<ClusterAcc>,
    cell: String, key: String, id: i64, la: i64, lo: i64,
    Ghost(recs): Ghost<Seq<MediaRecord>>, Ghost(g): Ghost<Seq<AccessGrant>>,
    Ghost(user_id): Ghost<i64>, Ghost(b): Ghost<BoundingBox>, Ghost(p): Ghost<int>,
    Ghost(i): Ghost<int>,
)
    requires
        0 <= i < recs.len(),
        recs.len() < 0x7fff_ffff,
        accs_ok(old(accs)@, recs, g, user_id, b, p, i),
        cluster_member(recs[i], g, user_id, b),
        cell@ == spec_cell_of(recs[i], p),
        key@ == spec_rec_key(recs[i]),
        id == recs[i].id,
        recs[i].gps_latitude_e6 == Some(la),
        recs[i].gps_longitude_e6 == Some(lo),
    ensures
        accs_ok(final(accs)@, recs, g, user_id, b, p, i + 1),
        spec_sum_acc(final(accs)@, final(accs)@.len() as int)
            == spec_sum_acc(old(accs)@, old(accs)@.len() as int) + 1,
{
    // Find the cell's accumulator, if it exists already.
    let mut found: Option<usize> = None;
    let mut x: usize = 0;
    while x < accs.len() && found.is_none()
        invariant
            x <= accs@.len(),
            accs@ == old(accs)@,
            found is None ==> forall|y: int| 0 <= y < x ==> accs@[y].cell@ != cell@,
            match found {
                Some(f) => f < accs@.len() && accs@[f as int].cell@ == cell@,
                None => true,
            },
        decreases accs@.len() - x + (if found is None { 1int } else { 0int }),
    {
        if str_eq(accs[x].cell.as_str(), cell.as_str()) {
            found = Some(x);
        } else {
            x = x + 1;
        }
    }
    proof {
        if found is None {
            assert(x == accs@.len());
        }
    }

    let ghost accs_before = accs@;
    proof {
        assert(-90_000_000 <= la <= 90_000_000 && -180_000_000 <= lo <= 180_000_000);
    }
    match found {
        Some(f) => {
            proof {
                assert(acc_entry_ok(old(accs)@[f as int], recs, g, user_id, b, p, i));
            }
            let old_acc = &accs[f];
            let replace_rep = pair_lt(old_acc.rep_key.as_str(), old_acc.rep_id,
                key.as_str(), id);
            let new_acc = ClusterAcc {
                cell: old_acc.cell.clone(),
                count: old_acc.count + 1,
                sum_lat: old_acc.sum_lat + la as i128,
                sum_lon: old_acc.sum_lon + lo as i128,
                rep_key: if replace_rep { key } else { old_acc.rep_key.clone() },
                rep_id: if replace_rep { id } else { old_acc.rep_id },
            };
            accs.set(f, new_acc);
            proof {
                lemma_sum_acc_update(accs_before, accs@, f as int, accs@.len() as int);
                let cell_f = accs_before[f as int].cell@;
                assert(accs@[f as int].cell@ == cell_f);
                assert(cell_f == spec_cell_of(recs[i], p));
                lemma_cell_step_member(recs, g, user_id, b, p, i, cell_f);
                // The representative stays a member: the old witness if kept,
                // this record if it replaced it.
                assert(spec_cell_has_rec(recs, g, user_id, b, p, cell_f, i + 1,
                    accs@[f as int].rep_id)) by {
                    if replace_rep {
                        assert(cluster_member(recs[i], g, user_id, b)
                            && spec_cell_of(recs[i], p) == cell_f && recs[i].id == id);
                    } else {
                        let k0 = choose|k: int| 0 <= k < i
                            && cluster_member(recs[k], g, user_id, b)
                            && spec_cell_of(recs[k], p) == cell_f
                            && recs[k].id == accs_before[f as int].rep_id;
                        assert(0 <= k0 < i + 1 && cluster_member(recs[k0], g, user_id, b)
                            && spec_cell_of(recs[k0], p) == cell_f
                            && recs[k0].id == accs@[f as int].rep_id);
                    }
                };
                // The new member either keeps or replaces the representative
                // pair; either way the pair stays maximal.
                assert(spec_cell_rep(recs, g, user_id, b, p, cell_f, i + 1,
                    accs@[f as int].rep_key@, accs@[f as int].rep_id)) by {
                    reveal(spec_cell_rep);
                    let rk = accs_before[f as int].rep_key@;
                    let ri = accs_before[f as int].rep_id;
                    assert forall|k: int| 0 <= k < i + 1
                        && #[trigger] cluster_member(recs[k], g, user_id, b)
                        && spec_cell_of(recs[k], p) == cell_f
                        implies spec_pair_le(spec_rec_key(recs[k]), recs[k].id,
                            accs@[f as int].rep_key@, accs@[f as int].rep_id) by {
                        if k < i {
                            if replace_rep {
                                lemma_pair_le_lt_trans(spec_rec_key(recs[k]), recs[k].id,
                                    rk, ri, key@, id);
                            }
                        } else {
                            if !replace_rep {
                                lemma_pair_total(key@, id, rk, ri);
                            }
                        }
                    };
                    if replace_rep {
                        assert(0 <= i < i + 1 && cluster_member(recs[i], g, user_id, b)
                            && spec_cell_of(recs[i], p) == cell_f && recs[i].id == id
                            && spec_rec_key(recs[i]) == key@);
                    } else {
                        let k1 = choose|k: int| 0 <= k < i
                            && cluster_member(recs[k], g, user_id, b)
                            && spec_cell_of(recs[k], p) == cell_f && recs[k].id == ri
                            && spec_rec_key(recs[k]) == rk;
                        assert(0 <= k1 < i + 1 && cluster_member(recs[k1], g, user_id, b)
                            && spec_cell_of(recs[k1], p) == cell_f
                            && recs[k1].id == accs@[f as int].rep_id
                            && spec_rec_key(recs[k1]) == accs@[f as int].rep_key@);
                    }
                };
                // Other cells are untouched by this record.
                assert forall|y: int| 0 <= y < accs@.len() && y != f
                    implies accs@[y] == accs_before[y]
                        && spec_cell_of(recs[i], p) != #[trigger] accs@[y].cell@ by {
                    assert(accs@[y] == accs_before[y]);
                    if y < f {
                        assert(accs_before[y].cell@ != accs_before[f as int].cell@);
                    } else {
                        assert(accs_before[f as int].cell@ != accs_before[y].cell@);
                    }
                };
                assert forall|xx: int| 0 <= xx < accs@.len()
                    implies #[trigger] acc_entry_ok(accs@[xx], recs, g, user_id, b, p,
                        i + 1) by {
                    if xx == f {
                        assert(acc_entry_ok(accs_before[xx], recs, g, user_id, b, p, i));
                        assert(accs@[xx].count == accs_before[xx].count + 1);
                        assert(accs@[xx].sum_lat == accs_before[xx].sum_lat + la as int);
                        assert(accs@[xx].sum_lon == accs_before[xx].sum_lon + lo as int);
                    } else {
                        assert(accs@[xx] == accs_before[xx]);
                        assert(acc_entry_ok(accs_before[xx], recs, g, user_id, b, p, i));
                        lemma_cell_step_other(recs, g, user_id, b, p, i, accs@[xx].cell@,
                            accs@[xx].rep_key@, accs@[xx].rep_id);
                    }
                };
                assert forall|k: int| 0 <= k < i + 1
                    && #[trigger] cluster_member(recs[k], g, user_id, b)
                    implies exists|xx: int| 0 <= xx < accs@.len()
                        && #[trigger] accs@[xx].cell@ == spec_cell_of(recs[k], p) by {
                    if k < i {
                        let xx = choose|xx: int| 0 <= xx < accs_before.len()
                            && #[trigger] accs_before[xx].cell@ == spec_cell_of(recs[k], p);
                        assert(accs@[xx].cell@ == accs_before[xx].cell@);
                    } else {
                        assert(accs@[f as int].cell@ == spec_cell_of(recs[i], p));
                    }
                };
                assert forall|xx: int, yy: int| 0 <= xx < yy < accs@.len()
                    implies accs@[xx].cell@ != accs@[yy].cell@ by {
                    assert(accs@[xx].cell@ == accs_before[xx].cell@);
                    assert(accs@[yy].cell@ == accs_before[yy].cell@);
                };
            }
        }
        None => {
            let new_acc = ClusterAcc {
                cell,
                count: 1,
                sum_lat: la as i128,
                sum_lon: lo as i128,
                rep_key: key,
                rep_id: id,
            };
            accs.push(new_acc);
            proof {
                lemma_sum_acc_prefix(accs_before, accs@, accs_before.len() as int);
                let cell_new = accs@.last().cell@;
                assert(cell_new == spec_cell_of(recs[i], p));
                lemma_cell_step_member(recs, g, user_id, b, p, i, cell_new);
                assert forall|y: int| 0 <= y < accs_before.len()
                    implies #[trigger] accs_before[y].cell@ != cell_new by {
                };
                lemma_unseen_cell_empty(recs, g, user_id, b, p, cell_new, i, accs_before);
                assert(spec_cell_count(recs, g, user_id, b, p, cell_new, i + 1) == 1);
                assert(spec_cell_sum_lat(recs, g, user_id, b, p, cell_new, i + 1)
                    == la as int);
                assert(spec_cell_sum_lon(recs, g, user_id, b, p, cell_new, i + 1)
                    == lo as int);
                assert(spec_cell_has_rec(recs, g, user_id, b, p, cell_new, i + 1,
                    accs@.last().rep_id)) by {
                    assert(cluster_member(recs[i], g, user_id, b)
                        && spec_cell_of(recs[i], p) == cell_new && recs[i].id == id);
                };
                // The one member so far carries the maximal pair trivially.
                assert(spec_cell_rep(recs, g, user_id, b, p, cell_new, i + 1,
                    accs@.last().rep_key@, accs@.last().rep_id)) by {
                    reveal(spec_cell_rep);
                    assert(0 <= i < i + 1 && cluster_member(recs[i], g, user_id, b)
                        && spec_cell_of(recs[i], p) == cell_new && recs[i].id == id
                        && spec_rec_key(recs[i]) == key@);
                    assert forall|k: int| 0 <= k < i + 1
                        && #[trigger] cluster_member(recs[k], g, user_id, b)
                        && spec_cell_of(recs[k], p) == cell_new
                        implies spec_pair_le(spec_rec_key(recs[k]), recs[k].id,
                            key@, id) by {
                        assert(k == i);
                    };
                };
                assert forall|y: int| 0 <= y < accs@.len() - 1
                    implies accs@[y] == accs_before[y]
                        && spec_cell_of(recs[i], p) != #[trigger] accs@[y].cell@ by {
                    assert(accs@[y] == accs_before[y]);
                    assert(accs_before[y].cell@ != cell_new);
                };
                assert forall|xx: int| 0 <= xx < accs@.len()
                    implies #[trigger] acc_entry_ok(accs@[xx], recs, g, user_id, b, p,
                        i + 1) by {
                    if xx == accs@.len() - 1 {
                        assert(accs@[xx].count == 1);
                        assert(accs@[xx].sum_lat == la as int);
                        assert(accs@[xx].sum_lon == lo as int);
                    } else {
                        assert(accs@[xx] == accs_before[xx]);
                        assert(acc_entry_ok(accs_before[xx], recs, g, user_id, b, p, i));
                        lemma_cell_step_other(recs, g, user_id, b, p, i, accs@[xx].cell@,
                            accs@[xx].rep_key@, accs@[xx].rep_id);
                    }
                };
                assert forall|k: int| 0 <= k < i + 1
                    && #[trigger] cluster_member(recs[k], g, user_id, b)
                    implies exists|xx: int| 0 <= xx < accs@.len()
                        && #[trigger] accs@[xx].cell@ == spec_cell_of(recs[k], p) by {
                    if k < i {
                        let xx = choose|xx: int| 0 <= xx < accs_before.len()
                            && #[trigger] accs_before[xx].cell@ == spec_cell_of(recs[k], p);
                        assert(accs@[xx].cell@ == accs_before[xx].cell@);
                    } else {
                        assert(accs@[accs@.len() - 1].cell@ == spec_cell_of(recs[i], p));
                    }
                };
                assert forall|xx: int, yy: int| 0 <= xx < yy < accs@.len()
                    implies accs@[xx].cell@ != accs@[yy].cell@ by {
                    if yy == accs@.len() - 1 {
                        assert(accs@[xx].cell@ == accs_before[xx].cell@);
                        assert(accs_before[xx].cell@ != cell_new);
                    } else {
                        assert(accs@[xx].cell@ == accs_before[xx].cell@);
                        assert(accs@[yy].cell@ == accs_before[yy].cell@);
                    }
                };
                assert(spec_sum_acc(accs@, accs@.len() as int)
                    == spec_sum_acc(accs_before, accs_before.len() as int) + 1);
            }
        }
    }
}

/// The zoom-aware cluster query: group the user's visible, geotagged records
/// inside the viewport by the geohash prefix that the zoom level selects, and
/// report each cell's population, mean position, and most recent record.
#[verifier::rlimit(100)]
pub fn get_clusters(store: &MediaStore, user_id: i64, req: &MapClustersRequest)
    -> (resp: MapClustersResponse)
    requires
        store.wf(),
        store.records@.len() < 0x7fff_ffff,
    ensures
        forall|x: int, y: int| 0 <= x < y < resp.clusters@.len()
            ==> resp.clusters@[x].cell@ != resp.clusters@[y].cell@,
        forall|k: int| 0 <= k < store.records@.len()
            && #[trigger] cluster_member(store.records@[k], store.grants@, user_id, req.bounds)
            ==> exists|x: int| 0 <= x < resp.clusters@.len()
                && #[trigger] resp.clusters@[x].cell@ == spec_cell_of(store.records@[k],
                    spec_zoom_precision(req.zoom as int)),
        forall|x: int| 0 <= x < resp.clusters@.len() ==> 1 <= #[trigger] resp.clusters@[x].count,
        forall|x: int| 0 <= x < resp.clusters@.len()
            ==> resp.clusters@[x].count == spec_cell_count(store.records@, store.grants@,
                user_id, req.bounds, spec_zoom_precision(req.zoom as int),
                #[trigger] resp.clusters@[x].cell@, store.records@.len() as int),
        forall|x: int| 0 <= x < resp.clusters@.len()
            ==> resp.clusters@[x].center_lat_e6 == spec_cell_sum_lat(store.records@,
                store.grants@, user_id, req.bounds, spec_zoom_precision(req.zoom as int),
                #[trigger] resp.clusters@[x].cell@, store.records@.len() as int)
                / resp.clusters@[x].count as int,
        forall|x: int| 0 <= x < resp.clusters@.len()
            ==> resp.clusters@[x].center_lon_e6 == spec_cell_sum_lon(store.records@,
                store.grants@, user_id, req.bounds, spec_zoom_precision(req.zoom as int),
                #[trigger] resp.clusters@[x].cell@, store.records@.len() as int)
                / resp.clusters@[x].count as int,
        forall|x: int| 0 <= x < resp.clusters@.len()
            ==> spec_cell_has_rec(store.records@, store.grants@, user_id, req.bounds,
                spec_zoom_precision(req.zoom as int), #[trigger] resp.clusters@[x].cell@,
                store.records@.len() as int, resp.clusters@[x].representative_id),
        forall|x: int| 0 <= x < resp.clusters@.len()
            ==> spec_rep_is_best(store.records@, store.grants@, user_id, req.bounds,
                spec_zoom_precision(req.zoom as int), #[trigger] resp.clusters@[x].cell@,
                store.records@.len() as int, resp.clusters@[x].representative_id),
        resp.total_count == spec_sum_counts(resp.clusters@, resp.clusters@.len() as int),
{
    let ghost recs = store.records@;
    let ghost g = store.grants@;
    let ghost b = req.bounds;
    let precision = zoom_to_geohash_precision(req.zoom);
    let ghost p = spec_zoom_precision(req.zoom as int);

    let mut accs: Vec<ClusterAcc> = Vec::new();
    let mut members_total: i64 = 0;
    let n = store.records.len();
    let mut i: usize = 0;
    while i < n
        invariant
            store.wf(),
            recs == store.records@,
            g == store.grants@,
            b == req.bounds,
            precision == p,
            1 <= p <= 7,
            i <= n == recs.len() < 0x7fff_ffff,
            0 <= members_total <= i,
            members_total == spec_sum_acc(accs@, accs@.len() as int),
            accs_ok(accs@, recs, g, user_id, b, p, i as int),
        decreases n - i,
    {
        let rec = &store.records[i];
        let mut member = rec.gps_latitude_e6.is_some() && rec.gps_longitude_e6.is_some()
            && rec.geohash.is_some();
        if member {
            let la = match rec.gps_latitude_e6 { Some(v) => v, None => 0 };
            let lo = match rec.gps_longitude_e6 { Some(v) => v, None => 0 };
            member = la >= -90_000_000 && la <= 90_000_000
                && lo >= -180_000_000 && lo <= 180_000_000
                && la >= req.bounds.south_e6 && la <= req.bounds.north_e6
                && (if req.bounds.west_e6 <= req.bounds.east_e6 {
                    lo >= req.bounds.west_e6 && lo <= req.bounds.east_e6
                } else {
                    lo >= req.bounds.west_e6 || lo <= req.bounds.east_e6
                })
                && store.has_live_access(rec.id, user_id);
        }
        assert(member == cluster_member(recs[i as int], g, user_id, b));
        if member {
            let la = match rec.gps_latitude_e6 { Some(v) => v, None => 0 };
            let lo = match rec.gps_longitude_e6 { Some(v) => v, None => 0 };
            if let Some(gh) = &rec.geohash {
                let gh_len = gh.as_str().unicode_len();
                let plen = if gh_len <= precision { gh_len } else { precision };
                let cell: String = gh.as_str().substring_char(0, plen).to_owned();
                proof {
                    assert(gh@.subrange(0, plen as int) =~= spec_cell_of(recs[i as int], p));
                }
                let key: String = match &rec.date_taken {
                    Some(d) => d.clone(),
                    None => rec.created_at.clone(),
                };
                assert(key@ == spec_rec_key(recs[i as int]));
                absorb_member(&mut accs, cell, key, rec.id, la, lo,
                    Ghost(recs), Ghost(g), Ghost(user_id), Ghost(b), Ghost(p),
                    Ghost(i as int));
                members_total = members_total + 1;
            }
        } else {
            proof {
                assert forall|x: int| 0 <= x < accs@.len()
                    implies #[trigger] acc_entry_ok(accs@[x], recs, g, user_id, b, p,
                        i + 1) by {
                    assert(acc_entry_ok(accs@[x], recs, g, user_id, b, p, i as int));
                    lemma_cell_step_other(recs, g, user_id, b, p, i as int, accs@[x].cell@,
                        accs@[x].rep_key@, accs@[x].rep_id);
                };
                assert(accs_ok(accs@, recs, g, user_id, b, p, i + 1));
            }
        }
        i = i + 1;
    }

    let clusters = emit_clusters(&accs, Ghost(recs), Ghost(g), Ghost(user_id), Ghost(b),
        Ghost(p));
    let resp = MapClustersResponse { clusters, total_count: members_total };
    proof {
        let cs = resp.clusters@;
        assert forall|j: int| 0 <= j < cs.len()
            implies cs[j].count == accs@[j].count by {
            assert(cs[j].cell@ == accs@[j].cell@);
        };
        lemma_sum_counts_matches(cs, accs@, cs.len() as int);
        assert forall|k: int| 0 <= k < recs.len()
            && #[trigger] cluster_member(recs[k], g, user_id, b)
            implies exists|x: int| 0 <= x < cs.len()
                && #[trigger] cs[x].cell@ == spec_cell_of(recs[k], p) by {
            let x = choose|x: int| 0 <= x < accs@.len()
                && #[trigger] accs@[x].cell@ == spec_cell_of(recs[k], p);
            assert(cs[x].cell@ == spec_cell_of(recs[k], p));
        };
        assert forall|x: int| 0 <= x < cs.len() implies {
            &&& 1 <= cs[x].count
            &&& cs[x].count == spec_cell_count(recs, g, user_id, b, p,
                cs[x].cell@, recs.len() as int)
            &&& cs[x].center_lat_e6 == spec_cell_sum_lat(recs, g, user_id, b, p,
                cs[x].cell@, recs.len() as int) / cs[x].count as int
            &&& cs[x].center_lon_e6 == spec_cell_sum_lon(recs, g, user_id, b, p,
                cs[x].cell@, recs.len() as int) / cs[x].count as int
            &&& spec_cell_has_rec(recs, g, user_id, b, p, cs[x].cell@,
                recs.len() as int, cs[x].representative_id)
        } by {
            let c0 = cs[x].cell@;
        };
        assert forall|x: int| 0 <= x < resp.clusters@.len()
            implies spec_rep_is_best(store.records@, store.grants@, user_id, req.bounds,
                spec_zoom_precision(req.zoom as int), #[trigger] resp.clusters@[x].cell@,
                store.records@.len() as int, resp.clusters@[x].representative_id) by {
            assert(acc_entry_ok(accs@[x], recs, g, user_id, b, p, recs.len() as int));
            assert(resp.clusters@[x].cell@ == accs@[x].cell@);
            assert(resp.clusters@[x].representative_id == accs@[x].rep_id);
            assert(spec_cell_rep(store.records@, store.grants@, user_id, req.bounds,
                spec_zoom_precision(req.zoom as int), resp.clusters@[x].cell@,
                store.records@.len() as int, accs@[x].rep_key@,
                resp.clusters@[x].representative_id));
        };
    }
    resp
}


/// Turn the finished accumulators into the response rows: each cell with its
/// count, the floor of its mean coordinates, and its representative.
#[verifier::rlimit(100)]
fn emit_clusters(
    accs: &Vec<ClusterAcc>,
    Ghost(recs): Ghost<Seq<MediaRecord>>, Ghost(g): Ghost<Seq<AccessGrant>>,
    Ghost(user_id): Ghost<i64>, Ghost(b): Ghost<BoundingBox>, Ghost(p): Ghost<int>,
)
    -> (clusters: Vec<Cluster>)
    requires
        accs_ok(accs@, recs, g, user_id, b, p, recs.len() as int),
        recs.len() < 0x7fff_ffff,
    ensures
        clusters@.len() == accs@.len(),
        forall|x: int| 0 <= x < clusters@.len() ==> {
            &&& #[trigger] clusters@[x].cell@ == accs@[x].cell@
            &&& clusters@[x].count == accs@[x].count
            &&& clusters@[x].representative_id == accs@[x].rep_id
            &&& 1 <= clusters@[x].count
            &&& clusters@[x].count == spec_cell_count(recs, g, user_id, b, p,
                clusters@[x].cell@, recs.len() as int)
            &&& clusters@[x].center_lat_e6 == spec_cell_sum_lat(recs, g, user_id, b, p,
                clusters@[x].cell@, recs.len() as int) / clusters@[x].count as int
            &&& clusters@[x].center_lon_e6 == spec_cell_sum_lon(recs, g, user_id, b, p,
                clusters@[x].cell@, recs.len() as int) / clusters@[x].count as int
            &&& spec_cell_has_rec(recs, g, user_id, b, p, clusters@[x].cell@,
                recs.len() as int, clusters@[x].representative_id)
            &&& spec_rep_is_best(recs, g, user_id, b, p, clusters@[x].cell@,
                recs.len() as int, clusters@[x].representative_id)
        },
        forall|x: int, y: int| 0 <= x < y < clusters@.len()
            ==> clusters@[x].cell@ != clusters@[y].cell@,
{
    let ghost n = recs.len() as int;
    let mut clusters: Vec<Cluster> = Vec::new();
    let mut t: usize = 0;
    while t < accs.len()
        invariant
            t <= accs@.len(),
            accs_ok(accs@, recs, g, user_id, b, p, n),
            n == recs.len(),
            n < 0x7fff_ffff,
            clusters@.len() == t,
            forall|x: int| 0 <= x < t ==> {
                &&& #[trigger] clusters@[x].cell@ == accs@[x].cell@
                &&& clusters@[x].count == accs@[x].count
                &&& clusters@[x].center_lat_e6 == accs@[x].sum_lat as int
                    / accs@[x].count as int
                &&& clusters@[x].center_lon_e6 == accs@[x].sum_lon as int
                    / accs@[x].count as int
                &&& clusters@[x].representative_id == accs@[x].rep_id
            },
        decreases accs@.len() - t,
    {
        assert(acc_entry_ok(accs@[t as int], recs, g, user_id, b, p, n));
        let a = &accs[t];
        let ghost clusters_old = clusters@;
        let c = Cluster {
            cell: a.cell.clone(),
            count: a.count,
            center_lat_e6: mean_e6(a.sum_lat, a.count),
            center_lon_e6: mean_e6(a.sum_lon, a.count),
            representative_id: a.rep_id,
        };
        clusters.push(c);
        proof {
            assert(clusters@[t as int].cell@ == accs@[t as int].cell@);
            assert forall|x: int| 0 <= x < t implies #[trigger] clusters@[x].cell@
                == clusters_old[x].cell@ && clusters@[x] == clusters_old[x] by {
                assert(clusters@[x] == clusters_old[x]);
            };
        }
        t = t + 1;
    }
    proof {
        assert forall|x: int| 0 <= x < clusters@.len() implies
            #[trigger] acc_entry_ok(accs@[x], recs, g, user_id, b, p, n) by {};
        assert forall|x: int| 0 <= x < clusters@.len() implies {
            &&& #[trigger] clusters@[x].cell@ == accs@[x].cell@
            &&& clusters@[x].count == accs@[x].count
            &&& clusters@[x].representative_id == accs@[x].rep_id
            &&& 1 <= clusters@[x].count
            &&& clusters@[x].count == spec_cell_count(recs, g, user_id, b, p,
                clusters@[x].cell@, n)
            &&& clusters@[x].center_lat_e6 == spec_cell_sum_lat(recs, g, user_id, b, p,
                clusters@[x].cell@, n) / clusters@[x].count as int
            &&& clusters@[x].center_lon_e6 == spec_cell_sum_lon(recs, g, user_id, b, p,
                clusters@[x].cell@, n) / clusters@[x].count as int
            &&& spec_cell_has_rec(recs, g, user_id, b, p, clusters@[x].cell@, n,
                clusters@[x].representative_id)
            &&& spec_rep_is_best(recs, g, user_id, b, p, clusters@[x].cell@, n,
                clusters@[x].representative_id)
        } by {
            assert(acc_entry_ok(accs@[x], recs, g, user_id, b, p, n));
            assert(spec_cell_rep(recs, g, user_id, b, p, clusters@[x].cell@, n,
                accs@[x].rep_key@, clusters@[x].representative_id));
            assert(clusters@[x].cell@ == accs@[x].cell@);
            assert(clusters@[x].count == accs@[x].count);
            assert(accs@[x].count == spec_cell_count(recs, g, user_id, b, p,
                accs@[x].cell@, n));
            assert(accs@[x].sum_lat == spec_cell_sum_lat(recs, g, user_id, b, p,
                accs@[x].cell@, n));
            assert(accs@[x].sum_lon == spec_cell_sum_lon(recs, g, user_id, b, p,
                accs@[x].cell@, n));
            assert(spec_cell_has_rec(recs, g, user_id, b, p, accs@[x].cell@, n,
                accs@[x].rep_id));
        };
    }
    clusters
}

/// A cell that no accumulator holds has no members among the first `i`
/// records, given the coverage invariant.
proof fn lemma_unseen_cell_empty(
    recs: Seq<MediaRecord>, g: Seq<AccessGrant>, user_id: i64, b: BoundingBox,
    p: int, cell: Seq<char>, i: int, accs: Seq<ClusterAcc>,
)
    requires
        0 <= i <= recs.len(),
        forall|k: int| 0 <= k < i && #[trigger] cluster_member(recs[k], g, user_id, b)
            ==> exists|x: int| 0 <= x < accs.len()
                && #[trigger] accs[x].cell@ == spec_cell_of(recs[k], p),
        forall|x: int| 0 <= x < accs.len() ==> #[trigger] accs[x].cell@ != cell,
    ensures
        spec_cell_count(recs, g, user_id, b, p, cell, i) == 0,
        spec_cell_sum_lat(recs, g, user_id, b, p, cell, i) == 0,
        spec_cell_sum_lon(recs, g, user_id, b, p, cell, i) == 0,
        forall|k: int| 0 <= k < i ==> !(cluster_member(#[trigger] recs[k], g, user_id, b)
            && spec_cell_of(recs[k], p) == cell),
    decreases i,
{
    reveal(spec_cell_count);
    reveal(spec_cell_sum_lat);
    reveal(spec_cell_sum_lon);
    if i > 0 {
        lemma_unseen_cell_empty(recs, g, user_id, b, p, cell, i - 1, accs);
        if cluster_member(recs[i - 1], g, user_id, b)
            && spec_cell_of(recs[i - 1], p) == cell {
            let x = choose|x: int| 0 <= x < accs.len()
                && #[trigger] accs[x].cell@ == spec_cell_of(recs[i - 1], p);
            assert(false);
        }
    }
}

} // verus!
