use vstd::prelude::*;

verus! {

/// One row of the bounding-box index: a degenerate box, `min == max` on both
/// axes, standing for the point where a geotagged record was taken.
#[derive(Clone, Copy, Debug, PartialEq, Eq, Structural)]
pub struct SpatialEntry {
    pub media_id: i64,
    pub lat_e6: i64,
    pub lon_e6: i64,
}

/// Inclusive box test on microdegree coordinates.
pub open spec fn spec_in_box(
    lat: int, lon: int, min_lat: int, max_lat: int, min_lon: int, max_lon: int,
) -> bool {
    min_lat <= lat <= max_lat && min_lon <= lon <= max_lon
}

pub open spec fn unique_ids(entries: Seq<SpatialEntry>) -> bool {
    forall|i: int, j: int| 0 <= i < j < entries.len()
        ==> entries[i].media_id != entries[j].media_id
}

pub open spec fn contains_id(entries: Seq<SpatialEntry>, id: int) -> bool {
    exists|i: int| 0 <= i < entries.len() && entries[i].media_id == id
}

pub open spec fn has_point(entries: Seq<SpatialEntry>, id: int, lat: int, lon: int) -> bool {
    exists|i: int| 0 <= i < entries.len()
        && entries[i].media_id == id
        && entries[i].lat_e6 == lat
        && entries[i].lon_e6 == lon
}

/// Whether a box query on `entries` answers `id`: some entry with that id
/// lies inside the box.
pub open spec fn spec_query_answers(
    entries: Seq<SpatialEntry>, id: int,
    min_lat: int, max_lat: int, min_lon: int, max_lon: int,
) -> bool {
    exists|i: int| 0 <= i < entries.len()
        && entries[i].media_id == id
        && spec_in_box(entries[i].lat_e6 as int, entries[i].lon_e6 as int,
            min_lat, max_lat, min_lon, max_lon)
}

/// The bounding-box index over geotagged records: exactly one entry per
/// indexed record, queryable by box overlap. Insert and delete are both safe
/// to call redundantly; delete-then-insert is the steady state during
/// regeneration.
#[derive(Debug)]
pub struct SpatialIndex {
    entries: Vec<SpatialEntry>,
}

impl SpatialIndex {
    pub closed spec fn view(&self) -> Seq<SpatialEntry> {
        self.entries@
    }

    pub open spec fn wf(&self) -> bool {
        unique_ids(self@)
    }

    pub fn new() -> (idx: SpatialIndex)
        ensures
            idx@ == Seq::<SpatialEntry>::empty(),
            idx.wf(),
    {
        SpatialIndex { entries: Vec::new() }
    }

    pub fn len(&self) -> (n: usize)
        ensures
            n == self@.len(),
    {
        self.entries.len()
    }

    fn find(&self, media_id: i64) -> (r: Option<usize>)
        ensures
            match r {
                Some(i) => i < self@.len() && self@[i as int].media_id == media_id,
                None => !contains_id(self@, media_id as int),
            },
    {
        let mut i: usize = 0;
        while i < self.entries.len()
            invariant
                i <= self@.len(),
                forall|j: int| 0 <= j < i ==> self@[j].media_id != media_id,
            decreases self@.len() - i,
        {
            if self.entries[i].media_id == media_id {
                return Some(i);
            }
            i = i + 1;
        }
        None
    }

    /// Index a record's point. Redundant calls are safe: an already indexed
    /// record keeps a single entry, moved to the new point.
    pub fn insert(&mut self, media_id: i64, lat_e6: i64, lon_e6: i64)
        requires
            old(self).wf(),
        ensures
            final(self).wf(),
            has_point(final(self)@, media_id as int, lat_e6 as int, lon_e6 as int),
            contains_id(final(self)@, media_id as int),
            forall|id2: int, la: int, lo: int| id2 != media_id
                ==> (has_point(final(self)@, id2, la, lo) <==> has_point(old(self)@, id2, la, lo)),
            forall|id2: int| id2 != media_id
                ==> (contains_id(final(self)@, id2) <==> contains_id(old(self)@, id2)),
    {
        let entry = SpatialEntry { media_id, lat_e6, lon_e6 };
        match self.find(media_id) {
            Some(i) => {
                self.entries.set(i, entry);
                proof {
                    assert(self@[i as int] == entry);
                    lemma_pointwise_same_points(old(self)@, self@, media_id as int, i as int);
                }
            }
            None => {
                self.entries.push(entry);
                proof {
                    assert(self@[self@.len() - 1] == entry);
                    lemma_pointwise_same_points(old(self)@, self@, media_id as int,
                        self@.len() - 1);
                }
            }
        }
    }

    /// Drop a record from the index. Safe when the record was never indexed.
    pub fn remove(&mut self, media_id: i64)
        requires
            old(self).wf(),
        ensures
            final(self).wf(),
            !contains_id(final(self)@, media_id as int),
            forall|id2: int, la: int, lo: int| id2 != media_id
                ==> (has_point(final(self)@, id2, la, lo) <==> has_point(old(self)@, id2, la, lo)),
            forall|id2: int| id2 != media_id
                ==> (contains_id(final(self)@, id2) <==> contains_id(old(self)@, id2)),
    {
        let mut kept: Vec<SpatialEntry> = Vec::new();
        let mut i: usize = 0;
        while i < self.entries.len()
            invariant
                i <= self@.len(),
                old(self)@ == self@,
                unique_ids(self@),
                unique_ids(kept@),
                forall|j: int| 0 <= j < kept@.len() ==> kept@[j].media_id != media_id,
                forall|j: int| 0 <= j < kept@.len()
                    ==> exists|k: int| 0 <= k < i && self@[k] == #[trigger] kept@[j],
                forall|k: int| 0 <= k < i && self@[k].media_id != media_id
                    ==> exists|j: int| 0 <= j < kept@.len() && #[trigger] kept@[j] == self@[k],
            decreases self@.len() - i,
        {
            let e = self.entries[i];
            let ghost kept_old = kept@;
            if e.media_id != media_id {
                kept.push(e);
                proof {
                    assert(kept@[kept@.len() - 1] == self@[i as int]);
                    assert forall|p: int, q: int| 0 <= p < q < kept@.len()
                        implies kept@[p].media_id != kept@[q].media_id by {
                        if q == kept@.len() - 1 {
                            let k = choose|k: int| 0 <= k < i && self@[k] == kept_old[p];
                            assert(self@[k].media_id != self@[i as int].media_id);
                        } else {
                            assert(kept@[p] == kept_old[p] && kept@[q] == kept_old[q]);
                        }
                    };
                    assert forall|k: int| 0 <= k < i + 1 && self@[k].media_id != media_id
                        implies exists|j: int| 0 <= j < kept@.len()
                            && #[trigger] kept@[j] == self@[k] by {
                        if k < i {
                            let j = choose|j: int| 0 <= j < kept_old.len()
                                && #[trigger] kept_old[j] == self@[k];
                            assert(kept@[j] == self@[k]);
                        } else {
                            assert(kept@[kept@.len() - 1] == self@[k]);
                        }
                    };
                }
            } else {
                proof {
                    assert forall|k: int| 0 <= k < i + 1 && self@[k].media_id != media_id
                        implies exists|j: int| 0 <= j < kept@.len()
                            && #[trigger] kept@[j] == self@[k] by {
                        assert(k < i);
                        let j = choose|j: int| 0 <= j < kept_old.len()
                            && #[trigger] kept_old[j] == self@[k];
                    };
                }
            }
            i = i + 1;
        }
        self.entries = kept;
        proof {
            let a = old(self)@;
            let b = self@;
            assert forall|id2: int, la: int, lo: int| id2 != media_id
                && has_point(b, id2, la, lo) implies has_point(a, id2, la, lo) by {
                let j = choose|j: int| 0 <= j < b.len() && b[j].media_id == id2
                    && b[j].lat_e6 == la && b[j].lon_e6 == lo;
                let k = choose|k: int| 0 <= k < a.len() && a[k] == b[j];
            };
            assert forall|id2: int, la: int, lo: int| id2 != media_id
                && has_point(a, id2, la, lo) implies has_point(b, id2, la, lo) by {
                let k = choose|k: int| 0 <= k < a.len() && a[k].media_id == id2
                    && a[k].lat_e6 == la && a[k].lon_e6 == lo;
                let j = choose|j: int| 0 <= j < b.len() && #[trigger] b[j] == a[k];
            };
            assert forall|id2: int| id2 != media_id && contains_id(b, id2)
                implies contains_id(a, id2) by {
                let j = choose|j: int| 0 <= j < b.len() && b[j].media_id == id2;
                let k = choose|k: int| 0 <= k < a.len() && a[k] == b[j];
            };
            assert forall|id2: int| id2 != media_id && contains_id(a, id2)
                implies contains_id(b, id2) by {
                let k = choose|k: int| 0 <= k < a.len() && a[k].media_id == id2;
                let j = choose|j: int| 0 <= j < b.len() && #[trigger] b[j] == a[k];
            };
        }
    }

    /// All record ids whose point lies inside the inclusive box.
    pub fn query(&self, min_lat: i64, max_lat: i64, min_lon: i64, max_lon: i64) -> (r: Vec<i64>)
        requires
            self.wf(),
        ensures
            forall|id: i64| #[trigger] r@.contains(id) <==> spec_query_answers(self@, id as int,
                min_lat as int, max_lat as int, min_lon as int, max_lon as int),
            forall|i: int, j: int| 0 <= i < j < r@.len() ==> r@[i] != r@[j],
    {
        let mut r: Vec<i64> = Vec::new();
        let mut i: usize = 0;
        while i < self.entries.len()
            invariant
                i <= self@.len(),
                unique_ids(self@),
                forall|j: int| 0 <= j < r@.len() ==> exists|k: int| 0 <= k < i
                    && self@[k].media_id == #[trigger] r@[j]
                    && spec_in_box(self@[k].lat_e6 as int, self@[k].lon_e6 as int,
                        min_lat as int, max_lat as int, min_lon as int, max_lon as int),
                forall|k: int| 0 <= k < i
                    && spec_in_box(self@[k].lat_e6 as int, self@[k].lon_e6 as int,
                        min_lat as int, max_lat as int, min_lon as int, max_lon as int)
                    ==> r@.contains(self@[k].media_id),
                forall|i2: int, j2: int| 0 <= i2 < j2 < r@.len() ==> r@[i2] != r@[j2],
            decreases self@.len() - i,
        {
            let e = self.entries[i];
            if e.lat_e6 >= min_lat && e.lat_e6 <= max_lat
                && e.lon_e6 >= min_lon && e.lon_e6 <= max_lon {
                let ghost r_old = r@;
                proof {
                    assert forall|j: int| 0 <= j < r_old.len() implies r_old[j] != e.media_id by {
                        let k = choose|k: int| 0 <= k < i && self@[k].media_id == r_old[j]
                            && spec_in_box(self@[k].lat_e6 as int, self@[k].lon_e6 as int,
                                min_lat as int, max_lat as int, min_lon as int, max_lon as int);
                        assert(self@[k].media_id != self@[i as int].media_id);
                    };
                }
                r.push(e.media_id);
                proof {
                    assert(r@[r@.len() - 1] == e.media_id);
                    assert(r@.contains(e.media_id));
                    assert forall|k: int| 0 <= k < i + 1
                        && spec_in_box(self@[k].lat_e6 as int, self@[k].lon_e6 as int,
                            min_lat as int, max_lat as int, min_lon as int, max_lon as int)
                        implies r@.contains(self@[k].media_id) by {
                        if k < i {
                            let j = choose|j: int| 0 <= j < r_old.len()
                                && r_old[j] == self@[k].media_id;
                            assert(r@[j] == self@[k].media_id);
                        }
                    };
                }
            }
            i = i + 1;
        }
        proof {
            assert forall|id: i64| #[trigger] r@.contains(id) implies spec_query_answers(
                self@, id as int, min_lat as int, max_lat as int, min_lon as int, max_lon as int,
            ) by {
                let j = choose|j: int| 0 <= j < r@.len() && r@[j] == id;
            };
        }
        r
    }
}

proof fn lemma_pointwise_same_points(a: Seq<SpatialEntry>, b: Seq<SpatialEntry>, id: int, i: int)
    requires
        0 <= i < b.len(),
        a.len() == b.len() || (b.len() == a.len() + 1 && i == a.len()),
        forall|k: int| 0 <= k < b.len() && k != i ==> b[k] == a[k],
        b[i].media_id == id,
        a.len() == b.len() ==> a[i].media_id == id,
        b.len() == a.len() + 1 ==> !contains_id(a, id),
        unique_ids(a),
    ensures
        forall|id2: int, la: int, lo: int| id2 != id
            ==> (has_point(b, id2, la, lo) <==> has_point(a, id2, la, lo)),
        forall|id2: int| id2 != id ==> (contains_id(b, id2) <==> contains_id(a, id2)),
        unique_ids(b),
{
    assert forall|id2: int, la: int, lo: int| id2 != id && has_point(b, id2, la, lo)
        implies has_point(a, id2, la, lo) by {
        let k = choose|k: int| 0 <= k < b.len() && b[k].media_id == id2
            && b[k].lat_e6 == la && b[k].lon_e6 == lo;
        assert(k != i);
        assert(a[k] == b[k]);
    };
    assert forall|id2: int, la: int, lo: int| id2 != id && has_point(a, id2, la, lo)
        implies has_point(b, id2, la, lo) by {
        let k = choose|k: int| 0 <= k < a.len() && a[k].media_id == id2
            && a[k].lat_e6 == la && a[k].lon_e6 == lo;
        assert(k != i || a.len() == b.len());
        if k != i {
            assert(b[k] == a[k]);
        }
    };
    assert forall|id2: int| id2 != id && contains_id(b, id2) implies contains_id(a, id2) by {
        let k = choose|k: int| 0 <= k < b.len() && b[k].media_id == id2;
        assert(k != i);
        assert(a[k] == b[k]);
    };
    assert forall|id2: int| id2 != id && contains_id(a, id2) implies contains_id(b, id2) by {
        let k = choose|k: int| 0 <= k < a.len() && a[k].media_id == id2;
        if k != i {
            assert(b[k] == a[k]);
        }
    };
    assert forall|p: int, q: int| 0 <= p < q < b.len() implies b[p].media_id != b[q].media_id by {
        if p != i && q != i {
            assert(b[p] == a[p] && b[q] == a[q]);
        } else if p == i {
            assert(b[q] == a[q]);
            if a.len() == b.len() {
                assert(a[q].media_id != a[i].media_id);
            } else {
                assert(q < a.len() ==> a[q].media_id != id) by {
                    if 0 <= q < a.len() && a[q].media_id == id {
                        assert(contains_id(a, id));
                    }
                }
            }
        } else {
            assert(b[p] == a[p]);
            if a.len() == b.len() {
                assert(a[p].media_id != a[i].media_id);
            } else {
                if a[p].media_id == id {
                    assert(contains_id(a, id));
                }
            }
        }
    };
}

/// Spatial index round trip: once a record's point is indexed, a box query
/// covering the point answers the record; a query on a box that misses the
/// point does not; and a removed record is answered by no query at all.
pub proof fn lemma_spatial_round_trip(
    entries: Seq<SpatialEntry>, id: int, lat: int, lon: int,
    min_lat: int, max_lat: int, min_lon: int, max_lon: int,
)
    requires
        unique_ids(entries),
    ensures
        has_point(entries, id, lat, lon)
            && spec_in_box(lat, lon, min_lat, max_lat, min_lon, max_lon)
            ==> spec_query_answers(entries, id, min_lat, max_lat, min_lon, max_lon),
        has_point(entries, id, lat, lon)
            && !spec_in_box(lat, lon, min_lat, max_lat, min_lon, max_lon)
            ==> !spec_query_answers(entries, id, min_lat, max_lat, min_lon, max_lon),
        !contains_id(entries, id)
            ==> !spec_query_answers(entries, id, min_lat, max_lat, min_lon, max_lon),
{
    if has_point(entries, id, lat, lon) {
        let i = choose|i: int| 0 <= i < entries.len()
            && entries[i].media_id == id
            && entries[i].lat_e6 == lat
            && entries[i].lon_e6 == lon;
        if spec_in_box(lat, lon, min_lat, max_lat, min_lon, max_lon) {
            assert(spec_query_answers(entries, id, min_lat, max_lat, min_lon, max_lon));
        } else {
            if spec_query_answers(entries, id, min_lat, max_lat, min_lon, max_lon) {
                let j = choose|j: int| 0 <= j < entries.len()
                    && entries[j].media_id == id
                    && spec_in_box(entries[j].lat_e6 as int, entries[j].lon_e6 as int,
                        min_lat, max_lat, min_lon, max_lon);
                assert(i == j);
            }
        }
    }
}

} // verus!
