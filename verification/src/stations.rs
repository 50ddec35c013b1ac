//! Station records and the observation ingestion protocol: a conditional
//! upsert that never loses data to duplicate or out-of-order deliveries,
//! keeps every metadata attribute write-once, and lets the high threshold
//! move exactly once from unknown to a known value.
use vstd::prelude::*;

use crate::is_known_level;
use crate::seq_util::{
    filter_map, first_match, lemma_first_match_absent, lemma_first_match_props,
    lemma_first_match_witness, lemma_filter_map_take_step, lemma_take_full,
};

verus! {

/// The latest known state of one station: the most recent reading plus
/// the station's static metadata. Levels are fixed-point hundredths; see
/// [`crate::UNKNOWN_THRESHOLD`].
pub struct StationRecord {
    /// Epoch milliseconds of the most recent reading known to the store.
    pub timestamp: i64,
    /// Opaque external station identifier; write-once.
    pub idstazione: String,
    /// Display ordering; write-once.
    pub ordinamento: i32,
    /// Station name, the primary key; case-sensitive, unique.
    pub nomestaz: String,
    /// Longitude, write-once.
    pub lon: String,
    /// Latitude, write-once.
    pub lat: String,
    /// Yellow threshold level; write-once (may stay unknown).
    pub soglia1: i64,
    /// Orange threshold level; write-once (may stay unknown).
    pub soglia2: i64,
    /// Red threshold level; the one field allowed to move from the
    /// unknown sentinel to a known value after creation.
    pub soglia3: i64,
    /// Basin name, if the provider supplied one; write-once.
    pub bacino: Option<String>,
    /// Province, if the provider supplied one; write-once.
    pub provincia: Option<String>,
    /// Municipality, if the provider supplied one; write-once.
    pub comune: Option<String>,
    /// The reading itself; absent when the provider omitted the value.
    pub value: Option<i64>,
}

/// Empty metadata strings count as absent: the store never holds them.
pub open spec fn normalized_meta(o: Option<String>) -> Option<String> {
    match o {
        Some(s) => if s@.len() > 0 {
            Some(s)
        } else {
            None
        },
        None => None,
    }
}

/// The record created by the first successful write for a station:
/// the observation itself, with empty metadata treated as absent.
pub open spec fn created_station(rec: StationRecord) -> StationRecord {
    StationRecord {
        timestamp: rec.timestamp,
        idstazione: rec.idstazione,
        ordinamento: rec.ordinamento,
        nomestaz: rec.nomestaz,
        lon: rec.lon,
        lat: rec.lat,
        soglia1: rec.soglia1,
        soglia2: rec.soglia2,
        soglia3: rec.soglia3,
        bacino: normalized_meta(rec.bacino),
        provincia: normalized_meta(rec.provincia),
        comune: normalized_meta(rec.comune),
        value: rec.value,
    }
}

/// How a newer observation merges into a stored record: timestamp and
/// value move unconditionally, write-once attributes keep their stored
/// value (absent metadata takes the incoming one, first writer wins),
/// and the red threshold upgrades exactly from unknown to known.
pub open spec fn merged_station(stored: StationRecord, rec: StationRecord) -> StationRecord {
    StationRecord {
        timestamp: rec.timestamp,
        idstazione: stored.idstazione,
        ordinamento: stored.ordinamento,
        nomestaz: stored.nomestaz,
        lon: stored.lon,
        lat: stored.lat,
        soglia1: stored.soglia1,
        soglia2: stored.soglia2,
        soglia3: if !is_known_level(stored.soglia3) && is_known_level(rec.soglia3) {
            rec.soglia3
        } else {
            stored.soglia3
        },
        bacino: if stored.bacino is Some {
            stored.bacino
        } else {
            normalized_meta(rec.bacino)
        },
        provincia: if stored.provincia is Some {
            stored.provincia
        } else {
            normalized_meta(rec.provincia)
        },
        comune: if stored.comune is Some {
            stored.comune
        } else {
            normalized_meta(rec.comune)
        },
        value: rec.value,
    }
}

/// The conditional write of the ingestion protocol: apply the
/// observation when the station is new or the reading is strictly
/// newer; otherwise the stored record stands untouched.
pub open spec fn apply_observation(stored: Option<StationRecord>, rec: StationRecord) -> StationRecord {
    match stored {
        None => created_station(rec),
        Some(s) => if rec.timestamp > s.timestamp {
            merged_station(s, rec)
        } else {
            s
        },
    }
}

/// Predicate matching the row keyed by `name`.
pub open spec fn station_named(name: Seq<char>) -> spec_fn(StationRecord) -> bool {
    |r: StationRecord| r.nomestaz@ == name
}

/// Index of the row keyed by `name`, or -1 when the station is new.
pub open spec fn station_index(rows: Seq<StationRecord>, name: Seq<char>) -> int {
    first_match(rows, station_named(name))
}

/// What one `persist_observation` call leaves in the store.
pub open spec fn persist_result(rows: Seq<StationRecord>, rec: StationRecord) -> Seq<StationRecord> {
    let i = station_index(rows, rec.nomestaz@);
    if i == -1 {
        rows.push(created_station(rec))
    } else {
        rows.update(i, apply_observation(Some(rows[i]), rec))
    }
}

/// No two rows share a station name.
pub open spec fn station_names_unique(rows: Seq<StationRecord>) -> bool {
    forall|i: int, j: int|
        0 <= i < j < rows.len() ==> (#[trigger] rows[i]).nomestaz@ != (#[trigger] rows[j]).nomestaz@
}

/// Stored metadata is never the empty string.
pub open spec fn station_meta_normalized(r: StationRecord) -> bool {
    &&& r.bacino == normalized_meta(r.bacino)
    &&& r.provincia == normalized_meta(r.provincia)
    &&& r.comune == normalized_meta(r.comune)
}

/// The ingestion write keeps the store's invariants: names stay unique
/// and non-empty, and stored metadata stays normalized.
pub proof fn lemma_persist_result_wf(rows: Seq<StationRecord>, rec: StationRecord)
    requires
        station_names_unique(rows),
        forall|i: int| 0 <= i < rows.len() ==> station_meta_normalized(#[trigger] rows[i]),
        forall|i: int| 0 <= i < rows.len() ==> (#[trigger] rows[i]).nomestaz@.len() > 0,
        rec.nomestaz@.len() > 0,
    ensures
        station_names_unique(persist_result(rows, rec)),
        forall|i: int|
            0 <= i < persist_result(rows, rec).len() ==> station_meta_normalized(
                #[trigger] persist_result(rows, rec)[i],
            ),
        forall|i: int|
            0 <= i < persist_result(rows, rec).len() ==> (#[trigger] persist_result(
                rows,
                rec,
            )[i]).nomestaz@.len() > 0,
{
    lemma_first_match_props(rows, station_named(rec.nomestaz@));
    let i = station_index(rows, rec.nomestaz@);
    let newrows = persist_result(rows, rec);
    if i == -1 {
        let created = created_station(rec);
        assert(created.nomestaz@ == rec.nomestaz@);
        assert(station_meta_normalized(created));
        assert forall|a: int, b: int| 0 <= a < b < newrows.len() implies (
        #[trigger] newrows[a]).nomestaz@ != (#[trigger] newrows[b]).nomestaz@ by {
            if b == newrows.len() - 1 {
                assert(newrows[a] == rows[a]);
                assert(!station_named(rec.nomestaz@)(rows[a]));
            } else {
                assert(newrows[a] == rows[a] && newrows[b] == rows[b]);
            }
        }
    } else {
        let merged = apply_observation(Some(rows[i]), rec);
        assert(merged.nomestaz@ == rows[i].nomestaz@);
        assert(station_meta_normalized(merged));
        assert forall|a: int, b: int| 0 <= a < b < newrows.len() implies (
        #[trigger] newrows[a]).nomestaz@ != (#[trigger] newrows[b]).nomestaz@ by {
            assert(newrows[a].nomestaz@ == rows[a].nomestaz@);
            assert(newrows[b].nomestaz@ == rows[b].nomestaz@);
        }
    }
}

/// The station store: one row per station name. It models the shared
/// document store of the deployment; all mutation goes through the
/// conditional ingestion write.
pub struct StationsStore {
    rows: Vec<StationRecord>,
}

impl StationsStore {
    /// The rows held by the store, in insertion order.
    pub closed spec fn rows_seq(self) -> Seq<StationRecord> {
        self.rows@
    }

    /// Store invariant: unique names, no empty metadata, no empty keys.
    pub open spec fn wf(self) -> bool {
        &&& station_names_unique(self.rows_seq())
        &&& forall|i: int|
            0 <= i < self.rows_seq().len() ==> station_meta_normalized(
                #[trigger] self.rows_seq()[i],
            )
        &&& forall|i: int| 0 <= i < self.rows_seq().len() ==> (#[trigger] self.rows_seq()[i]).nomestaz@.len() > 0
    }

    /// An empty store.
    pub fn new() -> (r: Self)
        ensures
            r.wf(),
            r.rows_seq() == Seq::<StationRecord>::empty(),
    {
        let r = StationsStore { rows: Vec::new() };
        proof {
            assert(r.rows@ =~= Seq::<StationRecord>::empty());
        }
        r
    }

    /// Point read by primary key.
    pub fn get_station_record(&self, station_name: &str) -> (r: Option<&StationRecord>)
        ensures
            match r {
                Some(rec) => {
                    let i = station_index(self.rows_seq(), station_name@);
                    &&& i != -1
                    &&& *rec == self.rows_seq()[i]
                },
                None => station_index(self.rows_seq(), station_name@) == -1,
            },
    {
        let ghost target = station_name@;
        let n = self.rows.len();
        let mut i: usize = 0;
        while i < n
            invariant
                target == station_name@,
                n == self.rows_seq().len(),
                0 <= i <= n,
                forall|k: int| 0 <= k < i ==> (#[trigger] self.rows_seq()[k]).nomestaz@ != target,
            decreases n - i,
        {
            if crate::text_util::str_eq(self.rows[i].nomestaz.as_str(), station_name) {
                proof {
                    lemma_first_match_witness(self.rows_seq(), station_named(target), i as int);
                }
                return Some(&self.rows[i]);
            }
            i += 1;
        }
        proof {
            lemma_first_match_absent(self.rows_seq(), station_named(target));
        }
        None
    }

    /// The names of all stations the store knows, in store order.
    pub fn list_stations(&self) -> (r: Vec<String>)
        ensures
            r@.len() == self.rows_seq().len(),
            forall|i: int| 0 <= i < r@.len() ==> (#[trigger] r@[i])@ == self.rows_seq()[i].nomestaz@,
    {
        let mut names: Vec<String> = Vec::new();
        let n = self.rows.len();
        let mut i: usize = 0;
        while i < n
            invariant
                n == self.rows_seq().len(),
                0 <= i <= n,
                names@.len() == i,
                forall|k: int| 0 <= k < i ==> (#[trigger] names@[k])@ == self.rows_seq()[k].nomestaz@,
            decreases n - i,
        {
            names.push(self.rows[i].nomestaz.clone());
            i += 1;
        }
        names
    }

    /// The ingestion write: persist `rec` under the condition "station
    /// absent, or reading strictly newer". A stale or duplicate delivery
    /// completes with no observable effect; it is not an error.
    pub fn persist_observation(&mut self, rec: &StationRecord)
        requires
            old(self).wf(),
            rec.nomestaz@.len() > 0,
        ensures
            final(self).wf(),
            final(self).rows_seq() == persist_result(old(self).rows_seq(), *rec),
    {
        let ghost rows0 = self.rows_seq();
        let ghost target = rec.nomestaz@;
        let n = self.rows.len();
        let mut i: usize = 0;
        while i < n
            invariant
                target == rec.nomestaz@,
                rec.nomestaz@.len() > 0,
                old(self).wf(),
                rows0 == old(self).rows_seq(),
                self.rows_seq() == rows0,
                n == rows0.len(),
                0 <= i <= n,
                forall|k: int| 0 <= k < i ==> (#[trigger] rows0[k]).nomestaz@ != target,
            decreases n - i,
        {
            if crate::text_util::str_eq(self.rows[i].nomestaz.as_str(), rec.nomestaz.as_str()) {
                proof {
                    lemma_first_match_witness(rows0, station_named(target), i as int);
                }
                if rec.timestamp > self.rows[i].timestamp {
                    let merged = merge_into(&self.rows[i], rec);
                    self.rows[i] = merged;
                    proof {
                        assert(self.rows_seq() =~= persist_result(rows0, *rec));
                        lemma_persist_result_wf(rows0, *rec);
                    }
                } else {
                    proof {
                        assert(rows0.update(i as int, rows0[i as int]) =~= rows0);
                        lemma_persist_result_wf(rows0, *rec);
                    }
                }
                return;
            }
            i += 1;
        }
        proof {
            lemma_first_match_absent(rows0, station_named(target));
            lemma_persist_result_wf(rows0, *rec);
        }
        let created = StationRecord {
            timestamp: rec.timestamp,
            idstazione: rec.idstazione.clone(),
            ordinamento: rec.ordinamento,
            nomestaz: rec.nomestaz.clone(),
            lon: rec.lon.clone(),
            lat: rec.lat.clone(),
            soglia1: rec.soglia1,
            soglia2: rec.soglia2,
            soglia3: rec.soglia3,
            bacino: normalize_meta(&rec.bacino),
            provincia: normalize_meta(&rec.provincia),
            comune: normalize_meta(&rec.comune),
            value: rec.value,
        };
        assert(created == created_station(*rec));
        self.rows.push(created);
    }
}

/// Empty metadata strings become absent values before they are stored.
fn normalize_meta(o: &Option<String>) -> (r: Option<String>)
    ensures
        r == normalized_meta(*o),
{
    match o {
        Some(s) => {
            if s.as_str().is_empty() {
                None
            } else {
                Some(s.clone())
            }
        },
        None => None,
    }
}

/// Builds the merged record for an existing row and a newer reading.
fn merge_into(stored: &StationRecord, rec: &StationRecord) -> (r: StationRecord)
    ensures
        r == merged_station(*stored, *rec),
{
    StationRecord {
        timestamp: rec.timestamp,
        idstazione: stored.idstazione.clone(),
        ordinamento: stored.ordinamento,
        nomestaz: stored.nomestaz.clone(),
        lon: stored.lon.clone(),
        lat: stored.lat.clone(),
        soglia1: stored.soglia1,
        soglia2: stored.soglia2,
        soglia3: if !crate::level_is_known(stored.soglia3) && crate::level_is_known(rec.soglia3) {
            rec.soglia3
        } else {
            stored.soglia3
        },
        bacino: if stored.bacino.is_some() {
            clone_meta(&stored.bacino)
        } else {
            normalize_meta(&rec.bacino)
        },
        provincia: if stored.provincia.is_some() {
            clone_meta(&stored.provincia)
        } else {
            normalize_meta(&rec.provincia)
        },
        comune: if stored.comune.is_some() {
            clone_meta(&stored.comune)
        } else {
            normalize_meta(&rec.comune)
        },
        value: rec.value,
    }
}

/// Clones an optional metadata string without changing its value.
fn clone_meta(o: &Option<String>) -> (r: Option<String>)
    ensures
        r == *o,
{
    match o {
        Some(s) => Some(s.clone()),
        None => None,
    }
}

/// The row stored under `name`, if any.
pub open spec fn lookup_station(rows: Seq<StationRecord>, name: Seq<char>) -> Option<StationRecord> {
    let i = station_index(rows, name);
    if i == -1 {
        None
    } else {
        Some(rows[i])
    }
}

/// What one ingestion write means per station: the written station's row
/// becomes `apply_observation` of its old row, and every other station's
/// row is untouched.
pub proof fn lemma_persist_result_lookup(rows: Seq<StationRecord>, rec: StationRecord, name: Seq<char>)
    requires
        station_names_unique(rows),
    ensures
        lookup_station(persist_result(rows, rec), name) == if name == rec.nomestaz@ {
            Some(apply_observation(lookup_station(rows, rec.nomestaz@), rec))
        } else {
            lookup_station(rows, name)
        },
{
    let target = rec.nomestaz@;
    lemma_first_match_props(rows, station_named(target));
    lemma_first_match_props(rows, station_named(name));
    let i = station_index(rows, target);
    let newrows = persist_result(rows, rec);
    if i == -1 {
        let created = created_station(rec);
        assert(created.nomestaz@ == target);
        if name == target {
            assert forall|k: int| 0 <= k < newrows.len() - 1 implies !station_named(name)(
                #[trigger] newrows[k],
            ) by {
                assert(newrows[k] == rows[k]);
            }
            lemma_first_match_witness(newrows, station_named(name), newrows.len() - 1);
        } else {
            let j = station_index(rows, name);
            if j == -1 {
                assert forall|k: int| 0 <= k < newrows.len() implies !station_named(name)(
                    #[trigger] newrows[k],
                ) by {
                    if k < newrows.len() - 1 {
                        assert(newrows[k] == rows[k]);
                    }
                }
                lemma_first_match_absent(newrows, station_named(name));
            } else {
                assert(newrows[j] == rows[j]);
                assert forall|k: int| 0 <= k < j implies !station_named(name)(
                    #[trigger] newrows[k],
                ) by {
                    assert(newrows[k] == rows[k]);
                }
                lemma_first_match_witness(newrows, station_named(name), j);
            }
        }
    } else {
        let merged = apply_observation(Some(rows[i]), rec);
        assert(merged.nomestaz@ == rows[i].nomestaz@);
        assert(rows[i].nomestaz@ == target);
        if name == target {
            assert forall|k: int| 0 <= k < i implies !station_named(name)(
                #[trigger] newrows[k],
            ) by {
                assert(newrows[k] == rows[k]);
            }
            assert(station_named(name)(newrows[i]));
            lemma_first_match_witness(newrows, station_named(name), i);
        } else {
            let j = station_index(rows, name);
            if j == -1 {
                assert forall|k: int| 0 <= k < newrows.len() implies !station_named(name)(
                    #[trigger] newrows[k],
                ) by {
                    if k != i {
                        assert(newrows[k] == rows[k]);
                    }
                }
                lemma_first_match_absent(newrows, station_named(name));
            } else {
                assert(j != i);
                assert(newrows[j] == rows[j]);
                assert forall|k: int| 0 <= k < j implies !station_named(name)(
                    #[trigger] newrows[k],
                ) by {
                    if k != i {
                        assert(newrows[k] == rows[k]);
                    }
                }
                lemma_first_match_witness(newrows, station_named(name), j);
            }
        }
    }
}

/// What a whole sequence of ingestion writes leaves in the store.
pub open spec fn persist_all(rows: Seq<StationRecord>, obs: Seq<StationRecord>) -> Seq<StationRecord>
    decreases obs.len(),
{
    if obs.len() == 0 {
        rows
    } else {
        persist_result(persist_all(rows, obs.drop_last()), obs.last())
    }
}

/// Ingestion writes keep the name-uniqueness of the store.
pub proof fn lemma_persist_all_unique(rows: Seq<StationRecord>, obs: Seq<StationRecord>)
    requires
        station_names_unique(rows),
        forall|k: int| 0 <= k < obs.len() ==> (#[trigger] obs[k]).nomestaz@.len() > 0,
    ensures
        station_names_unique(persist_all(rows, obs)),
    decreases obs.len(),
{
    if obs.len() > 0 {
        assert(forall|k: int| 0 <= k < obs.len() - 1 ==> obs.drop_last()[k] == obs[k]);
        lemma_persist_all_unique(rows, obs.drop_last());
        lemma_persist_result_wf_names(persist_all(rows, obs.drop_last()), obs.last());
    }
}

/// Name uniqueness alone survives one ingestion write.
proof fn lemma_persist_result_wf_names(rows: Seq<StationRecord>, rec: StationRecord)
    requires
        station_names_unique(rows),
    ensures
        station_names_unique(persist_result(rows, rec)),
{
    lemma_first_match_props(rows, station_named(rec.nomestaz@));
    let i = station_index(rows, rec.nomestaz@);
    let newrows = persist_result(rows, rec);
    if i == -1 {
        assert forall|a: int, b: int| 0 <= a < b < newrows.len() implies (
        #[trigger] newrows[a]).nomestaz@ != (#[trigger] newrows[b]).nomestaz@ by {
            if b == newrows.len() - 1 {
                assert(newrows[a] == rows[a]);
                assert(!station_named(rec.nomestaz@)(rows[a]));
                assert(newrows[b].nomestaz@ == rec.nomestaz@);
            } else {
                assert(newrows[a] == rows[a] && newrows[b] == rows[b]);
            }
        }
    } else {
        assert(apply_observation(Some(rows[i]), rec).nomestaz@ == rows[i].nomestaz@);
        assert forall|a: int, b: int| 0 <= a < b < newrows.len() implies (
        #[trigger] newrows[a]).nomestaz@ != (#[trigger] newrows[b]).nomestaz@ by {
            assert(newrows[a].nomestaz@ == rows[a].nomestaz@);
            assert(newrows[b].nomestaz@ == rows[b].nomestaz@);
        }
    }
}

/// The identity projection on station records.
pub open spec fn station_row_fn() -> spec_fn(StationRecord) -> StationRecord {
    |r: StationRecord| r
}

/// The observations of one batch that belong to one station, in order.
pub open spec fn obs_for_station(obs: Seq<StationRecord>, name: Seq<char>) -> Seq<StationRecord> {
    filter_map(obs, station_named(name), station_row_fn())
}

/// What a sequence of ingestion writes means for one station: its row
/// is the fold of `apply_observation` over exactly its own
/// observations, and every other station's writes leave it untouched —
/// whatever order and mixture of stations the batch interleaves.
pub proof fn lemma_persist_all_lookup(
    rows: Seq<StationRecord>,
    obs: Seq<StationRecord>,
    name: Seq<char>,
)
    requires
        station_names_unique(rows),
        forall|k: int| 0 <= k < obs.len() ==> (#[trigger] obs[k]).nomestaz@.len() > 0,
    ensures
        lookup_station(persist_all(rows, obs), name) == station_after(
            lookup_station(rows, name),
            obs_for_station(obs, name),
        ),
    decreases obs.len(),
{
    if obs.len() > 0 {
        let front = obs.drop_last();
        let last = obs.last();
        assert(forall|k: int| 0 <= k < front.len() ==> front[k] == obs[k]);
        lemma_persist_all_lookup(rows, front, name);
        lemma_persist_all_unique(rows, front);
        lemma_persist_result_lookup(persist_all(rows, front), last, name);
        if last.nomestaz@ == name {
            assert(obs_for_station(obs, name) == obs_for_station(front, name).push(last));
            let sub = obs_for_station(front, name).push(last);
            assert(sub.drop_last() =~= obs_for_station(front, name));
            assert(sub.last() == last);
            assert(station_after(lookup_station(rows, name), sub) == Some(
                apply_observation(
                    station_after(lookup_station(rows, name), obs_for_station(front, name)),
                    last,
                ),
            ));
        } else {
            assert(obs_for_station(obs, name) == obs_for_station(front, name));
        }
    }
}

/// The station row after a sequence of observations is applied in order.
pub open spec fn station_after(
    init: Option<StationRecord>,
    obs: Seq<StationRecord>,
) -> Option<StationRecord>
    decreases obs.len(),
{
    if obs.len() == 0 {
        init
    } else {
        Some(apply_observation(station_after(init, obs.drop_last()), obs.last()))
    }
}

/// The largest reading timestamp in a batch of observations.
pub open spec fn max_timestamp(obs: Seq<StationRecord>) -> int
    decreases obs.len(),
{
    if obs.len() == 0 {
        0
    } else if obs.len() == 1 {
        obs[0].timestamp as int
    } else {
        let m = max_timestamp(obs.drop_last());
        if obs.last().timestamp > m {
            obs.last().timestamp as int
        } else {
            m
        }
    }
}

/// Monotonicity law: after any sequence of observations for one station,
/// the stored timestamp is exactly the largest timestamp ever submitted,
/// whatever the order of the calls.
pub proof fn lemma_timestamp_monotonic(obs: Seq<StationRecord>)
    requires
        obs.len() > 0,
    ensures
        station_after(None, obs) is Some,
        station_after(None, obs).unwrap().timestamp == max_timestamp(obs),
    decreases obs.len(),
{
    if obs.len() > 1 {
        lemma_timestamp_monotonic(obs.drop_last());
        let prev = station_after(None, obs.drop_last()).unwrap();
        assert(station_after(None, obs) == Some(apply_observation(Some(prev), obs.last())));
        assert(max_timestamp(obs) == if obs.last().timestamp > max_timestamp(obs.drop_last()) {
            obs.last().timestamp as int
        } else {
            max_timestamp(obs.drop_last())
        });
    } else {
        assert(obs.drop_last().len() == 0);
        assert(station_after(None, obs) == Some(created_station(obs.last())));
        assert(obs.last() == obs[0]);
    }
}

/// Write-once law: no sequence of later observations changes a station's
/// identifier, coordinates, ordering, name, or its yellow and orange
/// thresholds, and metadata that is present never changes either.
pub proof fn lemma_write_once(r: StationRecord, obs: Seq<StationRecord>)
    ensures
        station_after(Some(r), obs) is Some,
        station_after(Some(r), obs).unwrap().idstazione == r.idstazione,
        station_after(Some(r), obs).unwrap().ordinamento == r.ordinamento,
        station_after(Some(r), obs).unwrap().nomestaz == r.nomestaz,
        station_after(Some(r), obs).unwrap().lon == r.lon,
        station_after(Some(r), obs).unwrap().lat == r.lat,
        station_after(Some(r), obs).unwrap().soglia1 == r.soglia1,
        station_after(Some(r), obs).unwrap().soglia2 == r.soglia2,
        r.bacino is Some ==> station_after(Some(r), obs).unwrap().bacino == r.bacino,
        r.provincia is Some ==> station_after(Some(r), obs).unwrap().provincia == r.provincia,
        r.comune is Some ==> station_after(Some(r), obs).unwrap().comune == r.comune,
    decreases obs.len(),
{
    if obs.len() > 0 {
        lemma_write_once(r, obs.drop_last());
    }
}

/// First writer wins: the write-once attributes a station holds after
/// any sequence of observations are the ones the very first observation
/// supplied.
pub proof fn lemma_first_writer_wins(obs: Seq<StationRecord>)
    requires
        obs.len() > 0,
    ensures
        station_after(None, obs) is Some,
        station_after(None, obs).unwrap().lon == obs[0].lon,
        station_after(None, obs).unwrap().lat == obs[0].lat,
        station_after(None, obs).unwrap().idstazione == obs[0].idstazione,
        station_after(None, obs).unwrap().ordinamento == obs[0].ordinamento,
        station_after(None, obs).unwrap().soglia1 == obs[0].soglia1,
        station_after(None, obs).unwrap().soglia2 == obs[0].soglia2,
    decreases obs.len(),
{
    if obs.len() > 1 {
        lemma_first_writer_wins(obs.drop_last());
        assert(obs.drop_last()[0] == obs[0]);
        let prev = station_after(None, obs.drop_last()).unwrap();
        assert(station_after(None, obs) == Some(apply_observation(Some(prev), obs.last())));
    } else {
        assert(obs.drop_last().len() == 0);
        assert(station_after(None, obs) == Some(created_station(obs.last())));
        assert(obs.last() == obs[0]);
    }
}

/// Threshold-high write-once: once the red threshold holds a known
/// value, no later observation moves it.
pub proof fn lemma_threshold_high_write_once(r: StationRecord, obs: Seq<StationRecord>)
    requires
        is_known_level(r.soglia3),
    ensures
        station_after(Some(r), obs) is Some,
        station_after(Some(r), obs).unwrap().soglia3 == r.soglia3,
    decreases obs.len(),
{
    if obs.len() > 0 {
        lemma_threshold_high_write_once(r, obs.drop_last());
    }
}

/// Threshold-high upgrade: a newer observation that supplies a known red
/// threshold fills a stored unknown one.
pub proof fn lemma_threshold_high_upgrade(r: StationRecord, rec: StationRecord)
    requires
        !is_known_level(r.soglia3),
        is_known_level(rec.soglia3),
        rec.timestamp > r.timestamp,
    ensures
        apply_observation(Some(r), rec).soglia3 == rec.soglia3,
{
}

} // verus!
