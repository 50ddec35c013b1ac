//! Parsing of the Marche hydrometric portal's responses: the station
//! dropdown HTML, series names, the min/max CSV that supplies the red
//! threshold, and the request parameters the portal expects.
use vstd::prelude::*;
use vstd::string::StrSliceExecFns;
use vstd::string::StringExecFns;

use crate::numeric::{level_parse, parse_level};
use crate::parsing::{trim_spaces, trimmed};
use crate::seq_util::{filter_map, lemma_filter_map_take_step, lemma_take_full};
use crate::stations::StationRecord;
use crate::text_util::{
    eq_ignore_case, split_on, split_once_at, str_eq, str_eq_ignore_ascii_case, str_split,
    str_split_once,
};
use crate::UNKNOWN_THRESHOLD;

verus! {

/// One sensor of the Marche portal: its raw dropdown id, the prefixed
/// station identifier, and the station's display name.
pub struct MarcheSensor {
    /// The id as the dropdown carries it.
    pub id_raw: String,
    /// The station identifier the store uses ("RT-" plus the raw id).
    pub id_rt: String,
    /// The station's display name.
    pub name: String,
}

/// The station name inside a dropdown label: everything before the
/// " (RT-" marker, else before " Dati da", else the whole label;
/// trimmed either way.
pub open spec fn station_name_of_label(label: Seq<char>) -> Seq<char> {
    let t = trimmed(label);
    match split_once_at(t, " (RT-"@) {
        Some(p) => trimmed(p.0),
        None => match split_once_at(t, " Dati da"@) {
            Some(p) => trimmed(p.0),
            None => t,
        },
    }
}

/// Reads the station name out of a dropdown label.
pub fn extract_station_name(label: &str) -> (r: String)
    ensures
        r@ == station_name_of_label(label@),
{
    proof {
        reveal_strlit(" (RT-");
        reveal_strlit(" Dati da");
    }
    let t = trim_spaces(label);
    match str_split_once(t.as_str(), " (RT-") {
        Some(p) => trim_spaces(p.0.as_str()),
        None => match str_split_once(t.as_str(), " Dati da") {
            Some(p) => trim_spaces(p.0.as_str()),
            None => t,
        },
    }
}

/// The sensor id inside a series name: what stands between "(sensore "
/// and the next ")", trimmed; nothing when either marker is missing or
/// the id is blank.
pub open spec fn sensor_id_of_series_name(name: Seq<char>) -> Option<Seq<char>> {
    match split_once_at(name, "(sensore "@) {
        Some(p) => match split_once_at(p.1, ")"@) {
            Some(q) => {
                let id = trimmed(q.0);
                if id.len() > 0 {
                    Some(id)
                } else {
                    None
                }
            },
            None => None,
        },
        None => None,
    }
}

/// Reads the sensor id out of a series name.
pub fn extract_sensor_id_from_series_name(name: &str) -> (r: Option<String>)
    ensures
        match r {
            Some(id) => sensor_id_of_series_name(name@) == Some(id@),
            None => sensor_id_of_series_name(name@) is None,
        },
{
    proof {
        reveal_strlit("(sensore ");
        reveal_strlit(")");
    }
    match str_split_once(name, "(sensore ") {
        Some(p) => match str_split_once(p.1.as_str(), ")") {
            Some(q) => {
                let id = trim_spaces(q.0.as_str());
                if id.as_str().is_empty() {
                    None
                } else {
                    Some(id)
                }
            },
            None => None,
        },
        None => None,
    }
}

/// The (id, name) a dropdown chunk yields: the text up to the closing
/// quote-bracket is the id, the option body the label; both must be
/// non-blank after trimming.
pub open spec fn sensor_of_chunk(chunk: Seq<char>) -> Option<(Seq<char>, Seq<char>)> {
    match split_once_at(chunk, "\">"@) {
        Some(p) => match split_once_at(p.1, "</option>"@) {
            Some(q) => {
                let id = trimmed(p.0);
                let name = station_name_of_label(q.0);
                if id.len() > 0 && name.len() > 0 {
                    Some((id, name))
                } else {
                    None
                }
            },
            None => None,
        },
        None => None,
    }
}

/// Predicate matching the chunks that yield a sensor.
pub open spec fn chunk_has_sensor() -> spec_fn(Seq<char>) -> bool {
    |c: Seq<char>| sensor_of_chunk(c) is Some
}

/// The (id, name) of a chunk known to yield one.
pub open spec fn chunk_sensor() -> spec_fn(Seq<char>) -> (Seq<char>, Seq<char>) {
    |c: Seq<char>| sensor_of_chunk(c).unwrap()
}

/// The sensors a menu page lists, in page order: one per option tag
/// whose id and label are non-blank.
pub open spec fn sensors_of_html(html: Seq<char>) -> Seq<(Seq<char>, Seq<char>)> {
    filter_map(
        split_on(html, "<option value=\""@).drop_first(),
        chunk_has_sensor(),
        chunk_sensor(),
    )
}

/// Reads one dropdown chunk.
fn parse_sensor_chunk(chunk: &str) -> (r: Option<(String, String)>)
    ensures
        match r {
            Some(p) => sensor_of_chunk(chunk@) == Some((p.0@, p.1@)),
            None => sensor_of_chunk(chunk@) is None,
        },
{
    proof {
        reveal_strlit("\">");
        reveal_strlit("</option>");
    }
    match str_split_once(chunk, "\">") {
        Some(p) => match str_split_once(p.1.as_str(), "</option>") {
            Some(q) => {
                let id = trim_spaces(p.0.as_str());
                let name = extract_station_name(q.0.as_str());
                if !id.as_str().is_empty() && !name.as_str().is_empty() {
                    Some((id, name))
                } else {
                    None
                }
            },
            None => None,
        },
        None => None,
    }
}

/// Reads the sensors out of a menu page: ids and names of every option
/// tag, the store identifier built by prefixing "RT-".
pub fn parse_station_options(html: &str) -> (r: Vec<MarcheSensor>)
    ensures
        r@.len() == sensors_of_html(html@).len(),
        forall|k: int|
            0 <= k < r@.len() ==> {
                &&& (#[trigger] r@[k]).id_raw@ == sensors_of_html(html@)[k].0
                &&& r@[k].id_rt@ == "RT-"@ + sensors_of_html(html@)[k].0
                &&& r@[k].name@ == sensors_of_html(html@)[k].1
            },
{
    proof {
        reveal_strlit("<option value=\"");
        reveal_strlit("RT-");
    }
    let chunks = str_split(html, "<option value=\"");
    let ghost sv = split_on(html@, "<option value=\""@).drop_first();
    let mut out: Vec<MarcheSensor> = Vec::new();
    let n = chunks.len();
    let mut i: usize = 1;
    while i < n
        invariant
            sv == split_on(html@, "<option value=\""@).drop_first(),
            n == chunks@.len(),
            n == sv.len() + 1,
            forall|k: int| 0 <= k < n ==> (#[trigger] chunks@[k])@ == split_on(
                html@,
                "<option value=\""@,
            )[k],
            1 <= i <= n,
            out@.len() == filter_map(sv.take(i - 1), chunk_has_sensor(), chunk_sensor()).len(),
            forall|k: int|
                0 <= k < out@.len() ==> {
                    &&& (#[trigger] out@[k]).id_raw@ == filter_map(
                        sv.take(i - 1),
                        chunk_has_sensor(),
                        chunk_sensor(),
                    )[k].0
                    &&& out@[k].id_rt@ == "RT-"@ + filter_map(
                        sv.take(i - 1),
                        chunk_has_sensor(),
                        chunk_sensor(),
                    )[k].0
                    &&& out@[k].name@ == filter_map(
                        sv.take(i - 1),
                        chunk_has_sensor(),
                        chunk_sensor(),
                    )[k].1
                },
        decreases n - i,
    {
        proof {
            reveal_strlit("RT-");
            lemma_filter_map_take_step(sv, chunk_has_sensor(), chunk_sensor(), i - 1);
            assert(sv[i - 1] == (chunks@[i as int])@);
        }
        match parse_sensor_chunk(chunks[i].as_str()) {
            Some(p) => {
                let (id, name) = p;
                let mut id_rt = String::from_str("RT-");
                id_rt.append(id.as_str());
                let sensor = MarcheSensor { id_raw: id, id_rt: id_rt, name: name };
                out.push(sensor);
            },
            None => {},
        }
        i += 1;
    }
    proof {
        lemma_take_full(sv);
        assert(sv.take(sv.len() as int) == sv.take(i - 1));
    }
    out
}

/// The latest point of a series that carries a value: scanning from the
/// end, the first pair whose value is present.
pub open spec fn latest_valid(data: Seq<(i64, Option<i64>)>) -> Option<(i64, i64)>
    decreases data.len(),
{
    if data.len() == 0 {
        None
    } else {
        match data.last().1 {
            Some(v) => Some((data.last().0, v)),
            None => latest_valid(data.drop_last()),
        }
    }
}

/// Picks the latest point of a series that carries a value.
pub fn latest_valid_point(data: &Vec<(i64, Option<i64>)>) -> (r: Option<(i64, i64)>)
    ensures
        r == latest_valid(data@),
{
    let mut i: usize = data.len();
    proof {
        assert(data@.take(data@.len() as int) =~= data@);
    }
    while i > 0
        invariant
            0 <= i <= data@.len(),
            latest_valid(data@) == latest_valid(data@.take(i as int)),
        decreases i,
    {
        proof {
            assert(data@.take(i as int).last() == data@[i - 1]);
            assert(data@.take(i as int).drop_last() =~= data@.take(i - 1));
        }
        let pair = data[i - 1];
        match pair.1 {
            Some(v) => {
                return Some((pair.0, v));
            },
            None => {},
        }
        i -= 1;
    }
    proof {
        assert(data@.take(0).len() == 0);
    }
    None
}

/// One row of the min/max CSV: the sensor id and its maximum level.
/// Blank lines, the header, short rows, blank ids, unreadable levels
/// and levels at or below the unknown sentinel yield nothing.
pub open spec fn minmax_row(line: Seq<char>) -> Option<(Seq<char>, int)> {
    let t = trimmed(line);
    if t.len() == 0 || (t.len() >= "Codice sensore"@.len() && t.take("Codice sensore"@.len() as int)
        == "Codice sensore"@) {
        None
    } else {
        let fields = split_on(t, ","@);
        if fields.len() < 15 {
            None
        } else {
            let sensor = trimmed(fields[0]);
            if sensor.len() == 0 {
                None
            } else {
                match level_parse(trimmed(fields[14])) {
                    Some(v) => if v <= UNKNOWN_THRESHOLD {
                        None
                    } else {
                        Some((sensor, v))
                    },
                    None => None,
                }
            }
        }
    }
}

/// Predicate matching the CSV lines that yield a threshold.
pub open spec fn line_has_threshold() -> spec_fn(Seq<char>) -> bool {
    |l: Seq<char>| minmax_row(l) is Some
}

/// The threshold pair of a line known to yield one.
pub open spec fn line_threshold() -> spec_fn(Seq<char>) -> (Seq<char>, int) {
    |l: Seq<char>| minmax_row(l).unwrap()
}

/// The sensor/threshold pairs of a min/max CSV, in row order.
pub open spec fn minmax_rows(payload: Seq<char>) -> Seq<(Seq<char>, int)> {
    filter_map(split_on(payload, "\n"@), line_has_threshold(), line_threshold())
}

/// Reads one CSV line.
fn parse_minmax_line(line: &str) -> (r: Option<(String, i64)>)
    ensures
        match r {
            Some(p) => minmax_row(line@) == Some((p.0@, p.1 as int)),
            None => minmax_row(line@) is None,
        },
{
    proof {
        reveal_strlit("Codice sensore");
        reveal_strlit(",");
    }
    let t = trim_spaces(line);
    if t.as_str().is_empty() {
        return None;
    }
    if crate::text_util::str_has_prefix(t.as_str(), "Codice sensore") {
        return None;
    }
    let fields = str_split(t.as_str(), ",");
    if fields.len() < 15 {
        return None;
    }
    let sensor = trim_spaces(fields[0].as_str());
    if sensor.as_str().is_empty() {
        return None;
    }
    let raw = trim_spaces(fields[14].as_str());
    match parse_level(raw.as_str()) {
        Some(v) => {
            if v <= UNKNOWN_THRESHOLD {
                None
            } else {
                Some((sensor, v))
            }
        },
        None => None,
    }
}

/// Reads the per-sensor maximum levels out of the min/max CSV, in row
/// order; a sensor repeated later in the file wins on lookup.
pub fn parse_minmax_response(payload: &str) -> (r: Vec<(String, i64)>)
    ensures
        r@.len() == minmax_rows(payload@).len(),
        forall|k: int|
            0 <= k < r@.len() ==> (#[trigger] r@[k]).0@ == minmax_rows(payload@)[k].0 && r@[k].1
                == minmax_rows(payload@)[k].1,
{
    proof {
        reveal_strlit("\n");
    }
    let lines = str_split(payload, "\n");
    let ghost sv = split_on(payload@, "\n"@);
    let mut out: Vec<(String, i64)> = Vec::new();
    let n = lines.len();
    let mut i: usize = 0;
    while i < n
        invariant
            sv == split_on(payload@, "\n"@),
            n == lines@.len(),
            n == sv.len(),
            forall|k: int| 0 <= k < n ==> (#[trigger] lines@[k])@ == sv[k],
            0 <= i <= n,
            out@.len() == filter_map(sv.take(i as int), line_has_threshold(), line_threshold()).len(),
            forall|k: int|
                0 <= k < out@.len() ==> {
                    &&& (#[trigger] out@[k]).0@ == filter_map(
                        sv.take(i as int),
                        line_has_threshold(),
                        line_threshold(),
                    )[k].0
                    &&& out@[k].1 == filter_map(
                        sv.take(i as int),
                        line_has_threshold(),
                        line_threshold(),
                    )[k].1
                },
        decreases n - i,
    {
        proof {
            lemma_filter_map_take_step(sv, line_has_threshold(), line_threshold(), i as int);
            assert(sv[i as int] == (lines@[i as int])@);
        }
        match parse_minmax_line(lines[i].as_str()) {
            Some(p) => {
                out.push(p);
            },
            None => {},
        }
        i += 1;
    }
    proof {
        lemma_take_full(sv);
    }
    out
}

/// The value stored under a key, later rows winning, as a keyed store
/// would return it.
pub open spec fn pairs_lookup(pairs: Seq<(Seq<char>, int)>, key: Seq<char>) -> Option<int>
    decreases pairs.len(),
{
    if pairs.len() == 0 {
        None
    } else if pairs.last().0 == key {
        Some(pairs.last().1)
    } else {
        pairs_lookup(pairs.drop_last(), key)
    }
}

/// Looks a sensor's threshold up, later rows winning.
pub fn minmax_lookup(pairs: &Vec<(String, i64)>, key: &str) -> (r: Option<i64>)
    ensures
        match r {
            Some(v) => pairs_lookup(pairs@.map_values(|p: (String, i64)| (p.0@, p.1 as int)), key@)
                == Some(v as int),
            None => pairs_lookup(pairs@.map_values(|p: (String, i64)| (p.0@, p.1 as int)), key@)
                is None,
        },
{
    let ghost pv = pairs@.map_values(|p: (String, i64)| (p.0@, p.1 as int));
    let mut i: usize = pairs.len();
    proof {
        assert(pv.take(pv.len() as int) =~= pv);
    }
    while i > 0
        invariant
            pv == pairs@.map_values(|p: (String, i64)| (p.0@, p.1 as int)),
            pv.len() == pairs@.len(),
            0 <= i <= pairs@.len(),
            pairs_lookup(pv, key@) == pairs_lookup(pv.take(i as int), key@),
        decreases i,
    {
        proof {
            assert(pv.take(i as int).last() == pv[i - 1]);
            assert(pv.take(i as int).drop_last() =~= pv.take(i - 1));
            assert(pv[i - 1].0 == (pairs@[i - 1].0)@);
        }
        if str_eq(pairs[i - 1].0.as_str(), key) {
            return Some(pairs[i - 1].1);
        }
        i -= 1;
    }
    None
}

/// The station record one Marche sensor reading becomes: the "RT-"
/// identifier, the display order, no coordinates, the red threshold
/// from the min/max table when one is known, and the yellow and orange
/// thresholds unknown, as the portal does not publish them.
pub fn marche_station_record(
    sensor: &MarcheSensor,
    ordinamento: i32,
    timestamp: i64,
    value: i64,
    max_threshold: Option<i64>,
    bacino: Option<String>,
    provincia: Option<String>,
    comune: Option<String>,
) -> (r: StationRecord)
    ensures
        r.timestamp == if timestamp >= 0 {
            timestamp as int
        } else {
            0int
        },
        r.idstazione@ == sensor.id_rt@,
        r.ordinamento == ordinamento,
        r.nomestaz@ == sensor.name@,
        r.lon@ == "0"@,
        r.lat@ == "0"@,
        r.soglia1 == UNKNOWN_THRESHOLD,
        r.soglia2 == UNKNOWN_THRESHOLD,
        r.soglia3 == match max_threshold {
            Some(t) => t,
            None => UNKNOWN_THRESHOLD,
        },
        r.bacino == bacino,
        r.provincia == provincia,
        r.comune == comune,
        r.value == Some(value),
{
    StationRecord {
        timestamp: if timestamp >= 0 {
            timestamp
        } else {
            0
        },
        idstazione: sensor.id_rt.clone(),
        ordinamento: ordinamento,
        nomestaz: sensor.name.clone(),
        lon: String::from_str("0"),
        lat: String::from_str("0"),
        soglia1: UNKNOWN_THRESHOLD,
        soglia2: UNKNOWN_THRESHOLD,
        soglia3: match max_threshold {
            Some(t) => t,
            None => UNKNOWN_THRESHOLD,
        },
        bacino: bacino,
        provincia: provincia,
        comune: comune,
        value: Some(value),
    }
}


/// The candidate value of one select-option chunk: the quoted value
/// attribute (double or single quotes), trimmed, else the trimmed
/// option body, else nothing.
pub open spec fn select_candidate(chunk: Seq<char>) -> Seq<char> {
    let value = match split_once_at(chunk, "value=\""@) {
        Some(p) => match split_once_at(p.1, "\""@) {
            Some(q) => Some(trimmed(q.0)),
            None => None,
        },
        None => match split_once_at(chunk, "value='"@) {
            Some(p) => match split_once_at(p.1, "'"@) {
                Some(q) => Some(trimmed(q.0)),
                None => None,
            },
            None => None,
        },
    };
    let label = match split_once_at(chunk, ">"@) {
        Some(p) => match split_once_at(p.1, "</option>"@) {
            Some(q) => trimmed(q.0),
            None => Seq::<char>::empty(),
        },
        None => Seq::<char>::empty(),
    };
    match value {
        Some(v) => if v.len() > 0 {
            v
        } else {
            label
        },
        None => label,
    }
}

/// Adds one candidate to a listing: blanks, the "All" placeholder (in
/// any letter case) and values already listed are dropped.
pub open spec fn add_option(acc: Seq<Seq<char>>, cand: Seq<char>) -> Seq<Seq<char>> {
    if cand.len() == 0 || eq_ignore_case(cand, "all"@) || acc.contains(cand) {
        acc
    } else {
        acc.push(cand)
    }
}

/// The candidate values of a run of chunks, deduplicated in order.
pub open spec fn select_values(chunks: Seq<Seq<char>>) -> Seq<Seq<char>>
    decreases chunks.len(),
{
    if chunks.len() == 0 {
        Seq::empty()
    } else {
        add_option(select_values(chunks.drop_last()), select_candidate(chunks.last()))
    }
}

/// The values of the named select element in a page: its options up to
/// the closing tag, deduplicated, placeholders dropped. A page without
/// that element has none.
pub open spec fn select_options_of(html: Seq<char>, name: Seq<char>) -> Seq<Seq<char>> {
    let md = "name=\""@ + name + "\""@;
    let ms = "name='"@ + name + "'"@;
    let start = if crate::text_util::sub_index(html, md) != -1 {
        crate::text_util::sub_index(html, md)
    } else {
        crate::text_util::sub_index(html, ms)
    };
    if start == -1 {
        Seq::empty()
    } else {
        let block = html.skip(start);
        let e = crate::text_util::sub_index(block, "</select>"@);
        let content = if e == -1 {
            block
        } else {
            block.take(e)
        };
        select_values(split_on(content, "<option"@).drop_first())
    }
}

/// Whether a listing already holds a value.
fn vec_contains_value(v: &Vec<String>, cand: &str) -> (r: bool)
    ensures
        r == v@.map_values(|x: String| x@).contains(cand@),
{
    let ghost vv = v@.map_values(|x: String| x@);
    let n = v.len();
    let mut i: usize = 0;
    while i < n
        invariant
            vv == v@.map_values(|x: String| x@),
            n == v@.len(),
            vv.len() == n,
            0 <= i <= n,
            forall|k: int| 0 <= k < i ==> vv[k] != cand@,
        decreases n - i,
    {
        proof {
            assert(vv[i as int] == (v@[i as int])@);
        }
        if str_eq(v[i].as_str(), cand) {
            return true;
        }
        i += 1;
    }
    false
}

/// Reads the candidate value of one select-option chunk.
fn parse_select_chunk(chunk: &str) -> (r: String)
    ensures
        r@ == select_candidate(chunk@),
{
    proof {
        reveal_strlit("value=\"");
        reveal_strlit("\"");
        reveal_strlit("value='");
        reveal_strlit("'");
        reveal_strlit(">");
        reveal_strlit("</option>");
    }
    let value: Option<String> = match str_split_once(chunk, "value=\"") {
        Some(p) => match str_split_once(p.1.as_str(), "\"") {
            Some(q) => Some(trim_spaces(q.0.as_str())),
            None => None,
        },
        None => match str_split_once(chunk, "value='") {
            Some(p) => match str_split_once(p.1.as_str(), "'") {
                Some(q) => Some(trim_spaces(q.0.as_str())),
                None => None,
            },
            None => None,
        },
    };
    let label: String = match str_split_once(chunk, ">") {
        Some(p) => match str_split_once(p.1.as_str(), "</option>") {
            Some(q) => trim_spaces(q.0.as_str()),
            None => String::new(),
        },
        None => String::new(),
    };
    match value {
        Some(v) => {
            if !v.as_str().is_empty() {
                v
            } else {
                label
            }
        },
        None => label,
    }
}

/// Folds one candidate into the listing being built.
fn push_option(out: &mut Vec<String>, cand: String)
    ensures
        final(out)@.map_values(|x: String| x@) == add_option(
            old(out)@.map_values(|x: String| x@),
            cand@,
        ),
{
    proof {
        reveal_strlit("all");
    }
    let ghost before = out@.map_values(|x: String| x@);
    if cand.as_str().is_empty() {
        return;
    }
    if str_eq_ignore_ascii_case(cand.as_str(), "all") {
        return;
    }
    if vec_contains_value(out, cand.as_str()) {
        return;
    }
    let ghost candv = cand@;
    out.push(cand);
    proof {
        assert(out@.map_values(|x: String| x@) =~= before.push(candv));
    }
}

/// Reads the values of the named select element out of a page.
pub fn parse_select_options(html: &str, select_name: &str) -> (r: Vec<String>)
    ensures
        r@.map_values(|x: String| x@) == select_options_of(html@, select_name@),
{
    proof {
        reveal_strlit("name=\"");
        reveal_strlit("\"");
        reveal_strlit("name='");
        reveal_strlit("'");
        reveal_strlit("</select>");
        reveal_strlit("<option");
    }
    let mut marker_double = String::from_str("name=\"");
    marker_double.append(select_name);
    marker_double.append("\"");
    let mut marker_single = String::from_str("name='");
    marker_single.append(select_name);
    marker_single.append("'");
    proof {
        crate::text_util::lemma_sub_index_props(html@, marker_double@);
        crate::text_util::lemma_sub_index_props(html@, marker_single@);
    }
    let start = match crate::text_util::find_substring(html, marker_double.as_str()) {
        Some(i) => Some(i),
        None => crate::text_util::find_substring(html, marker_single.as_str()),
    };
    let start = match start {
        Some(i) => i,
        None => {
            let empty: Vec<String> = Vec::new();
            proof {
                assert(empty@.map_values(|x: String| x@) =~= Seq::<Seq<char>>::empty());
            }
            return empty;
        },
    };
    let n = html.unicode_len();
    proof {
        assert(start <= n);
    }
    let block = html.substring_char(start, n);
    proof {
        assert(block@ =~= html@.skip(start as int));
        crate::text_util::lemma_sub_index_props(block@, "</select>"@);
    }
    let content = match crate::text_util::find_substring(block, "</select>") {
        Some(e) => {
            let c = block.substring_char(0, e).to_owned();
            proof {
                assert(c@ =~= block@.take(
                    crate::text_util::sub_index(block@, "</select>"@),
                ));
            }
            c
        },
        None => block.to_owned(),
    };
    let chunks = str_split(content.as_str(), "<option");
    let ghost cv = split_on(content@, "<option"@).drop_first();
    let mut out: Vec<String> = Vec::new();
    let cn = chunks.len();
    let mut i: usize = 1;
    proof {
        assert(out@.map_values(|x: String| x@) =~= select_values(cv.take(0)));
    }
    while i < cn
        invariant
            cv == split_on(content@, "<option"@).drop_first(),
            cn == chunks@.len(),
            cn == cv.len() + 1,
            forall|k: int| 0 <= k < cn ==> (#[trigger] chunks@[k])@ == split_on(
                content@,
                "<option"@,
            )[k],
            1 <= i <= cn,
            out@.map_values(|x: String| x@) == select_values(cv.take(i - 1)),
        decreases cn - i,
    {
        proof {
            assert(cv.take(i as int).drop_last() =~= cv.take(i - 1));
            assert(cv.take(i as int).last() == cv[i - 1]);
            assert(cv[i - 1] == (chunks@[i as int])@);
        }
        let cand = parse_select_chunk(chunks[i].as_str());
        push_option(&mut out, cand);
        i += 1;
    }
    proof {
        assert(cv.take(cv.len() as int) =~= cv);
    }
    out
}

/// The option values after cleaning: each trimmed, blanks and the
/// "All" placeholder dropped, duplicates dropped.
pub open spec fn normalized_values(vals: Seq<Seq<char>>) -> Seq<Seq<char>>
    decreases vals.len(),
{
    if vals.len() == 0 {
        Seq::empty()
    } else {
        add_option(normalized_values(vals.drop_last()), trimmed(vals.last()))
    }
}

/// Cleans a listing of option values: trims each, drops blanks, the
/// "All" placeholder, and duplicates, keeping first occurrences in
/// order.
pub fn normalize_option_values(values: Vec<String>) -> (r: Vec<String>)
    ensures
        r@.map_values(|x: String| x@) == normalized_values(values@.map_values(|x: String| x@)),
{
    let ghost vv = values@.map_values(|x: String| x@);
    let mut out: Vec<String> = Vec::new();
    let n = values.len();
    let mut i: usize = 0;
    proof {
        assert(out@.map_values(|x: String| x@) =~= normalized_values(vv.take(0)));
    }
    while i < n
        invariant
            vv == values@.map_values(|x: String| x@),
            n == values@.len(),
            vv.len() == n,
            0 <= i <= n,
            out@.map_values(|x: String| x@) == normalized_values(vv.take(i as int)),
        decreases n - i,
    {
        proof {
            assert(vv.take(i + 1).drop_last() =~= vv.take(i as int));
            assert(vv.take(i + 1).last() == vv[i as int]);
            assert(vv[i as int] == (values@[i as int])@);
        }
        let t = trim_spaces(values[i].as_str());
        push_option(&mut out, t);
        i += 1;
    }
    proof {
        assert(vv.take(vv.len() as int) =~= vv);
    }
    out
}

/// The (sensor id, timestamp, value) triples of a batch of series:
/// one per series whose name carries a sensor id and whose data holds
/// at least one real point; a sensor repeated later wins on lookup.
pub open spec fn latest_of_series(
    series: Seq<(Seq<char>, Seq<(i64, Option<i64>)>)>,
) -> Seq<(Seq<char>, i64, i64)> {
    filter_map(
        series,
        |e: (Seq<char>, Seq<(i64, Option<i64>)>)|
            sensor_id_of_series_name(e.0) is Some && latest_valid(e.1) is Some,
        |e: (Seq<char>, Seq<(i64, Option<i64>)>)|
            (
                sensor_id_of_series_name(e.0).unwrap(),
                latest_valid(e.1).unwrap().0,
                latest_valid(e.1).unwrap().1,
            ),
    )
}

/// Predicate matching the series that yield a latest value.
pub open spec fn series_has_latest() -> spec_fn((Seq<char>, Seq<(i64, Option<i64>)>)) -> bool {
    |e: (Seq<char>, Seq<(i64, Option<i64>)>)|
        sensor_id_of_series_name(e.0) is Some && latest_valid(e.1) is Some
}

/// The triple of a series known to yield one.
pub open spec fn series_latest() -> spec_fn((Seq<char>, Seq<(i64, Option<i64>)>)) -> (
    Seq<char>,
    i64,
    i64,
) {
    |e: (Seq<char>, Seq<(i64, Option<i64>)>)|
        (
            sensor_id_of_series_name(e.0).unwrap(),
            latest_valid(e.1).unwrap().0,
            latest_valid(e.1).unwrap().1,
        )
}

/// Extracts, for each series, its sensor id and latest real point.
pub fn extract_latest_values(series: &Vec<(String, Vec<(i64, Option<i64>)>)>) -> (r: Vec<
    (String, i64, i64),
>)
    ensures
        r@.len() == filter_map(
            series@.map_values(
                |e: (String, Vec<(i64, Option<i64>)>)| (e.0@, e.1@),
            ),
            series_has_latest(),
            series_latest(),
        ).len(),
        forall|k: int|
            0 <= k < r@.len() ==> {
                let fm = filter_map(
                    series@.map_values(
                        |e: (String, Vec<(i64, Option<i64>)>)| (e.0@, e.1@),
                    ),
                    series_has_latest(),
                    series_latest(),
                );
                &&& (#[trigger] r@[k]).0@ == fm[k].0
                &&& r@[k].1 == fm[k].1
                &&& r@[k].2 == fm[k].2
            },
{
    let ghost sv = series@.map_values(|e: (String, Vec<(i64, Option<i64>)>)| (e.0@, e.1@));
    let mut out: Vec<(String, i64, i64)> = Vec::new();
    let n = series.len();
    let mut i: usize = 0;
    while i < n
        invariant
            sv == series@.map_values(|e: (String, Vec<(i64, Option<i64>)>)| (e.0@, e.1@)),
            n == series@.len(),
            sv.len() == n,
            0 <= i <= n,
            out@.len() == filter_map(sv.take(i as int), series_has_latest(), series_latest()).len(),
            forall|k: int|
                0 <= k < out@.len() ==> {
                    let fm = filter_map(sv.take(i as int), series_has_latest(), series_latest());
                    &&& (#[trigger] out@[k]).0@ == fm[k].0
                    &&& out@[k].1 == fm[k].1
                    &&& out@[k].2 == fm[k].2
                },
        decreases n - i,
    {
        proof {
            lemma_filter_map_take_step(sv, series_has_latest(), series_latest(), i as int);
            assert(sv[i as int] == ((series@[i as int]).0@, (series@[i as int]).1@));
        }
        let entry = &series[i];
        match extract_sensor_id_from_series_name(entry.0.as_str()) {
            Some(id) => {
                match latest_valid_point(&entry.1) {
                    Some(p) => {
                        out.push((id, p.0, p.1));
                    },
                    None => {},
                }
            },
            None => {},
        }
        i += 1;
    }
    proof {
        lemma_take_full(sv);
    }
    out
}

/// The form the menu page expects: the fixed session and query fields,
/// with the basin, province and municipality filters.
pub fn menu_form_params(bacino: &str, provincia: &str, comune: &str) -> (r: Vec<
    (&'static str, String),
>)
    ensures
        r@.len() == 8,
        r@[0].0@ == "sessid"@ && r@[0].1@ == "erfiume"@,
        r@[1].0@ == "TipoDato"@ && r@[1].1@ == "idrodata"@,
        r@[2].0@ == "TimeSeriesType"@ && r@[2].1@ == "0"@,
        r@[3].0@ == "Idrometri_query"@ && r@[3].1@ == "0"@,
        r@[4].0@ == "SelezionaBacino"@ && r@[4].1@ == bacino@,
        r@[5].0@ == "SelezionaProvincia"@ && r@[5].1@ == provincia@,
        r@[6].0@ == "SelezionaComune"@ && r@[6].1@ == comune@,
        r@[7].0@ == "submit_basin"@ && r@[7].1@ == "Seleziona"@,
{
    let mut out: Vec<(&'static str, String)> = Vec::new();
    out.push(("sessid", String::from_str("erfiume")));
    out.push(("TipoDato", String::from_str("idrodata")));
    out.push(("TimeSeriesType", String::from_str("0")));
    out.push(("Idrometri_query", String::from_str("0")));
    out.push(("SelezionaBacino", bacino.to_owned()));
    out.push(("SelezionaProvincia", provincia.to_owned()));
    out.push(("SelezionaComune", comune.to_owned()));
    out.push(("submit_basin", String::from_str("Seleziona")));
    out
}

/// The form the index page expects: the session field alone.
pub fn index_form_params() -> (r: Vec<(&'static str, String)>)
    ensures
        r@.len() == 1,
        r@[0].0@ == "sessid"@ && r@[0].1@ == "erfiume"@,
{
    let mut out: Vec<(&'static str, String)> = Vec::new();
    out.push(("sessid", String::from_str("erfiume")));
    out
}

/// The form the dropdown endpoint expects for one basin.
pub fn dropdown_form_params(bacino: &str) -> (r: Vec<(&'static str, String)>)
    ensures
        r@.len() == 8,
        r@[0].0@ == "sessid"@ && r@[0].1@ == "erfiume"@,
        r@[1].0@ == "subDir"@ && r@[1].1@ == "annaliidro2"@,
        r@[2].0@ == "Trigger"@ && r@[2].1@ == "SelezionaBacino_id"@,
        r@[3].0@ == "SelezionaBacino"@ && r@[3].1@ == bacino@,
        r@[4].0@ == "SelezionaProvincia"@ && r@[4].1@ == "All"@,
        r@[5].0@ == "SelezionaComune"@ && r@[5].1@ == "All"@,
        r@[6].0@ == "FlagSerieOmogenee"@ && r@[6].1@ == "0"@,
        r@[7].0@ == "FlagScalaDeflusso"@ && r@[7].1@ == "0"@,
{
    let mut out: Vec<(&'static str, String)> = Vec::new();
    out.push(("sessid", String::from_str("erfiume")));
    out.push(("subDir", String::from_str("annaliidro2")));
    out.push(("Trigger", String::from_str("SelezionaBacino_id")));
    out.push(("SelezionaBacino", bacino.to_owned()));
    out.push(("SelezionaProvincia", String::from_str("All")));
    out.push(("SelezionaComune", String::from_str("All")));
    out.push(("FlagSerieOmogenee", String::from_str("0")));
    out.push(("FlagScalaDeflusso", String::from_str("0")));
    out
}

} // verus!
