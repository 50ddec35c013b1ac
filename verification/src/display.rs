//! The chat-facing view of one station and the messages built from it.
use vstd::prelude::*;
use vstd::string::StringExecFns;

use crate::format::station_message_tail;
use crate::stations::StationRecord;
use crate::UNKNOWN_THRESHOLD;

verus! {

/// One station as a chat sees it: the stored record flattened, with a
/// missing reading already turned into the unknown sentinel.
pub struct Station {
    /// Epoch milliseconds of the latest reading.
    pub timestamp: i64,
    /// Opaque external station identifier.
    pub idstazione: String,
    /// Display ordering.
    pub ordinamento: i32,
    /// Station name.
    pub nomestaz: String,
    /// Longitude.
    pub lon: String,
    /// Latitude.
    pub lat: String,
    /// Yellow threshold level, fixed-point hundredths.
    pub soglia1: i64,
    /// Orange threshold level, fixed-point hundredths.
    pub soglia2: i64,
    /// Red threshold level, fixed-point hundredths.
    pub soglia3: i64,
    /// Basin name, when known.
    pub bacino: Option<String>,
    /// The latest reading, or the unknown sentinel.
    pub value: i64,
}

/// The message a station renders as: the report, with a basin line
/// right below the station line when a basin is known.
pub open spec fn station_view_message(st: Station) -> Seq<char> {
    let bacino_line = match st.bacino {
        Some(b) => if b@.len() > 0 {
            "Bacino: "@ + b@ + "\n"@
        } else {
            Seq::<char>::empty()
        },
        None => Seq::<char>::empty(),
    };
    "Stazione: "@ + st.nomestaz@ + "\n"@ + bacino_line + station_message_tail(
        Some(st.value),
        st.soglia1,
        st.soglia2,
        st.soglia3,
        Some(st.timestamp),
    )
}

impl Station {
    /// Renders the report for this station, metadata line included.
    pub fn create_station_message(&self) -> (r: String)
        ensures
            r@ == station_view_message(*self),
    {
        proof {
            reveal_strlit("Stazione: ");
            reveal_strlit("Bacino: ");
            reveal_strlit("\n");
        }
        let mut s = String::from_str("Stazione: ");
        s.append(self.nomestaz.as_str());
        s.append("\n");
        match &self.bacino {
            Some(b) => {
                if !b.as_str().is_empty() {
                    s.append("Bacino: ");
                    s.append(b.as_str());
                    s.append("\n");
                }
            },
            None => {},
        }
        let tail = crate::format::render_station_tail(
            Some(self.value),
            self.soglia1,
            self.soglia2,
            self.soglia3,
            Some(self.timestamp),
        );
        s.append(tail.as_str());
        proof {
            assert(s@ =~= station_view_message(*self));
        }
        s
    }
}

/// One row of the stations listing.
pub struct StationListEntry {
    /// Station name.
    pub nomestaz: String,
    /// Basin name, when known.
    pub bacino: Option<String>,
}

/// The listing line of one station: its name, with the basin appended
/// when one is known.
pub open spec fn station_list_entry_text(e: StationListEntry) -> Seq<char> {
    match e.bacino {
        Some(b) => if b@.len() > 0 {
            e.nomestaz@ + " - Bacino: "@ + b@
        } else {
            e.nomestaz@
        },
        None => e.nomestaz@,
    }
}

/// Renders one line of the stations listing.
pub fn format_station_list_entry(entry: &StationListEntry) -> (r: String)
    ensures
        r@ == station_list_entry_text(*entry),
{
    proof {
        reveal_strlit(" - Bacino: ");
    }
    let mut s = entry.nomestaz.clone();
    match &entry.bacino {
        Some(b) => {
            if !b.as_str().is_empty() {
                s.append(" - Bacino: ");
                s.append(b.as_str());
            }
        },
        None => {},
    }
    s
}

/// The chat-facing view of a stored record: a missing reading becomes
/// the unknown sentinel.
pub open spec fn station_of_record(rec: StationRecord) -> Station {
    Station {
        timestamp: rec.timestamp,
        idstazione: rec.idstazione,
        ordinamento: rec.ordinamento,
        nomestaz: rec.nomestaz,
        lon: rec.lon,
        lat: rec.lat,
        soglia1: rec.soglia1,
        soglia2: rec.soglia2,
        soglia3: rec.soglia3,
        bacino: rec.bacino,
        value: match rec.value {
            Some(v) => v,
            None => UNKNOWN_THRESHOLD,
        },
    }
}

/// Flattens a stored record into the chat-facing view.
pub fn record_to_station(record: &StationRecord) -> (r: Station)
    ensures
        r == station_of_record(*record),
{
    Station {
        timestamp: record.timestamp,
        idstazione: record.idstazione.clone(),
        ordinamento: record.ordinamento,
        nomestaz: record.nomestaz.clone(),
        lon: record.lon.clone(),
        lat: record.lat.clone(),
        soglia1: record.soglia1,
        soglia2: record.soglia2,
        soglia3: record.soglia3,
        bacino: match &record.bacino {
            Some(b) => Some(b.clone()),
            None => None,
        },
        value: match record.value {
            Some(v) => v,
            None => UNKNOWN_THRESHOLD,
        },
    }
}

} // verus!
