//! The two monitored regions: their configuration, the selection of one
//! by key or callback data, and the summary a fetch cycle reports.
use vstd::prelude::*;
use vstd::string::StrSliceExecFns;
use vstd::string::StringExecFns;

use crate::numeric::dec_digits;
use crate::parsing::trimmed;
use crate::text_util::{eq_ignore_case, str_eq_ignore_ascii_case, str_has_prefix};

verus! {

/// One region's configuration: its stable key, the label chats see,
/// and the name of its stations table.
pub struct RegionConfig {
    /// Stable key, as used in callback data and chat records.
    pub key: String,
    /// Human-readable label.
    pub label: String,
    /// Name of the region's stations table.
    pub table_name: String,
}

/// The configuration of both supported regions.
pub struct RegionsConfig {
    /// Emilia-Romagna.
    pub emilia_romagna: RegionConfig,
    /// Marche.
    pub marche: RegionConfig,
}

/// Picks the region a key names, compared without regard to ASCII
/// letter case; an unknown key picks nothing. Emilia-Romagna is
/// preferred when both keys would match.
pub fn region_from_key<'a>(regions: &'a RegionsConfig, key: &str) -> (r: Option<&'a RegionConfig>)
    ensures
        match r {
            Some(c) => (eq_ignore_case(key@, regions.emilia_romagna.key@) && *c
                == regions.emilia_romagna) || (!eq_ignore_case(key@, regions.emilia_romagna.key@)
                && eq_ignore_case(key@, regions.marche.key@) && *c == regions.marche),
            None => !eq_ignore_case(key@, regions.emilia_romagna.key@) && !eq_ignore_case(
                key@,
                regions.marche.key@,
            ),
        },
{
    if str_eq_ignore_ascii_case(key, regions.emilia_romagna.key.as_str()) {
        Some(&regions.emilia_romagna)
    } else if str_eq_ignore_ascii_case(key, regions.marche.key.as_str()) {
        Some(&regions.marche)
    } else {
        None
    }
}

/// The prefix that marks region-selection callback data.
pub open spec fn region_prefix() -> Seq<char> {
    "region:"@
}

/// Whether callback data carries the region prefix.
pub open spec fn has_region_prefix(data: Seq<char>) -> bool {
    region_prefix().len() <= data.len() && data.take(region_prefix().len() as int)
        == region_prefix()
}

/// The key carried by region-selection callback data.
pub open spec fn region_callback_key(data: Seq<char>) -> Seq<char> {
    data.skip(region_prefix().len() as int)
}

/// Reads region-selection callback data ("region:marche"): data without
/// the prefix picks nothing, data with it picks the region its key
/// names, as `region_from_key` does.
pub fn parse_region_callback_data<'a>(data: &str, regions: &'a RegionsConfig) -> (r: Option<
    &'a RegionConfig,
>)
    ensures
        match r {
            Some(c) => {
                let key = region_callback_key(data@);
                &&& has_region_prefix(data@)
                &&& (eq_ignore_case(key, regions.emilia_romagna.key@) && *c
                    == regions.emilia_romagna) || (!eq_ignore_case(
                    key,
                    regions.emilia_romagna.key@,
                ) && eq_ignore_case(key, regions.marche.key@) && *c == regions.marche)
            },
            None => !has_region_prefix(data@) || (!eq_ignore_case(
                region_callback_key(data@),
                regions.emilia_romagna.key@,
            ) && !eq_ignore_case(region_callback_key(data@), regions.marche.key@)),
        },
{
    let prefix = "region:";
    proof {
        reveal_strlit("region:");
    }
    if !str_has_prefix(data, prefix) {
        return None;
    }
    let plen = prefix.unicode_len();
    let dlen = data.unicode_len();
    let key = data.substring_char(plen, dlen);
    proof {
        assert(key@ =~= region_callback_key(data@));
    }
    region_from_key(regions, key)
}

/// The six configuration values the regions need, each as the
/// environment supplied it (or not).
pub struct RegionsConfigInput {
    /// Key of Emilia-Romagna.
    pub emilia_romagna_key: Option<String>,
    /// Label of Emilia-Romagna.
    pub emilia_romagna_label: Option<String>,
    /// Stations table of Emilia-Romagna.
    pub emilia_romagna_table: Option<String>,
    /// Key of Marche.
    pub marche_key: Option<String>,
    /// Label of Marche.
    pub marche_label: Option<String>,
    /// Stations table of Marche.
    pub marche_table: Option<String>,
}

/// Whether one supplied value counts as present: set, and not blank.
pub open spec fn config_value_ok(v: Option<String>) -> bool {
    v is Some && trimmed(v.unwrap()@).len() > 0
}

/// The missing-value report for one configuration name.
pub open spec fn missing_env_text(name: Seq<char>) -> Seq<char> {
    "Missing env var: "@ + name
}

/// Validates one configuration value: present values come back trimmed,
/// absent or blank ones name what is missing.
fn require_value(v: &Option<String>, name: &str) -> (r: Result<String, String>)
    ensures
        match r {
            Ok(s) => config_value_ok(*v) && s@ == trimmed(v.unwrap()@),
            Err(e) => !config_value_ok(*v) && e@ == missing_env_text(name@),
        },
{
    proof {
        reveal_strlit("Missing env var: ");
    }
    match v {
        Some(s) => {
            let t = crate::parsing::trim_spaces(s.as_str());
            if t.as_str().is_empty() {
                let mut e = String::from_str("Missing env var: ");
                e.append(name);
                Err(e)
            } else {
                Ok(t)
            }
        },
        None => {
            let mut e = String::from_str("Missing env var: ");
            e.append(name);
            Err(e)
        },
    }
}

/// Builds the two regions' configuration from the supplied values,
/// trimming each; the first missing or blank value is reported by name,
/// in the order key, label, table, Emilia-Romagna before Marche.
pub fn load_regions_config(input: &RegionsConfigInput) -> (r: Result<RegionsConfig, String>)
    ensures
        match r {
            Ok(c) => {
                &&& config_value_ok(input.emilia_romagna_key)
                &&& config_value_ok(input.emilia_romagna_label)
                &&& config_value_ok(input.emilia_romagna_table)
                &&& config_value_ok(input.marche_key)
                &&& config_value_ok(input.marche_label)
                &&& config_value_ok(input.marche_table)
                &&& c.emilia_romagna.key@ == trimmed(input.emilia_romagna_key.unwrap()@)
                &&& c.emilia_romagna.label@ == trimmed(input.emilia_romagna_label.unwrap()@)
                &&& c.emilia_romagna.table_name@ == trimmed(input.emilia_romagna_table.unwrap()@)
                &&& c.marche.key@ == trimmed(input.marche_key.unwrap()@)
                &&& c.marche.label@ == trimmed(input.marche_label.unwrap()@)
                &&& c.marche.table_name@ == trimmed(input.marche_table.unwrap()@)
            },
            Err(_) => !config_value_ok(input.emilia_romagna_key) || !config_value_ok(
                input.emilia_romagna_label,
            ) || !config_value_ok(input.emilia_romagna_table) || !config_value_ok(input.marche_key)
                || !config_value_ok(input.marche_label) || !config_value_ok(input.marche_table),
        },
{
    let key = match require_value(&input.emilia_romagna_key, "REGION_EMILIA_ROMAGNA_KEY") {
        Ok(v) => v,
        Err(e) => {
            return Err(e);
        },
    };
    let label = match require_value(&input.emilia_romagna_label, "REGION_EMILIA_ROMAGNA_LABEL") {
        Ok(v) => v,
        Err(e) => {
            return Err(e);
        },
    };
    let table = match require_value(
        &input.emilia_romagna_table,
        "EMILIA_ROMAGNA_STATIONS_TABLE_NAME",
    ) {
        Ok(v) => v,
        Err(e) => {
            return Err(e);
        },
    };
    let emilia_romagna = RegionConfig { key: key, label: label, table_name: table };
    let key = match require_value(&input.marche_key, "REGION_MARCHE_KEY") {
        Ok(v) => v,
        Err(e) => {
            return Err(e);
        },
    };
    let label = match require_value(&input.marche_label, "REGION_MARCHE_LABEL") {
        Ok(v) => v,
        Err(e) => {
            return Err(e);
        },
    };
    let table = match require_value(&input.marche_table, "MARCHE_STATIONS_TABLE_NAME") {
        Ok(v) => v,
        Err(e) => {
            return Err(e);
        },
    };
    let marche = RegionConfig { key: key, label: label, table_name: table };
    Ok(RegionsConfig { emilia_romagna: emilia_romagna, marche: marche })
}

/// The Emilia-Romagna region.
pub struct EmiliaRomagna;

/// The Marche region.
pub struct Marche;

/// The regions a fetch cycle can run over.
pub enum Regions {
    /// Emilia-Romagna.
    EmiliaRomagna(EmiliaRomagna),
    /// Marche.
    Marche(Marche),
}

impl Regions {
    /// The region's display name.
    pub fn name(&self) -> (r: &'static str)
        ensures
            match self {
                Regions::EmiliaRomagna(_) => r@ == "Emilia-Romagna"@,
                Regions::Marche(_) => r@ == "Marche"@,
            },
    {
        match self {
            Regions::EmiliaRomagna(_) => "Emilia-Romagna",
            Regions::Marche(_) => "Marche",
        }
    }
}

/// What one fetch cycle over a region reports.
pub struct RegionResult {
    /// Human-readable summary.
    pub message: String,
    /// How many stations the provider listed.
    pub stations_found: usize,
    /// How many were stored successfully.
    pub stations_updated: usize,
    /// How many failed; failures never abort the batch.
    pub errors: usize,
    /// 200 when every station succeeded, else 206 (partial success).
    pub status_code: i64,
}

/// The summary line of one cycle.
pub open spec fn region_summary_text(found: int, updated: int) -> Seq<char> {
    "Processed "@ + dec_digits(updated) + " of "@ + dec_digits(found) + " stations"@
}

/// Folds one cycle's outcome into its report: the counts, the summary
/// line, and a partial-success status when any station failed.
pub fn region_result(stations_found: usize, stations_updated: usize) -> (r: RegionResult)
    requires
        stations_updated <= stations_found,
    ensures
        r.stations_found == stations_found,
        r.stations_updated == stations_updated,
        r.errors == stations_found - stations_updated,
        r.status_code == if stations_updated < stations_found {
            206int
        } else {
            200int
        },
        r.message@ == region_summary_text(stations_found as int, stations_updated as int),
{
    proof {
        reveal_strlit("Processed ");
        reveal_strlit(" of ");
        reveal_strlit(" stations");
    }
    let mut message = String::from_str("Processed ");
    let u = crate::numeric::format_u64(stations_updated as u64);
    message.append(u.as_str());
    message.append(" of ");
    let f = crate::numeric::format_u64(stations_found as u64);
    message.append(f.as_str());
    message.append(" stations");
    proof {
        assert(message@ =~= region_summary_text(stations_found as int, stations_updated as int));
    }
    RegionResult {
        message: message,
        stations_found: stations_found,
        stations_updated: stations_updated,
        errors: stations_found - stations_updated,
        status_code: if stations_updated < stations_found {
            206
        } else {
            200
        },
    }
}

/// What the alert pipeline needs to run: the alerts table and the
/// messaging token.
pub struct AlertsConfig {
    /// Name of the alerts table.
    pub table_name: String,
    /// Messaging API token.
    pub telegram_token: String,
}

impl AlertsConfig {
    /// Accepts the configuration only when both values are non-empty.
    pub fn new(table_name: String, telegram_token: String) -> (r: Option<Self>)
        ensures
            match r {
                Some(c) => table_name@.len() > 0 && telegram_token@.len() > 0 && c.table_name
                    == table_name && c.telegram_token == telegram_token,
                None => table_name@.len() == 0 || telegram_token@.len() == 0,
            },
    {
        if table_name.as_str().is_empty() {
            return None;
        }
        if telegram_token.as_str().is_empty() {
            return None;
        }
        Some(AlertsConfig { table_name: table_name, telegram_token: telegram_token })
    }
}

} // verus!
