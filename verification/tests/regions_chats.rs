//! Region selection, the cycle summary, chat records, and the
//! chat-facing station report.
use erfiume::chats::{ChatRecord, ChatRegionLookupError, ChatsStore};
use erfiume::display::{format_station_list_entry, Station, StationListEntry};
use erfiume::regions::{
    load_regions_config, parse_region_callback_data, region_from_key, region_result, AlertsConfig,
    RegionConfig, Regions, RegionsConfig, RegionsConfigInput, EmiliaRomagna, Marche,
};
use erfiume::time::current_time_millis;
use erfiume::UNKNOWN_THRESHOLD;

fn sample_regions_config() -> RegionsConfig {
    RegionsConfig {
        emilia_romagna: RegionConfig {
            key: "emilia-romagna".to_string(),
            label: "Emilia-Romagna".to_string(),
            table_name: "EmiliaRomagna-Stations".to_string(),
        },
        marche: RegionConfig {
            key: "marche".to_string(),
            label: "Marche".to_string(),
            table_name: "Marche-Stations".to_string(),
        },
    }
}

#[test]
fn handlers_parse_region_callback_data_matches_known_regions() {
    let regions = sample_regions_config();
    assert!(
        parse_region_callback_data("region:emilia-romagna", &regions)
            .is_some_and(|region| region.key == "emilia-romagna")
    );
    assert!(
        parse_region_callback_data("region:marche", &regions)
            .is_some_and(|region| region.key == "marche")
    );
    assert!(parse_region_callback_data("region:unknown", &regions).is_none());
}

#[test]
fn regions_parse_region_callback_data_matches_known_regions() {
    let regions = sample_regions_config();
    assert!(
        parse_region_callback_data("region:emilia-romagna", &regions)
            .is_some_and(|region| region.key == "emilia-romagna")
    );
    assert!(
        parse_region_callback_data("region:marche", &regions)
            .is_some_and(|region| region.key == "marche")
    );
    assert!(parse_region_callback_data("region:unknown", &regions).is_none());
}

#[test]
fn handlers_region_from_key_matches_and_unknown_returns_none() {
    let regions = sample_regions_config();
    assert!(
        region_from_key(&regions, "emilia-romagna")
            .is_some_and(|region| region.key == "emilia-romagna")
    );
    assert!(region_from_key(&regions, "Marche").is_some_and(|region| region.key == "marche"));
    assert!(region_from_key(&regions, "unknown").is_none());
}

#[test]
fn regions_region_from_key_matches_and_unknown_returns_none() {
    let regions = sample_regions_config();
    assert!(
        region_from_key(&regions, "emilia-romagna")
            .is_some_and(|region| region.key == "emilia-romagna")
    );
    assert!(region_from_key(&regions, "Marche").is_some_and(|region| region.key == "marche"));
    assert!(region_from_key(&regions, "unknown").is_none());
}

#[test]
fn region_callback_data_needs_the_prefix() {
    let regions = sample_regions_config();
    assert!(parse_region_callback_data("marche", &regions).is_none());
}

#[test]
fn load_regions_config_names_the_first_missing_value() {
    let input = RegionsConfigInput {
        emilia_romagna_key: Some("emilia-romagna".to_string()),
        emilia_romagna_label: Some(" Emilia-Romagna ".to_string()),
        emilia_romagna_table: Some("EmiliaRomagna-Stations".to_string()),
        marche_key: Some("marche".to_string()),
        marche_label: Some("Marche".to_string()),
        marche_table: Some("Marche-Stations".to_string()),
    };
    let config = load_regions_config(&input).expect("config should load");
    assert_eq!(config.emilia_romagna.label, "Emilia-Romagna");
    assert_eq!(config.marche.table_name, "Marche-Stations");

    let missing = RegionsConfigInput { marche_table: None, ..input };
    match load_regions_config(&missing) {
        Err(e) => assert_eq!(e, "Missing env var: MARCHE_STATIONS_TABLE_NAME"),
        Ok(_) => panic!("missing table accepted"),
    }
    let blank = RegionsConfigInput {
        emilia_romagna_key: Some("  ".to_string()),
        ..load_input()
    };
    match load_regions_config(&blank) {
        Err(e) => assert_eq!(e, "Missing env var: REGION_EMILIA_ROMAGNA_KEY"),
        Ok(_) => panic!("blank key accepted"),
    }
}

fn load_input() -> RegionsConfigInput {
    RegionsConfigInput {
        emilia_romagna_key: Some("emilia-romagna".to_string()),
        emilia_romagna_label: Some("Emilia-Romagna".to_string()),
        emilia_romagna_table: Some("EmiliaRomagna-Stations".to_string()),
        marche_key: Some("marche".to_string()),
        marche_label: Some("Marche".to_string()),
        marche_table: Some("Marche-Stations".to_string()),
    }
}

#[test]
fn region_result_reports_partial_success() {
    let partial = region_result(5, 3);
    assert_eq!(partial.message, "Processed 3 of 5 stations");
    assert_eq!(partial.stations_found, 5);
    assert_eq!(partial.stations_updated, 3);
    assert_eq!(partial.errors, 2);
    assert_eq!(partial.status_code, 206);

    let full = region_result(4, 4);
    assert_eq!(full.errors, 0);
    assert_eq!(full.status_code, 200);
}

#[test]
fn region_names_are_fixed() {
    assert_eq!(Regions::EmiliaRomagna(EmiliaRomagna).name(), "Emilia-Romagna");
    assert_eq!(Regions::Marche(Marche).name(), "Marche");
}

#[test]
fn alerts_config_requires_both_values() {
    assert!(AlertsConfig::new("Alerts".to_string(), "token123".to_string()).is_some());
    assert!(AlertsConfig::new(String::new(), "token123".to_string()).is_none());
    assert!(AlertsConfig::new("Alerts".to_string(), String::new()).is_none());
}

fn chat(chat_id: i64, region: Option<&str>) -> ChatRecord {
    ChatRecord {
        chat_id,
        chat_type: "private".to_string(),
        username: Some("user".to_string()),
        first_name: None,
        last_name: Some(String::new()),
        title: None,
        region: region.map(|r| r.to_string()),
        created_at: 1000,
    }
}

#[test]
fn chat_presence_is_written_once() {
    let mut chats = ChatsStore::new();
    assert!(chats.insert_chat_if_missing(&chat(7, None)));
    assert!(!chats.insert_chat_if_missing(&chat(7, Some("marche"))));
    assert_eq!(chats.get_chat_region(7), None);
}

#[test]
fn chat_region_is_set_and_read_back() {
    let mut chats = ChatsStore::new();
    chats.insert_chat_if_missing(&chat(7, None));
    assert!(chats.upsert_chat_region(&chat(7, None), &"marche".to_string()).is_ok());
    assert_eq!(chats.get_chat_region(7), Some("marche".to_string()));
    assert!(chats.upsert_chat_region(&chat(7, None), &"  ".to_string()).is_err());
    assert_eq!(chats.get_chat_region(7), Some("marche".to_string()));
    assert!(chats.upsert_chat_region(&chat(8, None), &"emilia-romagna".to_string()).is_ok());
    assert_eq!(chats.get_chat_region(8), Some("emilia-romagna".to_string()));
}

#[test]
fn chat_region_lookup_errors_have_user_messages() {
    assert_eq!(
        ChatRegionLookupError::MissingChatsTable.user_message(),
        "Configurazione non disponibile. Riprova piu tardi."
    );
    assert_eq!(
        ChatRegionLookupError::LookupFailed("boom".to_string()).user_message(),
        "Errore nel recupero della regione. Riprova piu tardi."
    );
}

#[test]
fn current_time_millis_reads_a_modern_clock() {
    let now = current_time_millis();
    assert!(now > 1_600_000_000_000);
}

fn display_station(value: i64, soglia1: i64, soglia2: i64, soglia3: i64) -> Station {
    Station {
        timestamp: 1729454542656,
        idstazione: "/id/".to_string(),
        ordinamento: 1,
        nomestaz: "Cesena".to_string(),
        lon: "lon".to_string(),
        lat: "lat".to_string(),
        soglia1,
        soglia2,
        soglia3,
        bacino: None,
        value,
    }
}

#[test]
fn create_station_message_with_unknown_value() {
    let station = display_station(UNKNOWN_THRESHOLD, 100, 200, 300);
    let expected = "Stazione: Cesena\nValore: non disponibile \nSoglia Gialla: 1.00\nSoglia Arancione: 2.00\nSoglia Rossa: 3.00\nUltimo rilevamento: 20-10-2024 22:02".to_string();
    assert_eq!(station.create_station_message(), expected);
}

#[test]
fn create_station_message() {
    let station = display_station(220, 100, 200, 300);
    let expected = "Stazione: Cesena\nValore: 2.20 \u{1f7e0}\nSoglia Gialla: 1.00\nSoglia Arancione: 2.00\nSoglia Rossa: 3.00\nUltimo rilevamento: 20-10-2024 22:02".to_string();
    assert_eq!(station.create_station_message(), expected);
}

#[test]
fn create_station_message_with_unknown_thresholds() {
    let station = display_station(120, UNKNOWN_THRESHOLD, UNKNOWN_THRESHOLD, UNKNOWN_THRESHOLD);
    let expected =
        "Stazione: Cesena\nValore: 1.20 \nUltimo rilevamento: 20-10-2024 22:02".to_string();
    assert_eq!(station.create_station_message(), expected);
}

#[test]
fn create_station_message_inserts_the_basin_line() {
    let mut station = display_station(220, 100, 200, 300);
    station.bacino = Some("SAVIO".to_string());
    let message = station.create_station_message();
    assert!(message.starts_with("Stazione: Cesena\nBacino: SAVIO\nValore: 2.20"));
}

#[test]
fn station_list_entry_appends_the_basin() {
    let plain = StationListEntry { nomestaz: "Cesena".to_string(), bacino: None };
    assert_eq!(format_station_list_entry(&plain), "Cesena");
    let with_basin = StationListEntry {
        nomestaz: "Cesena".to_string(),
        bacino: Some("SAVIO".to_string()),
    };
    assert_eq!(format_station_list_entry(&with_basin), "Cesena - Bacino: SAVIO");
}
