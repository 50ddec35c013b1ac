//! The observation ingestion protocol over the station store.
use erfiume::display::record_to_station;
use erfiume::stations::{StationRecord, StationsStore};
use erfiume::UNKNOWN_THRESHOLD;

fn observation(name: &str, timestamp: i64, value: Option<i64>) -> StationRecord {
    StationRecord {
        timestamp,
        idstazione: "id".to_string(),
        ordinamento: 1,
        nomestaz: name.to_string(),
        lon: "10.0".to_string(),
        lat: "20.0".to_string(),
        soglia1: 100,
        soglia2: 200,
        soglia3: 300,
        bacino: None,
        provincia: None,
        comune: None,
        value,
    }
}

#[test]
fn station_record_roundtrip_fields() {
    let record = observation("Cesena", 123, Some(120));
    assert_eq!(record.nomestaz, "Cesena");
    assert_eq!(record.value, Some(120));
}

#[test]
fn monotonic_timestamp_ignores_stale_writes() {
    let mut store = StationsStore::new();
    let mut first = observation("Cesena", 100, Some(100));
    first.lon = "first".to_string();
    store.persist_observation(&first);
    let mut second = observation("Cesena", 50, Some(990));
    second.lon = "second".to_string();
    store.persist_observation(&second);
    let stored = store.get_station_record("Cesena").unwrap();
    assert_eq!(stored.timestamp, 100);
    assert_eq!(stored.value, Some(100));
    assert_eq!(stored.lon, "first");
}

#[test]
fn monotonic_timestamp_takes_newer_writes() {
    let mut store = StationsStore::new();
    store.persist_observation(&observation("Cesena", 100, Some(100)));
    store.persist_observation(&observation("Cesena", 150, Some(130)));
    store.persist_observation(&observation("Cesena", 120, Some(990)));
    let stored = store.get_station_record("Cesena").unwrap();
    assert_eq!(stored.timestamp, 150);
    assert_eq!(stored.value, Some(130));
}

#[test]
fn write_once_keeps_the_first_longitude() {
    let mut store = StationsStore::new();
    let mut first = observation("Cesena", 100, None);
    first.lon = "11.1".to_string();
    store.persist_observation(&first);
    let mut second = observation("Cesena", 200, None);
    second.lon = "22.2".to_string();
    store.persist_observation(&second);
    let stored = store.get_station_record("Cesena").unwrap();
    assert_eq!(stored.lon, "11.1");
    assert_eq!(stored.timestamp, 200);
}

#[test]
fn threshold_high_upgrades_exactly_once() {
    let mut store = StationsStore::new();
    let mut first = observation("Cesena", 100, None);
    first.soglia3 = UNKNOWN_THRESHOLD;
    store.persist_observation(&first);
    assert_eq!(store.get_station_record("Cesena").unwrap().soglia3, UNKNOWN_THRESHOLD);

    let mut second = observation("Cesena", 200, None);
    second.soglia3 = 750;
    store.persist_observation(&second);
    assert_eq!(store.get_station_record("Cesena").unwrap().soglia3, 750);

    let mut third = observation("Cesena", 300, None);
    third.soglia3 = 900;
    store.persist_observation(&third);
    assert_eq!(store.get_station_record("Cesena").unwrap().soglia3, 750);
}

#[test]
fn metadata_fills_in_when_absent_and_never_moves() {
    let mut store = StationsStore::new();
    store.persist_observation(&observation("Cesena", 100, None));
    assert_eq!(store.get_station_record("Cesena").unwrap().bacino, None);

    let mut second = observation("Cesena", 200, None);
    second.bacino = Some("SAVIO".to_string());
    store.persist_observation(&second);
    assert_eq!(store.get_station_record("Cesena").unwrap().bacino, Some("SAVIO".to_string()));

    let mut third = observation("Cesena", 300, None);
    third.bacino = Some("ALTRO".to_string());
    store.persist_observation(&third);
    assert_eq!(store.get_station_record("Cesena").unwrap().bacino, Some("SAVIO".to_string()));
}

#[test]
fn empty_metadata_counts_as_absent() {
    let mut store = StationsStore::new();
    let mut first = observation("Cesena", 100, None);
    first.bacino = Some(String::new());
    store.persist_observation(&first);
    assert_eq!(store.get_station_record("Cesena").unwrap().bacino, None);
}

#[test]
fn stations_are_independent() {
    let mut store = StationsStore::new();
    store.persist_observation(&observation("Cesena", 100, Some(100)));
    store.persist_observation(&observation("Borello", 500, Some(300)));
    store.persist_observation(&observation("Cesena", 50, Some(990)));
    assert_eq!(store.get_station_record("Cesena").unwrap().timestamp, 100);
    assert_eq!(store.get_station_record("Borello").unwrap().timestamp, 500);
    assert!(store.get_station_record("Altro").is_none());
    let names = store.list_stations();
    assert_eq!(names, vec!["Cesena".to_string(), "Borello".to_string()]);
}

#[test]
fn record_to_station_uses_unknown_value_on_missing() {
    let record = observation("Cesena", 1, None);
    let station = record_to_station(&record);
    assert_eq!(station.value, UNKNOWN_THRESHOLD);
}
