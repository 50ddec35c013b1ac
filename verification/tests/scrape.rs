//! The provider-facing parsers: dropdown HTML, series names, min/max
//! CSV, chart metadata, and the JSON dropdown reader.
use erfiume::json::{
    extract_dropdown_values, extract_json_object, find_value_for_key, parse_grafico_metadata,
    JsonValue,
};
use erfiume::marche::{
    dropdown_form_params, extract_latest_values, extract_sensor_id_from_series_name,
    extract_station_name, index_form_params, latest_valid_point, menu_form_params, minmax_lookup,
    normalize_option_values, parse_minmax_response, parse_select_options, parse_station_options,
};

#[test]
fn parse_station_options_extracts_ids_and_names() {
    let html = r#"
        <select id="SelezionaStazione_id" name="SelezionaStazione[]" multiple="multiple">
        <option value="1040">Abbadia di Fiastra (RT-1040) Dati da 2000-07-07 a 2025-12-29</option>
        <option value="1185">Acqualagna (RT-1185) Dati da 2003-06-06 a 2025-12-29</option>
        </select>
        "#;
    let parsed = parse_station_options(html);
    assert_eq!(parsed.len(), 2);
    assert_eq!(parsed[0].id_raw, "1040");
    assert_eq!(parsed[0].id_rt, "RT-1040");
    assert_eq!(parsed[0].name, "Abbadia di Fiastra");
}

#[test]
fn extract_station_name_fallbacks() {
    assert_eq!(extract_station_name("Foo (RT-123) Dati da 2000-01-01"), "Foo");
    assert_eq!(extract_station_name("Bar Dati da 2000-01-01"), "Bar");
    assert_eq!(extract_station_name("Baz"), "Baz");
}

#[test]
fn extract_sensor_id_from_series_name_parses_id() {
    assert_eq!(
        extract_sensor_id_from_series_name("Abbadia di Fiastra (sensore 1040)"),
        Some("1040".to_string())
    );
    assert_eq!(extract_sensor_id_from_series_name("no marker here"), None);
}

#[test]
fn latest_valid_point_skips_nulls() {
    let data = vec![(1, Some(10)), (2, None), (3, Some(20))];
    assert_eq!(latest_valid_point(&data), Some((3, 20)));
    let all_null: Vec<(i64, Option<i64>)> = vec![(1, None)];
    assert_eq!(latest_valid_point(&all_null), None);
}

#[test]
fn extract_latest_values_pairs_sensors_with_points() {
    let series = vec![
        ("Foo (sensore 123)".to_string(), vec![(1, Some(10)), (2, None), (3, Some(20))]),
        ("no marker".to_string(), vec![(1, Some(10))]),
        ("Bar (sensore 9)".to_string(), vec![(1, None)]),
    ];
    let latest = extract_latest_values(&series);
    assert_eq!(latest.len(), 1);
    assert_eq!(latest[0].0, "123");
    assert_eq!(latest[0].1, 3);
    assert_eq!(latest[0].2, 20);
}

#[test]
fn parse_minmax_response_extracts_max_values() {
    let payload = "\
Codice sensore, Data min: Anno, Mese, Giorno, Ora, Minuto, Livello idrometrico min [m], Livello idrometrico interpolato [0/1], Portata minima [m3 s-1], Data max: Anno, Mese, Giorno, Ora, Minuto, Livello idrometrico max [m], Livello idrometrico interpolato [0/1], Portata massima [m3 s-1], Num. valori, Quality level [%], Codice stazione, Scala deflusso ufficiale [0/1]\n\
1040, 2025, 12, 16, 9, 0, 0.12, 0, -9999.00, 2025, 12, 12, 8, 0, 0.16, 0, -9999.00, 736, 50.3, 11, -9999\n\
1185, 2025, 12, 11, 7, 30, -0.25, 0, -9999.00, 2025, 12, 1, 3, 0, -9999.00, 0, -9999.00, 861, 58.9, 106, -9999\n";
    let parsed = parse_minmax_response(payload);
    assert_eq!(minmax_lookup(&parsed, "1040"), Some(16));
    assert_eq!(minmax_lookup(&parsed, "1185"), None);
}

#[test]
fn parse_select_options_reads_values() {
    let html = r#"
        <select name="SelezionaBacino" id="SelezionaBacino_id">
          <option value="All">Tutti</option>
          <option value="Misa">Misa</option>
          <option value="Esino">Esino</option>
        </select>
        "#;
    let options = parse_select_options(html, "SelezionaBacino");
    assert_eq!(options, vec!["Misa".to_string(), "Esino".to_string()]);
}

#[test]
fn normalize_option_values_trims_and_dedups() {
    let values = vec![
        " Misa ".to_string(),
        "".to_string(),
        "ALL".to_string(),
        "Misa".to_string(),
        "Esino".to_string(),
    ];
    let cleaned = normalize_option_values(values);
    assert_eq!(cleaned, vec!["Misa".to_string(), "Esino".to_string()]);
}

#[test]
fn extract_json_object_matches_braces() {
    assert_eq!(
        extract_json_object("var data = {\"a\": {\"b\": 1}, \"c\": 2}; rest"),
        Some("{\"a\": {\"b\": 1}, \"c\": 2}".to_string())
    );
    assert_eq!(extract_json_object("no braces"), None);
    assert_eq!(extract_json_object("open only {"), None);
}

#[test]
fn parse_grafico_metadata_extracts_bacino() {
    let html = r#"
        <script type="text/javascript">
        var  data = {"unit":"M","namebasin":"SAVIO","name":"Cesena","description":"Livello idrometrico","namesubbasin":"SAVIO","soglia1":4.0,"soglia2":5.5,"soglia3":7.8,"height":31.0};
        </script>
        "#;
    let bacino = parse_grafico_metadata(html).expect("expected metadata");
    assert_eq!(bacino, "SAVIO");
}

#[test]
fn parse_grafico_metadata_falls_back_to_subbasin() {
    let html = r#"var data = {"namesubbasin":"MISA"};"#;
    assert_eq!(parse_grafico_metadata(html), Some("MISA".to_string()));
    assert_eq!(parse_grafico_metadata("nothing here"), None);
}

#[test]
fn find_value_for_key_searches_depth_first() {
    let tree = JsonValue::Obj(vec![
        ("outer".to_string(), JsonValue::Arr(vec![JsonValue::Obj(vec![(
            "SelezionaProvincia".to_string(),
            JsonValue::Arr(vec![
                JsonValue::Obj(vec![("value".to_string(), JsonValue::Str("Ancona".to_string()))]),
                JsonValue::Str("Pesaro".to_string()),
            ]),
        )])])),
    ]);
    assert!(find_value_for_key(&tree, "SelezionaProvincia").is_some());
    assert!(find_value_for_key(&tree, "SelezionaComune").is_none());
    let values = extract_dropdown_values(&tree, "SelezionaProvincia");
    assert_eq!(values, vec!["Ancona".to_string(), "Pesaro".to_string()]);
}

#[test]
fn form_params_carry_the_filters() {
    let menu = menu_form_params("Misa", "All", "All");
    assert_eq!(menu.len(), 8);
    assert_eq!(menu[0], ("sessid", "erfiume".to_string()));
    assert_eq!(menu[4], ("SelezionaBacino", "Misa".to_string()));
    let index = index_form_params();
    assert_eq!(index, vec![("sessid", "erfiume".to_string())]);
    let dropdown = dropdown_form_params("Misa");
    assert_eq!(dropdown.len(), 8);
    assert_eq!(dropdown[3], ("SelezionaBacino", "Misa".to_string()));
}
