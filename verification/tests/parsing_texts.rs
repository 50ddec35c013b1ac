//! The argument parsers and the texts built for chats.
use erfiume::alerts::AlertEntry;
use erfiume::commands::{command_name, format_lista_avvisi, parse_position, Command};
use erfiume::format::{
    escape_markdown_v2, format_alert_status, format_duration_millis, format_station_message,
    format_threshold,
};
use erfiume::numeric::{format_level, format_level_plain, format_u64, parse_level};
use erfiume::parsing::{parse_station_arg, parse_station_threshold_args, trim_spaces};
use erfiume::UNKNOWN_THRESHOLD;

#[test]
fn handlers_parse_station_arg_rejects_blank() {
    assert_eq!(parse_station_arg("   ".to_string()), None);
}

#[test]
fn parsing_parse_station_arg_rejects_blank() {
    assert_eq!(parse_station_arg("   ".to_string()), None);
}

#[test]
fn parse_station_arg_trims_the_name() {
    assert_eq!(parse_station_arg("  Cesena ".to_string()), Some("Cesena".to_string()));
}

#[test]
fn parsing_parse_station_threshold_args_parses_station_and_threshold() {
    let parsed = parse_station_threshold_args("S. Carlo 2,5".to_string());
    assert_eq!(parsed, Some(("S. Carlo".to_string(), 250)));
}

#[test]
fn parsing_parse_station_threshold_args_rejects_missing_threshold() {
    assert_eq!(parse_station_threshold_args("Cesena".to_string()), None);
}

#[test]
fn handlers_parse_station_threshold_args_parses_station_and_threshold() {
    let parsed = parse_station_threshold_args("S. Carlo 2,5".to_string());
    assert_eq!(parsed, Some(("S. Carlo".to_string(), 250)));
}

#[test]
fn handlers_parse_station_threshold_args_rejects_missing_threshold() {
    assert_eq!(parse_station_threshold_args("Cesena".to_string()), None);
}

#[test]
fn parse_level_reads_both_separators_and_signs() {
    assert_eq!(parse_level("2,5"), Some(250));
    assert_eq!(parse_level("2.5"), Some(250));
    assert_eq!(parse_level("-0.25"), Some(-25));
    assert_eq!(parse_level("2."), Some(200));
    assert_eq!(parse_level(".5"), Some(50));
    assert_eq!(parse_level("7"), Some(700));
    assert_eq!(parse_level("abc"), None);
    assert_eq!(parse_level(""), None);
    assert_eq!(parse_level("1.2.3"), None);
    assert_eq!(parse_level("-9999.00"), Some(UNKNOWN_THRESHOLD));
}

#[test]
fn format_level_renders_two_decimals() {
    assert_eq!(format_level(220), "2.20");
    assert_eq!(format_level(-25), "-0.25");
    assert_eq!(format_level(0), "0.00");
    assert_eq!(format_level(100), "1.00");
}

#[test]
fn format_level_plain_drops_trailing_zeros() {
    assert_eq!(format_level_plain(250), "2.5");
    assert_eq!(format_level_plain(100), "1");
    assert_eq!(format_level_plain(225), "2.25");
}

#[test]
fn format_u64_renders_decimal() {
    assert_eq!(format_u64(0), "0");
    assert_eq!(format_u64(105), "105");
}

#[test]
fn trim_spaces_strips_both_ends() {
    assert_eq!(trim_spaces("  a b \t"), "a b");
    assert_eq!(trim_spaces("   "), "");
}

#[test]
fn handlers_format_duration_millis_prefers_hours_and_minutes() {
    assert_eq!(format_duration_millis(3_600_000), "1h 0m");
    assert_eq!(format_duration_millis(60_000), "1m");
    assert_eq!(format_duration_millis(500), "1s");
}

#[test]
fn utils_format_duration_millis_prefers_hours_and_minutes() {
    assert_eq!(format_duration_millis(3_600_000), "1h 0m");
    assert_eq!(format_duration_millis(60_000), "1m");
    assert_eq!(format_duration_millis(500), "1s");
}

#[test]
fn handlers_format_alert_status_active() {
    let alert = AlertEntry {
        station_name: "Cesena".to_string(),
        threshold: 100,
        active: 1,
        triggered_at: None,
        triggered_value: None,
    };
    assert_eq!(format_alert_status(&alert, 0), "attivo");
}

#[test]
fn utils_format_alert_status_active() {
    let alert = AlertEntry {
        station_name: "Cesena".to_string(),
        threshold: 100,
        active: 1,
        triggered_at: None,
        triggered_value: None,
    };
    assert_eq!(format_alert_status(&alert, 0), "attivo");
}

#[test]
fn handlers_format_alert_status_triggered_imminent() {
    let alert = AlertEntry {
        station_name: "Cesena".to_string(),
        threshold: 100,
        active: 0,
        triggered_at: Some(0),
        triggered_value: Some(250),
    };
    let status = format_alert_status(&alert, 24 * 60 * 60 * 1000);
    assert_eq!(status, "in pausa (soglia superata: 2.5), ripristino imminente");
}

#[test]
fn utils_format_alert_status_triggered_imminent() {
    let alert = AlertEntry {
        station_name: "Cesena".to_string(),
        threshold: 100,
        active: 0,
        triggered_at: Some(0),
        triggered_value: Some(250),
    };
    let status = format_alert_status(&alert, 24 * 60 * 60 * 1000);
    assert_eq!(status, "in pausa (soglia superata: 2.5), ripristino imminente");
}

#[test]
fn format_alert_status_triggered_counts_down() {
    let alert = AlertEntry {
        station_name: "Cesena".to_string(),
        threshold: 100,
        active: 0,
        triggered_at: Some(0),
        triggered_value: Some(250),
    };
    let status = format_alert_status(&alert, 23 * 60 * 60 * 1000);
    assert_eq!(status, "in pausa (soglia superata: 2.5), ripristino tra 1h 0m");
}

#[test]
fn escape_markdown_v2_escapes_every_special() {
    assert_eq!(escape_markdown_v2("a.b!"), "a\\.b\\!");
    assert_eq!(escape_markdown_v2("\\"), "\\\\");
    assert_eq!(escape_markdown_v2("piano (A)"), "piano \\(A\\)");
    assert_eq!(escape_markdown_v2("abc"), "abc");
}

#[test]
fn format_station_message_matches_bot_format() {
    let message = format_station_message("Cesena", Some(220), 100, 200, 300, Some(1766848325000));
    let expected = "Stazione: Cesena\nValore: 2.20 \u{1f7e0}\nSoglia Gialla: 1.00\nSoglia Arancione: 2.00\nSoglia Rossa: 3.00\nUltimo rilevamento: 27-12-2025 16:12";
    assert_eq!(message, expected);
}

#[test]
fn format_threshold_says_when_unknown() {
    assert_eq!(format_threshold(UNKNOWN_THRESHOLD), "non disponibile");
    assert_eq!(format_threshold(150), "1.50");
}

#[test]
fn command_name_names_every_command() {
    assert_eq!(command_name(&Command::Help), "help");
    assert_eq!(command_name(&Command::Avvisami("x".to_string())), "avvisami");
    assert_eq!(command_name(&Command::RimuoviAvviso("1".to_string())), "rimuovi_avviso");
    assert_eq!(command_name(&Command::CambiaRegione), "cambia_regione");
}

#[test]
fn format_lista_avvisi_numbers_the_entries() {
    let entries = vec![
        AlertEntry {
            station_name: "Cesena".to_string(),
            threshold: 250,
            active: 1,
            triggered_at: None,
            triggered_value: None,
        },
    ];
    assert_eq!(format_lista_avvisi(&entries, 0), "I tuoi avvisi:\n1. Cesena - 2.5 (attivo)");
    let empty: Vec<AlertEntry> = Vec::new();
    assert_eq!(format_lista_avvisi(&empty, 0), "Non hai avvisi attivi.");
}

#[test]
fn parse_position_reads_digits_only() {
    assert_eq!(parse_position("2"), Some(2));
    assert_eq!(parse_position("10"), Some(10));
    assert_eq!(parse_position("x"), None);
    assert_eq!(parse_position(""), None);
}
