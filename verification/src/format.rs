//! The texts the system sends: MarkdownV2 escaping, durations, a
//! subscription's status line, and the station report message.
use vstd::prelude::*;
use vstd::string::StrSliceExecFns;
use vstd::string::StringExecFns;

use crate::alerts::{sat_sub, AlertEntry, ALERT_ACTIVE, COOLDOWN_MILLIS};
use crate::is_known_level;
use crate::numeric::{dec_digits, format_level, format_level_plain, format_u64, level_text, level_text_plain};
use crate::time::{epoch_millis_to_secs, millis_to_secs, rome_datetime_text, rome_stamp};
use crate::UNKNOWN_THRESHOLD;

verus! {

/// The characters MarkdownV2 requires a backslash before.
pub open spec fn is_markdown_special(c: char) -> bool {
    ||| c == '\\'
    ||| c == '_'
    ||| c == '*'
    ||| c == '['
    ||| c == ']'
    ||| c == '('
    ||| c == ')'
    ||| c == '~'
    ||| c == '>'
    ||| c == '#'
    ||| c == '+'
    ||| c == '-'
    ||| c == '='
    ||| c == '|'
    ||| c == '{'
    ||| c == '}'
    ||| c == '.'
    ||| c == '!'
}

/// One character, escaped: specials gain a leading backslash.
pub open spec fn escaped_char(c: char) -> Seq<char> {
    if is_markdown_special(c) {
        seq!['\\', c]
    } else {
        seq![c]
    }
}

/// A text with every MarkdownV2 special escaped.
pub open spec fn escaped_text(s: Seq<char>) -> Seq<char>
    decreases s.len(),
{
    if s.len() == 0 {
        Seq::empty()
    } else {
        escaped_text(s.drop_last()) + escaped_char(s.last())
    }
}

/// Whether MarkdownV2 requires a backslash before this character.
fn markdown_special(c: char) -> (r: bool)
    ensures
        r == is_markdown_special(c),
{
    c == '\\' || c == '_' || c == '*' || c == '[' || c == ']' || c == '(' || c == ')' || c == '~'
        || c == '>' || c == '#' || c == '+' || c == '-' || c == '=' || c == '|' || c == '{'
        || c == '}' || c == '.' || c == '!'
}

/// Escapes a text for Telegram's MarkdownV2: every special character
/// gains a leading backslash, backslashes themselves included.
pub fn escape_markdown_v2(text: &str) -> (r: String)
    ensures
        r@ == escaped_text(text@),
{
    proof {
        reveal_strlit("\\");
    }
    let mut out = String::new();
    let n = text.unicode_len();
    let mut i: usize = 0;
    while i < n
        invariant
            n == text@.len(),
            0 <= i <= n,
            out@ == escaped_text(text@.take(i as int)),
        decreases n - i,
    {
        proof {
            reveal_strlit("\\");
            assert(text@.take(i + 1).drop_last() =~= text@.take(i as int));
            assert(text@.take(i + 1).last() == text@[i as int]);
        }
        if markdown_special(text.get_char(i)) {
            out.append("\\");
        }
        let piece = text.substring_char(i, i + 1);
        out.append(piece);
        proof {
            assert(piece@ =~= seq![text@[i as int]]);
            assert(out@ =~= escaped_text(text@.take(i + 1)));
        }
        i += 1;
    }
    proof {
        assert(text@.take(n as int) =~= text@);
    }
    out
}

/// The rendering of a duration: whole hours and minutes when at least an
/// hour remains, whole minutes when at least a minute, else seconds —
/// counting any part of a second as a full one.
pub open spec fn duration_text(millis: u64) -> Seq<char> {
    let total_secs = (millis + 999) / 1000;
    let hours = total_secs / 3600;
    let minutes = (total_secs % 3600) / 60;
    let seconds = total_secs % 60;
    if hours > 0 {
        dec_digits(hours) + "h "@ + dec_digits(minutes) + "m"@
    } else if minutes > 0 {
        dec_digits(minutes) + "m"@
    } else {
        dec_digits(seconds) + "s"@
    }
}

/// Renders a duration the way the status line shows it ("1h 0m", "5m",
/// "30s").
pub fn format_duration_millis(millis: u64) -> (r: String)
    ensures
        r@ == duration_text(millis),
{
    proof {
        reveal_strlit("h ");
        reveal_strlit("m");
        reveal_strlit("s");
    }
    let total_secs = millis / 1000 + if millis % 1000 > 0 {
        1
    } else {
        0
    };
    proof {
        assert(total_secs == (millis + 999) / 1000);
    }
    let hours = total_secs / 3600;
    let minutes = (total_secs % 3600) / 60;
    let seconds = total_secs % 60;
    if hours > 0 {
        let mut s = format_u64(hours);
        s.append("h ");
        let m = format_u64(minutes);
        s.append(m.as_str());
        s.append("m");
        proof {
            assert(s@ =~= duration_text(millis));
        }
        s
    } else if minutes > 0 {
        let mut s = format_u64(minutes);
        s.append("m");
        proof {
            assert(s@ =~= duration_text(millis));
        }
        s
    } else {
        let mut s = format_u64(seconds);
        s.append("s");
        proof {
            assert(s@ =~= duration_text(millis));
        }
        s
    }
}

/// The status line of one listed subscription: "attivo" while watching;
/// in pause after a trigger, with the value that fired it and how long
/// until the cooldown reactivates it.
pub open spec fn alert_status_text(alert: AlertEntry, now_millis: u64) -> Seq<char> {
    if alert.active == ALERT_ACTIVE {
        "attivo"@
    } else {
        let opening = match alert.triggered_value {
            Some(v) => "in pausa (soglia superata: "@ + level_text_plain(v as int) + ")"@,
            None => "in pausa (soglia superata)"@,
        };
        match alert.triggered_at {
            Some(t) => {
                let remaining = sat_sub(COOLDOWN_MILLIS, sat_sub(now_millis, t));
                if remaining == 0 {
                    opening + ", ripristino imminente"@
                } else {
                    opening + ", ripristino tra "@ + duration_text(remaining)
                }
            },
            None => opening + ", ripristino in attesa"@,
        }
    }
}

/// Renders the status of one listed subscription.
pub fn format_alert_status(alert: &AlertEntry, now_millis: u64) -> (r: String)
    ensures
        r@ == alert_status_text(*alert, now_millis),
{
    proof {
        reveal_strlit("attivo");
        reveal_strlit("in pausa (soglia superata: ");
        reveal_strlit(")");
        reveal_strlit("in pausa (soglia superata)");
        reveal_strlit(", ripristino imminente");
        reveal_strlit(", ripristino tra ");
        reveal_strlit(", ripristino in attesa");
    }
    if alert.active == ALERT_ACTIVE {
        return String::from_str("attivo");
    }
    let mut status = match alert.triggered_value {
        Some(v) => {
            let mut s = String::from_str("in pausa (soglia superata: ");
            let vt = format_level_plain(v);
            s.append(vt.as_str());
            s.append(")");
            s
        },
        None => String::from_str("in pausa (soglia superata)"),
    };
    match alert.triggered_at {
        Some(t) => {
            let elapsed = if now_millis >= t {
                now_millis - t
            } else {
                0
            };
            let remaining = if COOLDOWN_MILLIS >= elapsed {
                COOLDOWN_MILLIS - elapsed
            } else {
                0
            };
            if remaining == 0 {
                status.append(", ripristino imminente");
            } else {
                status.append(", ripristino tra ");
                let d = format_duration_millis(remaining);
                status.append(d.as_str());
            }
        },
        None => {
            status.append(", ripristino in attesa");
        },
    }
    proof {
        assert(status@ =~= alert_status_text(*alert, now_millis));
    }
    status
}

/// The marker next to a reading: green at or below the yellow
/// threshold, then yellow, orange between the orange and red ones, red
/// beyond.
pub open spec fn alarm_symbol(value: int, yellow: int, orange: int, red: int) -> Seq<char> {
    if value <= yellow {
        "\u{1f7e2}"@
    } else if value > yellow && value <= orange {
        "\u{1f7e1}"@
    } else if value >= orange && value <= red {
        "\u{1f7e0}"@
    } else {
        "\u{1f534}"@
    }
}

/// The rendering of the latest-reading line's timestamp.
pub open spec fn stamp_text(timestamp_millis: Option<i64>) -> Seq<char> {
    match timestamp_millis {
        Some(ms) => match rome_stamp(millis_to_secs(ms as int) as i64) {
            Some(t) => t,
            None => "non disponibile"@,
        },
        None => "non disponibile"@,
    }
}

/// Everything of the station report below its first line: the reading
/// with its marker, one line per known threshold, and the timestamp.
pub open spec fn station_message_tail(
    value: Option<i64>,
    yellow: i64,
    orange: i64,
    red: i64,
    timestamp_millis: Option<i64>,
) -> Seq<char> {
    let v = match value {
        Some(v) => v,
        None => UNKNOWN_THRESHOLD,
    };
    let thresholds_known = is_known_level(yellow) && is_known_level(orange) && is_known_level(red);
    let value_str = if v == UNKNOWN_THRESHOLD {
        "non disponibile"@
    } else {
        level_text(v as int)
    };
    let alarm = if thresholds_known && v != UNKNOWN_THRESHOLD {
        alarm_symbol(v as int, yellow as int, orange as int, red as int)
    } else {
        ""@
    };
    let yellow_line = if is_known_level(yellow) {
        "Soglia Gialla: "@ + level_text(yellow as int) + "\n"@
    } else {
        ""@
    };
    let orange_line = if is_known_level(orange) {
        "Soglia Arancione: "@ + level_text(orange as int) + "\n"@
    } else {
        ""@
    };
    let red_line = if is_known_level(red) {
        "Soglia Rossa: "@ + level_text(red as int) + "\n"@
    } else {
        ""@
    };
    "Valore: "@ + value_str + " "@ + alarm + "\n"@ + yellow_line + orange_line + red_line
        + "Ultimo rilevamento: "@ + stamp_text(timestamp_millis)
}

/// The whole station report.
pub open spec fn station_message_text(
    station_name: Seq<char>,
    value: Option<i64>,
    yellow: i64,
    orange: i64,
    red: i64,
    timestamp_millis: Option<i64>,
) -> Seq<char> {
    "Stazione: "@ + station_name + "\n"@ + station_message_tail(
        value,
        yellow,
        orange,
        red,
        timestamp_millis,
    )
}

/// Renders the reading line of the station report.
fn render_value_line(value: Option<i64>, yellow: i64, orange: i64, red: i64) -> (r: String)
    ensures
        r@ == {
            let v = match value {
                Some(v) => v,
                None => UNKNOWN_THRESHOLD,
            };
            let thresholds_known = is_known_level(yellow) && is_known_level(orange)
                && is_known_level(red);
            let value_str = if v == UNKNOWN_THRESHOLD {
                "non disponibile"@
            } else {
                level_text(v as int)
            };
            let alarm = if thresholds_known && v != UNKNOWN_THRESHOLD {
                alarm_symbol(v as int, yellow as int, orange as int, red as int)
            } else {
                ""@
            };
            "Valore: "@ + value_str + " "@ + alarm + "\n"@
        },
{
    proof {
        reveal_strlit("Valore: ");
        reveal_strlit(" ");
        reveal_strlit("");
        reveal_strlit("\n");
        reveal_strlit("non disponibile");
        reveal_strlit("\u{1f7e2}");
        reveal_strlit("\u{1f7e1}");
        reveal_strlit("\u{1f7e0}");
        reveal_strlit("\u{1f534}");
    }
    let v = match value {
        Some(v) => v,
        None => UNKNOWN_THRESHOLD,
    };
    let thresholds_known = crate::level_is_known(yellow) && crate::level_is_known(orange)
        && crate::level_is_known(red);
    let mut s = String::from_str("Valore: ");
    if v == UNKNOWN_THRESHOLD {
        s.append("non disponibile");
    } else {
        let vt = format_level(v);
        s.append(vt.as_str());
    }
    s.append(" ");
    if thresholds_known && v != UNKNOWN_THRESHOLD {
        if v <= yellow {
            s.append("\u{1f7e2}");
        } else if v <= orange {
            s.append("\u{1f7e1}");
        } else if v <= red {
            s.append("\u{1f7e0}");
        } else {
            s.append("\u{1f534}");
        }
        proof {
            assert(s@ =~= "Valore: "@ + (if v == UNKNOWN_THRESHOLD {
                "non disponibile"@
            } else {
                level_text(v as int)
            }) + " "@ + alarm_symbol(v as int, yellow as int, orange as int, red as int));
        }
    }
    s.append("\n");
    s
}

/// Renders one "Soglia" line, or nothing when the level is unknown.
fn render_threshold_line(label: &str, level: i64) -> (r: String)
    ensures
        r@ == if is_known_level(level) {
            label@ + level_text(level as int) + "\n"@
        } else {
            Seq::<char>::empty()
        },
{
    proof {
        reveal_strlit("\n");
    }
    if crate::level_is_known(level) {
        let mut s = String::from_str(label);
        let t = format_level(level);
        s.append(t.as_str());
        s.append("\n");
        s
    } else {
        let s = String::new();
        s
    }
}

/// Renders the timestamp of the latest reading, in Europe/Rome local
/// time, or says it is not available.
fn render_stamp(timestamp_millis: Option<i64>) -> (r: String)
    ensures
        r@ == stamp_text(timestamp_millis),
{
    proof {
        reveal_strlit("non disponibile");
    }
    match timestamp_millis {
        Some(ms) => {
            let secs = epoch_millis_to_secs(ms);
            match rome_datetime_text(secs) {
                Some(t) => t,
                None => String::from_str("non disponibile"),
            }
        },
        None => String::from_str("non disponibile"),
    }
}

/// Renders the tail of the station report (everything below the
/// "Stazione" line).
#[verifier::rlimit(60)]
pub fn render_station_tail(
    value: Option<i64>,
    yellow: i64,
    orange: i64,
    red: i64,
    timestamp_millis: Option<i64>,
) -> (r: String)
    ensures
        r@ == station_message_tail(value, yellow, orange, red, timestamp_millis),
{
    proof {
        reveal_strlit("");
        reveal_strlit("Soglia Gialla: ");
        reveal_strlit("Soglia Arancione: ");
        reveal_strlit("Soglia Rossa: ");
        reveal_strlit("Ultimo rilevamento: ");
    }
    let ghost v = match value {
        Some(v) => v,
        None => UNKNOWN_THRESHOLD,
    };
    let ghost thresholds_known = is_known_level(yellow) && is_known_level(orange)
        && is_known_level(red);
    let ghost value_str = if v == UNKNOWN_THRESHOLD {
        "non disponibile"@
    } else {
        level_text(v as int)
    };
    let ghost alarm = if thresholds_known && v != UNKNOWN_THRESHOLD {
        alarm_symbol(v as int, yellow as int, orange as int, red as int)
    } else {
        ""@
    };
    let ghost yellow_line = if is_known_level(yellow) {
        "Soglia Gialla: "@ + level_text(yellow as int) + "\n"@
    } else {
        ""@
    };
    let ghost orange_line = if is_known_level(orange) {
        "Soglia Arancione: "@ + level_text(orange as int) + "\n"@
    } else {
        ""@
    };
    let ghost red_line = if is_known_level(red) {
        "Soglia Rossa: "@ + level_text(red as int) + "\n"@
    } else {
        ""@
    };
    let mut s = render_value_line(value, yellow, orange, red);
    assert(s@ == "Valore: "@ + value_str + " "@ + alarm + "\n"@);
    let ly = render_threshold_line("Soglia Gialla: ", yellow);
    proof {
        assert(ly@ =~= yellow_line);
    }
    s.append(ly.as_str());
    let lo = render_threshold_line("Soglia Arancione: ", orange);
    proof {
        assert(lo@ =~= orange_line);
    }
    s.append(lo.as_str());
    let lr = render_threshold_line("Soglia Rossa: ", red);
    proof {
        assert(lr@ =~= red_line);
    }
    s.append(lr.as_str());
    s.append("Ultimo rilevamento: ");
    let stamp = render_stamp(timestamp_millis);
    s.append(stamp.as_str());
    proof {
        assert(s@ == "Valore: "@ + value_str + " "@ + alarm + "\n"@ + yellow_line + orange_line
            + red_line + "Ultimo rilevamento: "@ + stamp_text(timestamp_millis));
        assert(s@ =~= station_message_tail(value, yellow, orange, red, timestamp_millis));
    }
    s
}

/// Renders the station report: name, reading with its marker, one line
/// per known threshold, and when the reading was taken, in local time.
pub fn format_station_message(
    station_name: &str,
    value: Option<i64>,
    threshold_yellow: i64,
    threshold_orange: i64,
    threshold_red: i64,
    timestamp_millis: Option<i64>,
) -> (r: String)
    ensures
        r@ == station_message_text(
            station_name@,
            value,
            threshold_yellow,
            threshold_orange,
            threshold_red,
            timestamp_millis,
        ),
{
    proof {
        reveal_strlit("Stazione: ");
        reveal_strlit("\n");
    }
    let mut s = String::from_str("Stazione: ");
    s.append(station_name);
    s.append("\n");
    let tail = render_station_tail(
        value,
        threshold_yellow,
        threshold_orange,
        threshold_red,
        timestamp_millis,
    );
    s.append(tail.as_str());
    proof {
        assert(s@ =~= station_message_text(
            station_name@,
            value,
            threshold_yellow,
            threshold_orange,
            threshold_red,
            timestamp_millis,
        ));
    }
    s
}

/// Renders one threshold level, or says it is not available.
pub fn format_threshold(value: i64) -> (r: String)
    ensures
        r@ == if is_known_level(value) {
            level_text(value as int)
        } else {
            "non disponibile"@
        },
{
    proof {
        reveal_strlit("non disponibile");
    }
    if crate::level_is_known(value) {
        format_level(value)
    } else {
        String::from_str("non disponibile")
    }
}

} // verus!
