//! The chat commands the bot understands, their names for logging, and
//! the texts the alert commands reply with.
use vstd::prelude::*;
use vstd::string::StrSliceExecFns;
use vstd::string::StringExecFns;

use crate::alerts::AlertEntry;
use crate::format::{alert_status_text, format_alert_status};
use crate::numeric::{dec_digits, digit_val, format_u64, is_digit, level_text_plain};

verus! {

/// The commands a chat can send.
pub enum Command {
    /// Show the command list.
    Help,
    /// Show what the bot is about.
    Info,
    /// Start interacting.
    Start,
    /// List the available stations.
    Stazioni,
    /// Subscribe to a threshold crossing: station name, then level.
    Avvisami(String),
    /// List the chat's subscriptions.
    ListaAvvisi,
    /// Remove one subscription, by station name or listing position.
    RimuoviAvviso(String),
    /// Choose the region to monitor.
    CambiaRegione,
}

/// The command's name, as the logs carry it.
pub fn command_name(cmd: &Command) -> (r: &'static str)
    ensures
        match cmd {
            Command::Help => r@ == "help"@,
            Command::Info => r@ == "info"@,
            Command::Start => r@ == "start"@,
            Command::Stazioni => r@ == "stazioni"@,
            Command::Avvisami(_) => r@ == "avvisami"@,
            Command::ListaAvvisi => r@ == "lista_avvisi"@,
            Command::RimuoviAvviso(_) => r@ == "rimuovi_avviso"@,
            Command::CambiaRegione => r@ == "cambia_regione"@,
        },
{
    match cmd {
        Command::Help => "help",
        Command::Info => "info",
        Command::Start => "start",
        Command::Stazioni => "stazioni",
        Command::Avvisami(_) => "avvisami",
        Command::ListaAvvisi => "lista_avvisi",
        Command::RimuoviAvviso(_) => "rimuovi_avviso",
        Command::CambiaRegione => "cambia_regione",
    }
}

/// One line of the subscriptions listing: its 1-based position, the
/// station, the threshold, and the status.
pub open spec fn alert_line_text(entry: AlertEntry, position: int, now_millis: u64) -> Seq<char> {
    dec_digits(position) + ". "@ + entry.station_name@ + " - "@ + level_text_plain(
        entry.threshold as int,
    ) + " ("@ + alert_status_text(entry, now_millis) + ")"@
}

/// The subscriptions listing of one chat: the heading, then one
/// numbered line per subscription, in listing order.
pub open spec fn alerts_list_text(entries: Seq<AlertEntry>, now_millis: u64) -> Seq<char>
    decreases entries.len(),
{
    if entries.len() == 0 {
        "I tuoi avvisi:"@
    } else {
        alerts_list_text(entries.drop_last(), now_millis) + "\n"@ + alert_line_text(
            entries.last(),
            entries.len() as int,
            now_millis,
        )
    }
}

/// The reply to a listing request: the numbered listing, or a note that
/// there is nothing to list. The numbering is this response's order;
/// a removal by position refers to it.
pub open spec fn lista_avvisi_text(entries: Seq<AlertEntry>, now_millis: u64) -> Seq<char> {
    if entries.len() == 0 {
        "Non hai avvisi attivi."@
    } else {
        alerts_list_text(entries, now_millis)
    }
}

/// Renders the reply to a listing request.
pub fn format_lista_avvisi(entries: &Vec<AlertEntry>, now_millis: u64) -> (r: String)
    ensures
        r@ == lista_avvisi_text(entries@, now_millis),
{
    proof {
        reveal_strlit("Non hai avvisi attivi.");
        reveal_strlit("I tuoi avvisi:");
    }
    if entries.len() == 0 {
        proof {
            assert(entries@.len() == 0);
        }
        return String::from_str("Non hai avvisi attivi.");
    }
    let mut s = String::from_str("I tuoi avvisi:");
    let n = entries.len();
    let mut i: usize = 0;
    while i < n
        invariant
            n == entries@.len(),
            0 <= i <= n,
            s@ == alerts_list_text(entries@.take(i as int), now_millis),
        decreases n - i,
    {
        proof {
            reveal_strlit("\n");
            reveal_strlit(". ");
            reveal_strlit(" - ");
            reveal_strlit(" (");
            reveal_strlit(")");
            assert(entries@.take(i + 1).drop_last() =~= entries@.take(i as int));
            assert(entries@.take(i + 1).last() == entries@[i as int]);
        }
        s.append("\n");
        let pos = format_u64((i + 1) as u64);
        s.append(pos.as_str());
        s.append(". ");
        s.append(entries[i].station_name.as_str());
        s.append(" - ");
        let lvl = crate::numeric::format_level_plain(entries[i].threshold);
        s.append(lvl.as_str());
        s.append(" (");
        let status = format_alert_status(&entries[i], now_millis);
        s.append(status.as_str());
        s.append(")");
        proof {
            assert(s@ =~= alerts_list_text(entries@.take(i + 1), now_millis));
        }
        i += 1;
    }
    proof {
        assert(entries@.take(n as int) =~= entries@);
    }
    s
}

/// What a digits-only argument means as a listing position.
pub open spec fn position_parse(s: Seq<char>) -> Option<int> {
    if s.len() > 0 && s.len() <= 15 && crate::numeric::all_digits(s) {
        Some(crate::numeric::digits_val(s))
    } else {
        None
    }
}

/// Reads a listing position: digits only, at most fifteen of them.
pub fn parse_position(s: &str) -> (r: Option<u64>)
    ensures
        match r {
            Some(v) => position_parse(s@) == Some(v as int),
            None => position_parse(s@) is None,
        },
{
    let n = s.unicode_len();
    if n == 0 || n > 15 {
        return None;
    }
    let mut value: u64 = 0;
    let mut i: usize = 0;
    while i < n
        invariant
            n == s@.len(),
            n <= 15,
            0 <= i <= n,
            forall|k: int| 0 <= k < i ==> is_digit(#[trigger] s@[k]),
            value == crate::numeric::digits_val(s@.take(i as int)),
            value < crate::numeric::pow10(i as int),
        decreases n - i,
    {
        let c = s.get_char(i);
        if !('0' <= c && c <= '9') {
            return None;
        }
        let d = (c as u32 as u64) - ('0' as u32 as u64);
        proof {
            assert(s@.take(i + 1).drop_last() =~= s@.take(i as int));
            assert(s@.take(i + 1).last() == s@[i as int]);
            crate::numeric::lemma_pow10_mono(i as int + 1, 15);
            crate::numeric::lemma_pow10_15();
            assert(value * 10 + d < crate::numeric::pow10(i as int + 1));
        }
        value = value * 10 + d;
        i += 1;
    }
    proof {
        assert(s@.take(n as int) =~= s@);
    }
    Some(value)
}

} // verus!
