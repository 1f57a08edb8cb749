//! The server's live figures, for the app to show.

use crate::text;
use crate::text::decimal_text;
use vstd::prelude::*;

verus! {

/// Ticks that the tick times are averaged over.
pub const AVERAGED_TICKS: i32 = 100;

/// How many tick times the aggregate covers after `tick_count` ticks: each
/// tick counts, up to `AVERAGED_TICKS` of them.
pub open spec fn covered_ticks(tick_count: i32) -> int {
    if tick_count <= 0 {
        0
    } else if tick_count >= AVERAGED_TICKS {
        AVERAGED_TICKS as int
    } else {
        tick_count as int
    }
}

/// Every tick counts until a hundred were made, and a hundred count from then
/// on; none count before the first.
pub proof fn law_last_hundred_ticks_count(tick_count: i32)
    ensures
        0 <= covered_ticks(tick_count) <= 100,
        covered_ticks(tick_count) == 0 <==> tick_count <= 0,
        0 <= tick_count <= 100 ==> covered_ticks(tick_count) == tick_count,
        tick_count > 100 ==> covered_ticks(tick_count) == 100,
{
}

/// The number of tick times to average over; nothing where no tick was timed.
pub fn averaged_samples(tick_count: i32, aggregated_nanos: i64) -> (samples: Option<i64>)
    ensures
        samples is Some <==> covered_ticks(tick_count) > 0 && aggregated_nanos > 0,
        samples matches Some(n) ==> n == covered_ticks(tick_count),
        tick_count <= 0 || aggregated_nanos <= 0 ==> samples is None,
        0 < tick_count <= 100 && aggregated_nanos > 0 ==> samples == Some(tick_count as i64),
        tick_count > 100 && aggregated_nanos > 0 ==> samples == Some(100i64),
{
    let ticks: i32 = if tick_count > 0 {
        tick_count
    } else {
        0
    };
    let samples: i64 = if ticks < AVERAGED_TICKS {
        ticks as i64
    } else {
        AVERAGED_TICKS as i64
    };
    if samples > 0 && aggregated_nanos > 0 {
        Some(samples)
    } else {
        None
    }
}

/// The rates to show, ticks per second and milliseconds per tick: `tps` and
/// `mspt` where tick times were averaged, and zeros where none were.
pub fn shown_rates(samples: Option<i64>, tps: String, mspt: String) -> (shown: (String, String))
    ensures
        samples is None ==> shown.0@ == "0.0"@ && shown.1@ == "0.00"@,
        samples is Some ==> shown == (tps, mspt),
{
    match samples {
        Some(_) => (tps, mspt),
        None => ("0.0".to_owned(), "0.00".to_owned()),
    }
}

/// The figures of a running server. Rates are text, as they are to be shown.
pub struct RunningStats {
    /// Ticks per second.
    pub tps: String,
    /// Milliseconds per tick.
    pub mspt: String,
    /// Players online.
    pub online: usize,
    /// Players the server admits.
    pub max: u32,
}

/// The figures as a JSON object.
pub open spec fn stats_text(stats: Option<RunningStats>) -> Seq<char> {
    match stats {
        None => "{\"running\":false,\"tps\":0,\"mspt\":0,\"online\":0,\"max\":0}"@,
        Some(running) => "{\"running\":true,\"tps\":"@ + running.tps@ + ",\"mspt\":"@
            + running.mspt@ + ",\"online\":"@ + text::decimal(running.online as nat)
            + ",\"max\":"@ + text::decimal(running.max as nat) + "}"@,
    }
}

/// The text says that the server runs, then each figure behind its label and
/// in full, and nothing else.
pub proof fn law_stats_text_shows_every_figure(running: RunningStats)
    ensures
        ({
            let online = text::decimal(running.online as nat);
            let max = text::decimal(running.max as nat);
            let tps_at = "{\"running\":true,\"tps\":"@.len() as int;
            let mspt_at = tps_at + running.tps@.len() + ",\"mspt\":"@.len();
            let online_at = mspt_at + running.mspt@.len() + ",\"online\":"@.len();
            let max_at = online_at + online.len() + ",\"max\":"@.len();
            let whole = stats_text(Some(running));
            &&& whole.len() == max_at + max.len() + 1
            &&& whole.subrange(0, tps_at) == "{\"running\":true,\"tps\":"@
            &&& whole.subrange(tps_at, tps_at + running.tps@.len()) == running.tps@
            &&& whole.subrange(tps_at + running.tps@.len(), mspt_at) == ",\"mspt\":"@
            &&& whole.subrange(mspt_at, mspt_at + running.mspt@.len()) == running.mspt@
            &&& whole.subrange(mspt_at + running.mspt@.len(), online_at) == ",\"online\":"@
            &&& whole.subrange(online_at, online_at + online.len()) == online
            &&& whole.subrange(online_at + online.len(), max_at) == ",\"max\":"@
            &&& whole.subrange(max_at, max_at + max.len()) == max
            &&& whole.last() == '}'
        }),
        stats_text(None)
            == "{\"running\":false,\"tps\":0,\"mspt\":0,\"online\":0,\"max\":0}"@,
{
    reveal_strlit("}");
    let online = text::decimal(running.online as nat);
    let max = text::decimal(running.max as nat);
    let tps_at = "{\"running\":true,\"tps\":"@.len() as int;
    let mspt_at = tps_at + running.tps@.len() + ",\"mspt\":"@.len();
    let online_at = mspt_at + running.mspt@.len() + ",\"online\":"@.len();
    let max_at = online_at + online.len() + ",\"max\":"@.len();
    let whole = stats_text(Some(running));
    assert(whole.subrange(0, tps_at) =~= "{\"running\":true,\"tps\":"@);
    assert(whole.subrange(tps_at, tps_at + running.tps@.len()) =~= running.tps@);
    assert(whole.subrange(tps_at + running.tps@.len(), mspt_at) =~= ",\"mspt\":"@);
    assert(whole.subrange(mspt_at, mspt_at + running.mspt@.len()) =~= running.mspt@);
    assert(whole.subrange(mspt_at + running.mspt@.len(), online_at) =~= ",\"online\":"@);
    assert(whole.subrange(online_at, online_at + online.len()) =~= online);
    assert(whole.subrange(online_at + online.len(), max_at) =~= ",\"max\":"@);
    assert(whole.subrange(max_at, max_at + max.len()) =~= max);
}

/// Live server stats as a JSON object with the members `running`, `tps`,
/// `mspt`, `online` and `max`, as the text of a NUL-terminated string.
pub fn pumpkin_stats_json(stats: Option<RunningStats>) -> (text: String)
    ensures
        text@ == text::nul_free(stats_text(stats)),
        !stats_text(stats).contains('\0') ==> text@ == stats_text(stats),
{
    let json = match stats {
        None => {
            "{\"running\":false,\"tps\":0,\"mspt\":0,\"online\":0,\"max\":0}".to_owned()
        },
        Some(running) => {
            let mut out = "{\"running\":true,\"tps\":".to_owned();
            out.append(running.tps.as_str());
            out.append(",\"mspt\":");
            out.append(running.mspt.as_str());
            out.append(",\"online\":");
            out.append(decimal_text(running.online as u64).as_str());
            out.append(",\"max\":");
            out.append(decimal_text(running.max as u64).as_str());
            out.append("}");
            out
        },
    };
    text::c_text(json)
}

/// Figures whose rates hold no NUL, as no number's text does, reach the reader
/// of the NUL-terminated string whole.
pub proof fn law_stats_text_is_complete(stats: Option<RunningStats>)
    requires
        stats matches Some(running) ==> text::lacks_nul(running.tps@) && text::lacks_nul(
            running.mspt@,
        ),
    ensures
        text::nul_free(stats_text(stats)) == stats_text(stats),
{
    reveal_strlit("{\"running\":false,\"tps\":0,\"mspt\":0,\"online\":0,\"max\":0}");
    reveal_strlit("{\"running\":true,\"tps\":");
    reveal_strlit(",\"mspt\":");
    reveal_strlit(",\"online\":");
    reveal_strlit(",\"max\":");
    reveal_strlit("}");
    if let Some(running) = stats {
        text::lemma_decimal_lacks_nul(running.online as nat);
        text::lemma_decimal_lacks_nul(running.max as nat);
    }
    assert(text::lacks_nul(stats_text(stats)));
}

} // verus!
