//! The weather module: what wttr.in reports for the current place, as a
//! short label (condition glyph and temperature) and a tooltip with the
//! details and a three-day hourly forecast; plus where to ask and how long
//! to wait between attempts.

use vstd::prelude::*;
use chrono::Timelike;
use crate::json::{Json, member, item, text_or, or_null, parse_json, json_document};
use crate::text::{contains, contains_seq};
use crate::text::{
    str_eq, owned, push_str, push_int, push_int_2, push_padded, parse_i32, parse_i32_spec,
    decimal, decimal_2, pad_left, digits_value,
};

verus! {

/// Weather codes of wttr.in and the glyph shown for each.
#[verifier::opaque]
pub open spec fn weather_codes() -> Seq<(Seq<char>, Seq<char>)> {
    seq![
        ("113"@, "☀️"@),
        ("116"@, "⛅️"@),
        ("119"@, "☁️"@),
        ("122"@, "☁️"@),
        ("143"@, "🌫"@),
        ("176"@, "🌦"@),
        ("179"@, "🌧"@),
        ("182"@, "🌧"@),
        ("185"@, "🌧"@),
        ("200"@, "⛈"@),
        ("227"@, "🌨"@),
        ("230"@, "❄️"@),
        ("248"@, "🌫"@),
        ("260"@, "🌫"@),
        ("263"@, "🌦"@),
        ("266"@, "🌦"@),
        ("281"@, "🌧"@),
        ("284"@, "🌧"@),
        ("293"@, "🌦"@),
        ("296"@, "🌦"@),
        ("299"@, "🌧"@),
        ("302"@, "🌧"@),
        ("305"@, "🌧"@),
        ("308"@, "🌧"@),
        ("311"@, "🌧"@),
        ("314"@, "🌧"@),
        ("317"@, "🌧"@),
        ("320"@, "🌨"@),
        ("323"@, "🌨"@),
        ("326"@, "🌨"@),
        ("329"@, "❄️"@),
        ("332"@, "❄️"@),
        ("335"@, "❄️"@),
        ("338"@, "❄️"@),
        ("350"@, "🌧"@),
        ("353"@, "🌦"@),
        ("356"@, "🌧"@),
        ("359"@, "🌧"@),
        ("362"@, "🌧"@),
        ("365"@, "🌧"@),
        ("368"@, "🌨"@),
        ("371"@, "❄️"@),
        ("374"@, "🌧"@),
        ("377"@, "🌧"@),
        ("386"@, "⛈"@),
        ("389"@, "🌩"@),
        ("392"@, "⛈"@),
        ("395"@, "❄️"@)
    ]
}

/// The glyph for a code that no entry lists.
pub open spec fn unknown_glyph() -> Seq<char> {
    "❓"@
}

/// The glyph of the first entry listing `code`, or the unknown glyph.
#[verifier::opaque]
pub open spec fn emoji_for(code: Seq<char>) -> Seq<char> {
    let codes = weather_codes();
    if exists|i: int| 0 <= i < codes.len() && codes[i].0 == code {
        let i = choose|i: int|
            0 <= i < codes.len() && codes[i].0 == code && forall|j: int|
                0 <= j < i ==> codes[j].0 != code;
        codes[i].1
    } else {
        unknown_glyph()
    }
}

proof fn lemma_emoji_at(code: Seq<char>, i: int)
    requires
        0 <= i < weather_codes().len(),
        weather_codes()[i].0 == code,
        forall|j: int| 0 <= j < i ==> weather_codes()[j].0 != code,
    ensures
        emoji_for(code) == weather_codes()[i].1,
{
    reveal(emoji_for);
    let codes = weather_codes();
    let k = choose|k: int|
        0 <= k < codes.len() && codes[k].0 == code && forall|j: int| 0 <= j < k ==> codes[j].0 != code;
    assert(0 <= k < codes.len() && codes[k].0 == code);
    if k < i {
        assert(codes[k].0 != code);
    }
    if i < k {
        assert(codes[i].0 != code);
    }
}

fn code_table() -> (t: [(&'static str, &'static str); 48])
    ensures
        t@.len() == weather_codes().len(),
        forall|i: int| 0 <= i < t@.len() ==> (#[trigger] t@[i]).0@ == weather_codes()[i].0 && t@[i].1@ == weather_codes()[i].1,
{
    reveal(weather_codes);
    let t = [
        ("113", "☀️"),
        ("116", "⛅️"),
        ("119", "☁️"),
        ("122", "☁️"),
        ("143", "🌫"),
        ("176", "🌦"),
        ("179", "🌧"),
        ("182", "🌧"),
        ("185", "🌧"),
        ("200", "⛈"),
        ("227", "🌨"),
        ("230", "❄️"),
        ("248", "🌫"),
        ("260", "🌫"),
        ("263", "🌦"),
        ("266", "🌦"),
        ("281", "🌧"),
        ("284", "🌧"),
        ("293", "🌦"),
        ("296", "🌦"),
        ("299", "🌧"),
        ("302", "🌧"),
        ("305", "🌧"),
        ("308", "🌧"),
        ("311", "🌧"),
        ("314", "🌧"),
        ("317", "🌧"),
        ("320", "🌨"),
        ("323", "🌨"),
        ("326", "🌨"),
        ("329", "❄️"),
        ("332", "❄️"),
        ("335", "❄️"),
        ("338", "❄️"),
        ("350", "🌧"),
        ("353", "🌦"),
        ("356", "🌧"),
        ("359", "🌧"),
        ("362", "🌧"),
        ("365", "🌧"),
        ("368", "🌨"),
        ("371", "❄️"),
        ("374", "🌧"),
        ("377", "🌧"),
        ("386", "⛈"),
        ("389", "🌩"),
        ("392", "⛈"),
        ("395", "❄️")
    ];
    t
}

/// The glyph for a weather code.
pub fn get_emoji(code: &str) -> (e: &'static str)
    ensures
        e@ == emoji_for(code@),
{
    let table = code_table();
    let mut i: usize = 0;
    while i < 48
        invariant
            table@.len() == weather_codes().len(),
            forall|k: int| 0 <= k < table@.len() ==> (#[trigger] table@[k]).0@ == weather_codes()[k].0 && table@[k].1@ == weather_codes()[k].1,
            i <= 48,
            forall|j: int| 0 <= j < i ==> weather_codes()[j].0 != code@,
        decreases 48 - i,
    {
        if str_eq(table[i].0, code) {
            proof {
                lemma_emoji_at(code@, i as int);
            }
            return table[i].1;
        }
        i = i + 1;
    }
    proof {
        reveal(emoji_for);
    }
    "❓"
}


/// The chance fields of an hourly forecast and the word shown for each.
pub open spec fn chance_kinds() -> Seq<(Seq<char>, Seq<char>)> {
    seq![
        ("chanceoffog"@, "Fog"@),
        ("chanceoffrost"@, "Frost"@),
        ("chanceofovercast"@, "Overcast"@),
        ("chanceofrain"@, "Rain"@),
        ("chanceofsnow"@, "Snow"@),
        ("chanceofsunshine"@, "Sunshine"@),
        ("chanceofthunder"@, "Thunder"@),
        ("chanceofwindy"@, "Wind"@),
    ]
}

fn chance_table() -> (t: [(&'static str, &'static str); 8])
    ensures
        t@.len() == chance_kinds().len(),
        forall|i: int| 0 <= i < t@.len() ==> (#[trigger] t@[i]).0@ == chance_kinds()[i].0 && t@[i].1@ == chance_kinds()[i].1,
{
    [
        ("chanceoffog", "Fog"),
        ("chanceoffrost", "Frost"),
        ("chanceofovercast", "Overcast"),
        ("chanceofrain", "Rain"),
        ("chanceofsnow", "Snow"),
        ("chanceofsunshine", "Sunshine"),
        ("chanceofthunder", "Thunder"),
        ("chanceofwindy", "Wind"),
    ]
}

/// One chance of an hourly forecast, when its field is a string holding a
/// positive `i32`: the word, the number and a percent sign.
pub open spec fn chance_item(hour: Json, kind: (Seq<char>, Seq<char>)) -> Option<Seq<char>> {
    match hour.member(kind.0).text() {
        Some(t) => match parse_i32_spec(t) {
            Some(v) => if v > 0 {
                Some(kind.1 + " "@ + decimal(v as int) + "%"@)
            } else {
                None
            },
            None => None,
        },
        None => None,
    }
}

/// The chances present among the first `n` kinds, in order.
pub open spec fn chance_items(hour: Json, n: int) -> Seq<Seq<char>>
    decreases n,
{
    if n <= 0 {
        seq![]
    } else {
        let prev = chance_items(hour, n - 1);
        match chance_item(hour, chance_kinds()[n - 1]) {
            Some(x) => prev.push(x),
            None => prev,
        }
    }
}

/// The items with `sep` between each two (`[..].join(sep)`).
pub open spec fn join(items: Seq<Seq<char>>, sep: Seq<char>) -> Seq<char>
    decreases items.len(),
{
    if items.len() == 0 {
        seq![]
    } else if items.len() == 1 {
        items[0]
    } else {
        join(items.drop_last(), sep) + sep + items.last()
    }
}

proof fn lemma_join_push(items: Seq<Seq<char>>, sep: Seq<char>, x: Seq<char>)
    ensures
        join(items.push(x), sep) == if items.len() == 0 {
            x
        } else {
            join(items, sep) + sep + x
        },
{
    assert(items.push(x).drop_last() =~= items);
}

/// The present chances of an hourly forecast, separated by commas.
#[verifier::opaque]
pub open spec fn chances_text(hour: Json) -> Seq<char> {
    join(chance_items(hour, 8), ", "@)
}

/// The present chances of an hourly forecast, separated by commas.
pub fn format_chances(hour: &Json) -> (s: String)
    ensures
        s@ == chances_text(*hour),
{
    reveal(chances_text);
    let kinds = chance_table();
    let mut out = String::new();
    let mut count: usize = 0;
    let mut i: usize = 0;
    while i < 8
        invariant
            kinds@.len() == chance_kinds().len(),
            forall|k: int| 0 <= k < kinds@.len() ==> (#[trigger] kinds@[k]).0@ == chance_kinds()[k].0 && kinds@[k].1@ == chance_kinds()[k].1,
            i <= 8,
            out@ == join(chance_items(*hour, i as int), ", "@),
            count == chance_items(*hour, i as int).len(),
            count <= i,
        decreases 8 - i,
    {
        let (key, word) = kinds[i];
        let text = match hour.get(key) {
            Some(v) => v.as_str(),
            None => None,
        };
        let value = match text {
            Some(t) => parse_i32(t),
            None => None,
        };
        let ghost prev = chance_items(*hour, i as int);
        proof {
            lemma_join_push(prev, ", "@, chance_item(*hour, chance_kinds()[i as int]).unwrap_or(seq![]));
        }
        match value {
            Some(v) => {
                if v > 0 {
                    if count > 0 {
                        push_str(&mut out, ", ");
                    }
                    push_str(&mut out, word);
                    push_str(&mut out, " ");
                    push_int(&mut out, v as i64);
                    push_str(&mut out, "%");
                    count = count + 1;
                }
            },
            None => {},
        }
        i = i + 1;
        proof {
            assert(out@ =~= join(chance_items(*hour, i as int), ", "@));
        }
    }
    out
}


/// `v / 100` as Rust's integer division computes it: rounded toward zero.
pub open spec fn div_100(v: int) -> int {
    if v >= 0 {
        v / 100
    } else {
        -((-v) / 100)
    }
}

/// The hour of an hourly forecast: its `time` field (`HHMM`, default `0`)
/// parsed as an `i32` (`0` when it does not parse), divided by 100.
pub open spec fn forecast_hour(hour: Json) -> int {
    div_100(
        match parse_i32_spec(hour.member("time"@).text_or("0"@)) {
            Some(v) => v as int,
            None => 0,
        },
    )
}

/// One line of the hourly forecast: hour (two digits), glyph, felt
/// temperature right-aligned to three characters, description, the present
/// chances if any.
pub open spec fn hour_line(hour: Json) -> Seq<char> {
    let chances = chances_text(hour);
    decimal_2(forecast_hour(hour)) + " "@ + emoji_for(hour.member("weatherCode"@).text_or(""@))
        + " "@ + pad_left(hour.member("FeelsLikeC"@).text_or("?"@), 3) + "° "@
        + hour.member("weatherDesc"@).item(0).member("value"@).text_or(""@) + (if chances.len() == 0 {
        Seq::<char>::empty()
    } else {
        ", "@ + chances
    }) + "\n"@
}

/// Hours of today more than two hours before the current hour are left out;
/// every hour of the later days is shown.
pub open spec fn hour_shown(day_index: int, hour: Json, now_hour: int) -> bool {
    !(day_index == 0 && forecast_hour(hour) < now_hour - 2)
}

/// The lines of the first `n` hourly forecasts of a day.
pub open spec fn hours_text(day_index: int, hours: Seq<Json>, n: int, now_hour: int) -> Seq<char>
    decreases n,
{
    if n <= 0 {
        Seq::empty()
    } else {
        hours_text(day_index, hours, n - 1, now_hour) + if hour_shown(
            day_index,
            hours[n - 1],
            now_hour,
        ) {
            hour_line(hours[n - 1])
        } else {
            Seq::empty()
        }
    }
}

fn forecast_hour_of(hour: &Json) -> (h: i32)
    ensures
        h == forecast_hour(*hour),
{
    let t = text_or(member(Some(hour), "time"), "0");
    let v: i32 = match parse_i32(t) {
        Some(v) => v,
        None => 0,
    };
    if v >= 0 {
        v / 100
    } else {
        let m: i64 = 0 - (v as i64);
        (0 - m / 100) as i32
    }
}

fn push_hour_line(s: &mut String, hour: &Json)
    ensures
        final(s)@ == old(s)@ + hour_line(*hour),
{
    let h = forecast_hour_of(hour);
    let chances = format_chances(hour);
    let code = text_or(member(Some(hour), "weatherCode"), "");
    let feels = text_or(member(Some(hour), "FeelsLikeC"), "?");
    let desc = text_or(member(item(member(Some(hour), "weatherDesc"), 0), "value"), "");
    let emoji = get_emoji(code);
    let ghost tail: Seq<char> = if chances@.len() == 0 {
        Seq::<char>::empty()
    } else {
        ", "@ + chances@
    };
    proof {
        assert(hour_line(*hour) == decimal_2(h as int) + " "@ + emoji@ + " "@ + pad_left(feels@, 3)
            + "° "@ + desc@ + tail + "\n"@);
    }
    let ghost start = s@;
    push_int_2(s, h as i64);
    push_str(s, " ");
    push_str(s, emoji);
    push_str(s, " ");
    push_padded(s, feels, 3);
    push_str(s, "° ");
    push_str(s, desc);
    let ghost mid = s@;
    if chances.unicode_len() != 0 {
        push_str(s, ", ");
        push_str(s, chances.as_str());
    }
    proof {
        assert(s@ =~= mid + tail);
    }
    push_str(s, "\n");
}

fn push_hours(s: &mut String, day_index: usize, hours: &Vec<Json>, now_hour: i32)
    ensures
        final(s)@ == old(s)@ + hours_text(day_index as int, hours@, hours@.len() as int, now_hour as int),
{
    let mut j: usize = 0;
    while j < hours.len()
        invariant
            j <= hours@.len(),
            s@ == old(s)@ + hours_text(day_index as int, hours@, j as int, now_hour as int),
        decreases hours@.len() - j,
    {
        let hour = &hours[j];
        let t = forecast_hour_of(hour);
        let ghost before = s@;
        if !(day_index == 0 && (t as i64) < (now_hour as i64) - 2) {
            push_hour_line(s, hour);
        }
        j = j + 1;
        proof {
            assert(s@ =~= old(s)@ + hours_text(day_index as int, hours@, j as int, now_hour as int));
        }
    }
}


/// The heading word of the first two days.
pub open spec fn day_heading(i: int) -> Seq<char> {
    if i == 0 {
        "Today, "@
    } else if i == 1 {
        "Tomorrow, "@
    } else {
        Seq::empty()
    }
}

/// The block of one forecast day: heading and date, highest and lowest
/// temperature, sunrise and sunset, then its hourly lines.
#[verifier::opaque]
pub open spec fn day_text(i: int, day: Json, now_hour: int) -> Seq<char> {
    day_summary(i, day) + match day.member("hourly"@).items() {
        Some(hours) => hours_text(i, hours, hours.len() as int, now_hour),
        None => Seq::empty(),
    }
}

/// The blocks of the first `n` forecast days.
pub open spec fn days_text(days: Seq<Json>, n: int, now_hour: int) -> Seq<char>
    decreases n,
{
    if n <= 0 {
        Seq::empty()
    } else {
        days_text(days, n - 1, now_hour) + day_text(n - 1, days[n - 1], now_hour)
    }
}

/// The forecast part of the tooltip: the first three days, when the report
/// has a list of days.
pub open spec fn forecast_text(data: Json, now_hour: int) -> Seq<char> {
    match data.member("weather"@).items() {
        Some(days) => days_text(days, if days.len() < 3 { days.len() as int } else { 3 }, now_hour),
        None => Seq::empty(),
    }
}

/// The heading and summary lines of a forecast day (everything but its
/// hourly lines).
pub open spec fn day_summary(i: int, day: Json) -> Seq<char> {
    let astronomy = day.member("astronomy"@).item(0);
    "\n<b>"@ + day_heading(i) + day.member("date"@).text_or(""@) + "</b>\n"@ + "⬆️ "@
        + day.member("maxtempC"@).text_or("?"@) + "° ⬇️ "@ + day.member("mintempC"@).text_or("?"@)
        + "° "@ + "🌅 "@ + astronomy.member("sunrise"@).text_or("?"@) + " 🌇 "@
        + astronomy.member("sunset"@).text_or("?"@) + "\n"@
}

fn heading(i: usize) -> (h: &'static str)
    ensures
        h@ == day_heading(i as int),
{
    if i == 0 {
        "Today, "
    } else if i == 1 {
        "Tomorrow, "
    } else {
        proof {
            reveal_strlit("");
        }
        ""
    }
}

fn push_day_summary(s: &mut String, i: usize, day: &Json)
    ensures
        final(s)@ == old(s)@ + day_summary(i as int, *day),
{
    let date = text_or(member(Some(day), "date"), "");
    let max = text_or(member(Some(day), "maxtempC"), "?");
    let min = text_or(member(Some(day), "mintempC"), "?");
    let astronomy = item(member(Some(day), "astronomy"), 0);
    let sunrise = text_or(member(astronomy, "sunrise"), "?");
    let sunset = text_or(member(astronomy, "sunset"), "?");
    let mut r = owned("\n<b>");
    push_str(&mut r, heading(i));
    push_str(&mut r, date);
    push_str(&mut r, "</b>\n");
    push_str(&mut r, "⬆️ ");
    push_str(&mut r, max);
    push_str(&mut r, "° ⬇️ ");
    push_str(&mut r, min);
    push_str(&mut r, "° ");
    push_str(&mut r, "🌅 ");
    push_str(&mut r, sunrise);
    push_str(&mut r, " 🌇 ");
    push_str(&mut r, sunset);
    push_str(&mut r, "\n");
    push_str(s, r.as_str());
}

fn push_day(s: &mut String, i: usize, day: &Json, now_hour: i32)
    ensures
        final(s)@ == old(s)@ + day_text(i as int, *day, now_hour as int),
{
    push_day_summary(s, i, day);
    let ghost body = s@;
    let hourly = member(Some(day), "hourly");
    match hourly {
        Some(h) => match h.as_array() {
            Some(hours) => push_hours(s, i, hours, now_hour),
            None => {},
        },
        None => {},
    }
    proof {
        reveal(day_text);
        let hours_part = match day.member("hourly"@).items() {
            Some(hours) => hours_text(i as int, hours, hours.len() as int, now_hour as int),
            None => Seq::<char>::empty(),
        };
        assert(s@ =~= body + hours_part);
        assert(s@ =~= old(s)@ + day_text(i as int, *day, now_hour as int));
    }
}

fn push_forecast(s: &mut String, data: &Json, now_hour: i32)
    ensures
        final(s)@ == old(s)@ + forecast_text(*data, now_hour as int),
{
    let weather = member(Some(data), "weather");
    match weather {
        Some(w) => match w.as_array() {
            Some(days) => {
                let n: usize = if days.len() < 3 { days.len() } else { 3 };
                let mut i: usize = 0;
                while i < n
                    invariant
                        n <= days@.len(),
                        n == if days@.len() < 3 { days@.len() as int } else { 3 },
                        i <= n,
                        s@ == old(s)@ + days_text(days@, i as int, now_hour as int),
                    decreases n - i,
                {
                    push_day(s, i, &days[i], now_hour);
                    i = i + 1;
                    proof {
                        assert(s@ =~= old(s)@ + days_text(days@, i as int, now_hour as int));
                    }
                }
            },
            None => {
                proof {
                    assert(s@ =~= old(s)@ + Seq::<char>::empty());
                }
            },
        },
        None => {
            proof {
                assert(s@ =~= old(s)@ + Seq::<char>::empty());
            }
        },
    }
}


/// The part of a wttr.in `format=j1` document that holds the report: its
/// `data` member when it has one, else the document itself.
pub open spec fn report_data(doc: Json) -> Json {
    match doc.get_spec("data"@) {
        Some(d) => d,
        None => doc,
    }
}

/// The current conditions of a report.
pub open spec fn current_of(data: Json) -> Json {
    data.member("current_condition"@).item(0)
}

/// The label: the glyph of the current condition, two spaces, the
/// temperature in degrees Celsius.
pub open spec fn label_text(data: Json) -> Seq<char> {
    let cur = current_of(data);
    emoji_for(cur.member("weatherCode"@).text_or(""@)) + "  "@ + cur.member("temp_C"@).text_or("?"@) + "°"@
}

/// The summary of the current conditions at the top of the tooltip.
pub open spec fn current_summary(cur: Json) -> Seq<char> {
    "<tt><b>"@ + cur.member("weatherDesc"@).item(0).member("value"@).text_or(""@) + " "@
        + cur.member("temp_C"@).text_or("?"@) + "°</b>\n"@ + "Feels like: "@
        + cur.member("FeelsLikeC"@).text_or("?"@) + "°\n"@ + "Wind: "@
        + cur.member("windspeedKmph"@).text_or("?"@) + "Km/h\n"@ + "Humidity: "@
        + cur.member("humidity"@).text_or("?"@) + "%\n"@
}

/// The tooltip: current conditions, the forecast, in a monospace block.
pub open spec fn tooltip_text(data: Json, now_hour: int) -> Seq<char> {
    current_summary(current_of(data)) + forecast_text(data, now_hour) + "</tt>"@
}

/// What the module shows: the label and the tooltip markup.
pub struct WeatherUpdate {
    pub text: String,
    pub tooltip: String,
}

fn push_current_summary(s: &mut String, cur: Option<&Json>)
    ensures
        final(s)@ == old(s)@ + current_summary(or_null(cur)),
{
    let desc = text_or(member(item(member(cur, "weatherDesc"), 0), "value"), "");
    let temp = text_or(member(cur, "temp_C"), "?");
    let feels = text_or(member(cur, "FeelsLikeC"), "?");
    let wind = text_or(member(cur, "windspeedKmph"), "?");
    let humidity = text_or(member(cur, "humidity"), "?");
    let mut r = owned("<tt><b>");
    push_str(&mut r, desc);
    push_str(&mut r, " ");
    push_str(&mut r, temp);
    push_str(&mut r, "°</b>\n");
    push_str(&mut r, "Feels like: ");
    push_str(&mut r, feels);
    push_str(&mut r, "°\n");
    push_str(&mut r, "Wind: ");
    push_str(&mut r, wind);
    push_str(&mut r, "Km/h\n");
    push_str(&mut r, "Humidity: ");
    push_str(&mut r, humidity);
    push_str(&mut r, "%\n");
    push_str(s, r.as_str());
}

/// The label and tooltip for a parsed report, at local hour `now_hour`.
pub fn weather_update(doc: &Json, now_hour: i32) -> (u: WeatherUpdate)
    ensures
        u.text@ == label_text(report_data(*doc)),
        u.tooltip@ == tooltip_text(report_data(*doc), now_hour as int),
{
    let data = match doc.get("data") {
        Some(d) => d,
        None => doc,
    };
    let cur = item(member(Some(data), "current_condition"), 0);
    let code = text_or(member(cur, "weatherCode"), "");
    let temp = text_or(member(cur, "temp_C"), "?");
    let mut text = owned(get_emoji(code));
    push_str(&mut text, "  ");
    push_str(&mut text, temp);
    push_str(&mut text, "°");
    let mut tooltip = String::new();
    push_current_summary(&mut tooltip, cur);
    push_forecast(&mut tooltip, data, now_hour);
    push_str(&mut tooltip, "</tt>");
    proof {
        assert(text@ =~= label_text(report_data(*doc)));
        assert(tooltip@ =~= tooltip_text(report_data(*doc), now_hour as int));
    }
    WeatherUpdate { text, tooltip }
}

/// The label and tooltip for a response body, at local hour `now_hour`;
/// `None` when the body is not JSON.
pub fn update_from_body(body: &[u8], now_hour: i32) -> (u: Option<WeatherUpdate>)
    ensures
        u is Some <==> json_document(body@) is Some,
        u matches Some(u) ==> u.text@ == label_text(report_data(json_document(body@)->0))
            && u.tooltip@ == tooltip_text(report_data(json_document(body@)->0), now_hour as int),
{
    match parse_json(body) {
        Some(doc) => Some(weather_update(&doc, now_hour)),
        None => None,
    }
}

/// The hour of the current local time: `chrono::Local::now()` and
/// `Timelike::hour` of it. Claimed: it is below 24 (chrono documents `hour`
/// as the hour number from 0 to 23); which hour it is depends on the clock
/// and is not claimed.
#[verifier::external_body]
fn local_hour() -> (h: u32)
    ensures
        h < 24,
{
    chrono::Local::now().hour()
}

/// The label and tooltip for a response body, at the current local hour;
/// `None` when the body is not JSON.
pub fn update_now(body: &[u8]) -> (u: Option<WeatherUpdate>)
    ensures
        u is Some <==> json_document(body@) is Some,
        u matches Some(u) ==> exists|h: int|
            0 <= h < 24 && u.text@ == label_text(report_data(json_document(body@)->0))
                && u.tooltip@ == tooltip_text(report_data(json_document(body@)->0), h),
{
    match parse_json(body) {
        Some(doc) => {
            let h = local_hour();
            let u = weather_update(&doc, h as i32);
            Some(u)
        },
        None => None,
    }
}


/// The place to ask the weather for: Cartagena when the machine has an
/// address on the `192.168.10` network (judged from `ip address` output),
/// Murcia otherwise.
pub open spec fn place_for(ip_output: Seq<char>) -> Seq<char> {
    if contains_seq(ip_output, "192.168.10"@) {
        "Cartagena"@
    } else {
        "Murcia"@
    }
}

/// The place to ask the weather for, given the decoded `ip address` output.
pub fn place(ip_output: &str) -> (p: &'static str)
    ensures
        p@ == place_for(ip_output@),
        contains_seq(ip_output@, "192.168.10"@) ==> p@ == "Cartagena"@,
        !contains_seq(ip_output@, "192.168.10"@) ==> p@ == "Murcia"@,
{
    if contains(ip_output, "192.168.10") {
        "Cartagena"
    } else {
        "Murcia"
    }
}

/// The command that lists the machine's network addresses.
pub fn address_query() -> (c: crate::command::CommandLine)
    ensures
        c.is("ip"@, seq!["address"@]),
{
    let args = ["address"];
    let c = crate::command::CommandLine::new("ip", &args);
    proof {
        assert(args@.map_values(|a: &str| a@) =~= seq!["address"@]);
    }
    c
}

/// The wttr.in address of the JSON report for a place.
pub fn report_url(place: &str) -> (u: String)
    ensures
        u@ == "https://wttr.in/"@ + place@ + "?format=j1"@,
{
    let mut u = owned("https://wttr.in/");
    push_str(&mut u, place);
    push_str(&mut u, "?format=j1");
    u
}

/// Seconds to wait before the first attempt.
pub fn first_wait_secs() -> (w: u64)
    ensures
        w == 0,
{
    0
}

/// Seconds to wait before the next attempt (a click cuts the wait short):
/// a quarter of an hour after a report came in, fifteen seconds after a
/// failure.
pub fn next_wait_secs(fetched: bool) -> (w: u64)
    ensures
        fetched ==> w == 900,
        !fetched ==> w == 15,
{
    if fetched {
        900
    } else {
        15
    }
}

/// The label shown before the first report.
pub fn initial_label() -> (s: String)
    ensures
        s@ == "✨ ..."@,
{
    owned("✨ ...")
}


/// A code that some entry lists gets the glyph of such an entry; any other
/// code gets the unknown glyph.
pub proof fn lemma_glyph_choice(code: Seq<char>)
    ensures
        (exists|i: int| 0 <= i < weather_codes().len() && weather_codes()[i].0 == code) ==> exists|i: int|
            0 <= i < weather_codes().len() && weather_codes()[i].0 == code && emoji_for(code)
                == weather_codes()[i].1,
        !(exists|i: int| 0 <= i < weather_codes().len() && weather_codes()[i].0 == code)
            ==> emoji_for(code) == unknown_glyph(),
{
    reveal(emoji_for);
    let codes = weather_codes();
    if exists|i: int| 0 <= i < codes.len() && codes[i].0 == code {
        let i = choose|i: int| 0 <= i < codes.len() && codes[i].0 == code;
        lemma_first_code(code, i);
        let k = choose|k: int|
            0 <= k < codes.len() && codes[k].0 == code && forall|j: int| 0 <= j < k ==> codes[j].0 != code;
        assert(0 <= k < codes.len() && codes[k].0 == code && emoji_for(code) == codes[k].1);
    }
}

proof fn lemma_first_code(code: Seq<char>, i: int)
    requires
        0 <= i < weather_codes().len(),
        weather_codes()[i].0 == code,
    ensures
        exists|k: int|
            0 <= k < weather_codes().len() && weather_codes()[k].0 == code && forall|j: int|
                0 <= j < k ==> weather_codes()[j].0 != code,
    decreases i,
{
    let codes = weather_codes();
    if exists|j: int| 0 <= j < i && codes[j].0 == code {
        let j = choose|j: int| 0 <= j < i && codes[j].0 == code;
        lemma_first_code(code, j);
    } else {
        assert(forall|j: int| 0 <= j < i ==> codes[j].0 != code);
    }
}

proof fn lemma_join_empty(items: Seq<Seq<char>>, sep: Seq<char>)
    requires
        forall|k: int| 0 <= k < items.len() ==> (#[trigger] items[k]).len() > 0,
    ensures
        (join(items, sep).len() == 0) == (items.len() == 0),
    decreases items.len(),
{
    if items.len() > 1 {
        lemma_join_empty(items.drop_last(), sep);
        assert(items.last() == items[items.len() - 1]);
    } else if items.len() == 1 {
        assert(items[0].len() > 0);
    }
}

proof fn lemma_chance_items(hour: Json, n: int)
    requires
        0 <= n <= 8,
    ensures
        forall|k: int| 0 <= k < chance_items(hour, n).len() ==> (#[trigger] chance_items(hour, n)[k]).len() > 0,
        (chance_items(hour, n).len() == 0) == (forall|k: int| 0 <= k < n ==> (#[trigger] chance_item(hour, chance_kinds()[k])) is None),
    decreases n,
{
    if n > 0 {
        lemma_chance_items(hour, n - 1);
        let prev = chance_items(hour, n - 1);
        match chance_item(hour, chance_kinds()[n - 1]) {
            Some(x) => {
                assert(x.len() > 0);
                assert forall|k: int| 0 <= k < chance_items(hour, n).len() implies (#[trigger] chance_items(hour, n)[k]).len() > 0 by {
                    if k < prev.len() {
                        assert(chance_items(hour, n)[k] == prev[k]);
                    }
                }
            },
            None => {},
        }
    }
}

/// The chances part of an hourly line is empty exactly when none of the
/// eight chance fields holds a positive number.
pub proof fn lemma_no_chances(hour: Json)
    ensures
        (chances_text(hour).len() == 0) == (forall|k: int| 0 <= k < 8 ==> (#[trigger] chance_item(hour, chance_kinds()[k])) is None),
{
    reveal(chances_text);
    lemma_chance_items(hour, 8);
    lemma_join_empty(chance_items(hour, 8), ", "@);
}


/// The tooltip is always one monospace block: it opens with `<tt><b>` and
/// closes with `</tt>`.
pub proof fn lemma_tooltip_is_one_block(data: Json, now_hour: int)
    ensures
        tooltip_text(data, now_hour).len() >= 12,
        tooltip_text(data, now_hour).subrange(0, 7) == "<tt><b>"@,
        tooltip_text(data, now_hour).subrange(tooltip_text(data, now_hour).len() - 5, tooltip_text(data, now_hour).len() as int) == "</tt>"@,
{
    reveal_strlit("<tt><b>");
    reveal_strlit("</tt>");
    let t = tooltip_text(data, now_hour);
    let head = current_summary(current_of(data));
    assert(head.subrange(0, 7) =~= "<tt><b>"@);
    assert(t =~= head + forecast_text(data, now_hour) + "</tt>"@);
    assert(t.subrange(0, 7) =~= "<tt><b>"@);
    assert(t.subrange(t.len() - 5, t.len() as int) =~= "</tt>"@);
}


/// An address on the `192.168.10` network anywhere in the `ip address`
/// output (on any line) sends the request for Cartagena; output without
/// one sends it for Murcia.
pub proof fn lemma_place_reads_whole_output(ip_output: Seq<char>, i: int)
    ensures
        0 <= i && i + 10 <= ip_output.len() && ip_output.subrange(i, i + 10) == "192.168.10"@
            ==> place_for(ip_output) == "Cartagena"@,
        (forall|j: int| 0 <= j && j + 10 <= ip_output.len() ==> #[trigger] ip_output.subrange(j, j + 10) != "192.168.10"@)
            ==> place_for(ip_output) == "Murcia"@,
{
    reveal_strlit("192.168.10");
    if 0 <= i && i + 10 <= ip_output.len() && ip_output.subrange(i, i + 10) == "192.168.10"@ {
        assert(crate::text::occurs_at(ip_output, "192.168.10"@, i));
    }
    if forall|j: int| 0 <= j && j + 10 <= ip_output.len() ==> #[trigger] ip_output.subrange(j, j + 10) != "192.168.10"@ {
        assert forall|j: int| !crate::text::occurs_at(ip_output, "192.168.10"@, j) by {
            if crate::text::occurs_at(ip_output, "192.168.10"@, j) {
                assert(ip_output.subrange(j, j + 10) != "192.168.10"@);
            }
        }
    }
}


/// The eight chance fields of an hourly forecast, in the order they are
/// listed.
pub open spec fn chance_fields() -> Seq<Seq<char>> {
    seq![
        "chanceoffog"@,
        "chanceoffrost"@,
        "chanceofovercast"@,
        "chanceofrain"@,
        "chanceofsnow"@,
        "chanceofsunshine"@,
        "chanceofthunder"@,
        "chanceofwindy"@
    ]
}

/// The value of a chance field that holds a positive `i32` as a string.
pub open spec fn positive_chance(hour: Json, key: Seq<char>) -> Option<i32> {
    match hour.member(key).text() {
        Some(t) => match parse_i32_spec(t) {
            Some(v) => if v > 0 {
                Some(v)
            } else {
                None
            },
            None => None,
        },
        None => None,
    }
}

/// No chance field other than the `k`-th holds a positive number.
pub open spec fn only_chance_at(hour: Json, k: int) -> bool {
    forall|j: int| 0 <= j < 8 && j != k ==> (#[trigger] positive_chance(hour, chance_fields()[j])) is None
}

proof fn lemma_single_items(hour: Json, k: int, n: int)
    requires
        0 <= k < 8,
        0 <= n <= 8,
        chance_item(hour, chance_kinds()[k]) is Some,
        forall|j: int| 0 <= j < 8 && j != k ==> (#[trigger] chance_item(hour, chance_kinds()[j])) is None,
    ensures
        chance_items(hour, n) == if n <= k {
            Seq::<Seq<char>>::empty()
        } else {
            seq![chance_item(hour, chance_kinds()[k])->0]
        },
    decreases n,
{
    if n > 0 {
        lemma_single_items(hour, k, n - 1);
        if n - 1 != k {
            assert(chance_item(hour, chance_kinds()[n - 1]) is None);
        }
        assert(Seq::<Seq<char>>::empty().push(chance_item(hour, chance_kinds()[k])->0) =~= seq![chance_item(hour, chance_kinds()[k])->0]);
    }
}

proof fn lemma_single_chance(hour: Json, k: int, v: i32)
    requires
        0 <= k < 8,
        positive_chance(hour, chance_fields()[k]) == Some(v),
        only_chance_at(hour, k),
    ensures
        chances_text(hour) == chance_kinds()[k].1 + " "@ + decimal(v as int) + "%"@,
{
    reveal(chances_text);
    assert forall|j: int| 0 <= j < 8 implies chance_kinds()[j].0 == #[trigger] chance_fields()[j] by {}
    assert forall|j: int| 0 <= j < 8 && j != k implies (#[trigger] chance_item(hour, chance_kinds()[j])) is None by {
        assert(chance_kinds()[j].0 == chance_fields()[j]);
        assert(positive_chance(hour, chance_fields()[j]) is None);
    }
    assert(chance_kinds()[k].0 == chance_fields()[k]);
    lemma_single_items(hour, k, 8);
}

/// An hourly forecast whose only positive chance field is one of the eight
/// shows that chance alone, under the word for that field, as in
/// `Sunshine 87%`.
pub proof fn lemma_chance_words(hour: Json, v: i32)
    ensures
        positive_chance(hour, "chanceoffog"@) == Some(v) && only_chance_at(hour, 0)
            ==> chances_text(hour) == "Fog"@ + " "@ + decimal(v as int) + "%"@,
        positive_chance(hour, "chanceoffrost"@) == Some(v) && only_chance_at(hour, 1)
            ==> chances_text(hour) == "Frost"@ + " "@ + decimal(v as int) + "%"@,
        positive_chance(hour, "chanceofovercast"@) == Some(v) && only_chance_at(hour, 2)
            ==> chances_text(hour) == "Overcast"@ + " "@ + decimal(v as int) + "%"@,
        positive_chance(hour, "chanceofrain"@) == Some(v) && only_chance_at(hour, 3)
            ==> chances_text(hour) == "Rain"@ + " "@ + decimal(v as int) + "%"@,
        positive_chance(hour, "chanceofsnow"@) == Some(v) && only_chance_at(hour, 4)
            ==> chances_text(hour) == "Snow"@ + " "@ + decimal(v as int) + "%"@,
        positive_chance(hour, "chanceofsunshine"@) == Some(v) && only_chance_at(hour, 5)
            ==> chances_text(hour) == "Sunshine"@ + " "@ + decimal(v as int) + "%"@,
        positive_chance(hour, "chanceofthunder"@) == Some(v) && only_chance_at(hour, 6)
            ==> chances_text(hour) == "Thunder"@ + " "@ + decimal(v as int) + "%"@,
        positive_chance(hour, "chanceofwindy"@) == Some(v) && only_chance_at(hour, 7)
            ==> chances_text(hour) == "Wind"@ + " "@ + decimal(v as int) + "%"@,
{
    if positive_chance(hour, "chanceoffog"@) == Some(v) && only_chance_at(hour, 0) {
        lemma_single_chance(hour, 0, v);
    }
    if positive_chance(hour, "chanceoffrost"@) == Some(v) && only_chance_at(hour, 1) {
        lemma_single_chance(hour, 1, v);
    }
    if positive_chance(hour, "chanceofovercast"@) == Some(v) && only_chance_at(hour, 2) {
        lemma_single_chance(hour, 2, v);
    }
    if positive_chance(hour, "chanceofrain"@) == Some(v) && only_chance_at(hour, 3) {
        lemma_single_chance(hour, 3, v);
    }
    if positive_chance(hour, "chanceofsnow"@) == Some(v) && only_chance_at(hour, 4) {
        lemma_single_chance(hour, 4, v);
    }
    if positive_chance(hour, "chanceofsunshine"@) == Some(v) && only_chance_at(hour, 5) {
        lemma_single_chance(hour, 5, v);
    }
    if positive_chance(hour, "chanceofthunder"@) == Some(v) && only_chance_at(hour, 6) {
        lemma_single_chance(hour, 6, v);
    }
    if positive_chance(hour, "chanceofwindy"@) == Some(v) && only_chance_at(hour, 7) {
        lemma_single_chance(hour, 7, v);
    }
}


/// The numeric values of the listed codes, in table order.
spec fn code_values() -> Seq<int> {
    seq![113, 116, 119, 122, 143, 176, 179, 182, 185, 200, 227, 230, 248, 260, 263, 266, 281, 284, 293, 296, 299, 302, 305, 308, 311, 314, 317, 320, 323, 326, 329, 332, 335, 338, 350, 353, 356, 359, 362, 365, 368, 371, 374, 377, 386, 389, 392, 395]
}

proof fn lemma_code_values_0()
    ensures
        forall|i: int| 0 <= i < 12 ==> digits_value(#[trigger] weather_codes()[i].0) == code_values()[i],
{
    reveal(weather_codes);
    reveal_with_fuel(digits_value, 4);
    reveal_strlit("113");
    assert(digits_value("113"@) == 113);
    reveal_strlit("116");
    assert(digits_value("116"@) == 116);
    reveal_strlit("119");
    assert(digits_value("119"@) == 119);
    reveal_strlit("122");
    assert(digits_value("122"@) == 122);
    reveal_strlit("143");
    assert(digits_value("143"@) == 143);
    reveal_strlit("176");
    assert(digits_value("176"@) == 176);
    reveal_strlit("179");
    assert(digits_value("179"@) == 179);
    reveal_strlit("182");
    assert(digits_value("182"@) == 182);
    reveal_strlit("185");
    assert(digits_value("185"@) == 185);
    reveal_strlit("200");
    assert(digits_value("200"@) == 200);
    reveal_strlit("227");
    assert(digits_value("227"@) == 227);
    reveal_strlit("230");
    assert(digits_value("230"@) == 230);
}
proof fn lemma_code_values_1()
    ensures
        forall|i: int| 12 <= i < 24 ==> digits_value(#[trigger] weather_codes()[i].0) == code_values()[i],
{
    reveal(weather_codes);
    reveal_with_fuel(digits_value, 4);
    reveal_strlit("248");
    assert(digits_value("248"@) == 248);
    reveal_strlit("260");
    assert(digits_value("260"@) == 260);
    reveal_strlit("263");
    assert(digits_value("263"@) == 263);
    reveal_strlit("266");
    assert(digits_value("266"@) == 266);
    reveal_strlit("281");
    assert(digits_value("281"@) == 281);
    reveal_strlit("284");
    assert(digits_value("284"@) == 284);
    reveal_strlit("293");
    assert(digits_value("293"@) == 293);
    reveal_strlit("296");
    assert(digits_value("296"@) == 296);
    reveal_strlit("299");
    assert(digits_value("299"@) == 299);
    reveal_strlit("302");
    assert(digits_value("302"@) == 302);
    reveal_strlit("305");
    assert(digits_value("305"@) == 305);
    reveal_strlit("308");
    assert(digits_value("308"@) == 308);
}
proof fn lemma_code_values_2()
    ensures
        forall|i: int| 24 <= i < 36 ==> digits_value(#[trigger] weather_codes()[i].0) == code_values()[i],
{
    reveal(weather_codes);
    reveal_with_fuel(digits_value, 4);
    reveal_strlit("311");
    assert(digits_value("311"@) == 311);
    reveal_strlit("314");
    assert(digits_value("314"@) == 314);
    reveal_strlit("317");
    assert(digits_value("317"@) == 317);
    reveal_strlit("320");
    assert(digits_value("320"@) == 320);
    reveal_strlit("323");
    assert(digits_value("323"@) == 323);
    reveal_strlit("326");
    assert(digits_value("326"@) == 326);
    reveal_strlit("329");
    assert(digits_value("329"@) == 329);
    reveal_strlit("332");
    assert(digits_value("332"@) == 332);
    reveal_strlit("335");
    assert(digits_value("335"@) == 335);
    reveal_strlit("338");
    assert(digits_value("338"@) == 338);
    reveal_strlit("350");
    assert(digits_value("350"@) == 350);
    reveal_strlit("353");
    assert(digits_value("353"@) == 353);
}
proof fn lemma_code_values_3()
    ensures
        forall|i: int| 36 <= i < 48 ==> digits_value(#[trigger] weather_codes()[i].0) == code_values()[i],
{
    reveal(weather_codes);
    reveal_with_fuel(digits_value, 4);
    reveal_strlit("356");
    assert(digits_value("356"@) == 356);
    reveal_strlit("359");
    assert(digits_value("359"@) == 359);
    reveal_strlit("362");
    assert(digits_value("362"@) == 362);
    reveal_strlit("365");
    assert(digits_value("365"@) == 365);
    reveal_strlit("368");
    assert(digits_value("368"@) == 368);
    reveal_strlit("371");
    assert(digits_value("371"@) == 371);
    reveal_strlit("374");
    assert(digits_value("374"@) == 374);
    reveal_strlit("377");
    assert(digits_value("377"@) == 377);
    reveal_strlit("386");
    assert(digits_value("386"@) == 386);
    reveal_strlit("389");
    assert(digits_value("389"@) == 389);
    reveal_strlit("392");
    assert(digits_value("392"@) == 392);
    reveal_strlit("395");
    assert(digits_value("395"@) == 395);
}

/// No two entries list the same code.
proof fn lemma_codes_distinct()
    ensures
        forall|i: int, j: int| 0 <= i < j < weather_codes().len() ==> weather_codes()[i].0 != weather_codes()[j].0,
{
    lemma_code_values_0();
    lemma_code_values_1();
    lemma_code_values_2();
    lemma_code_values_3();
    reveal(weather_codes);
    assert forall|i: int, j: int| 0 <= i < j < weather_codes().len() implies weather_codes()[i].0 != weather_codes()[j].0 by {
        assert(code_values()[i] < code_values()[j]);
        assert(digits_value(weather_codes()[i].0) == code_values()[i]);
        assert(digits_value(weather_codes()[j].0) == code_values()[j]);
    }
}

proof fn lemma_listed_glyph(i: int)
    requires
        0 <= i < weather_codes().len(),
    ensures
        emoji_for(weather_codes()[i].0) == weather_codes()[i].1,
{
    lemma_codes_distinct();
    lemma_emoji_at(weather_codes()[i].0, i);
}

proof fn lemma_listed_glyphs_0()
    ensures
        emoji_for("113"@) == "☀️"@,
        emoji_for("116"@) == "⛅️"@,
        emoji_for("119"@) == "☁️"@,
        emoji_for("122"@) == "☁️"@,
        emoji_for("143"@) == "🌫"@,
        emoji_for("176"@) == "🌦"@,
        emoji_for("179"@) == "🌧"@,
        emoji_for("182"@) == "🌧"@,
        emoji_for("185"@) == "🌧"@,
        emoji_for("200"@) == "⛈"@,
        emoji_for("227"@) == "🌨"@,
        emoji_for("230"@) == "❄️"@,
{
    reveal(weather_codes);
    lemma_listed_glyph(0);
    lemma_listed_glyph(1);
    lemma_listed_glyph(2);
    lemma_listed_glyph(3);
    lemma_listed_glyph(4);
    lemma_listed_glyph(5);
    lemma_listed_glyph(6);
    lemma_listed_glyph(7);
    lemma_listed_glyph(8);
    lemma_listed_glyph(9);
    lemma_listed_glyph(10);
    lemma_listed_glyph(11);
}
proof fn lemma_listed_glyphs_1()
    ensures
        emoji_for("248"@) == "🌫"@,
        emoji_for("260"@) == "🌫"@,
        emoji_for("263"@) == "🌦"@,
        emoji_for("266"@) == "🌦"@,
        emoji_for("281"@) == "🌧"@,
        emoji_for("284"@) == "🌧"@,
        emoji_for("293"@) == "🌦"@,
        emoji_for("296"@) == "🌦"@,
        emoji_for("299"@) == "🌧"@,
        emoji_for("302"@) == "🌧"@,
        emoji_for("305"@) == "🌧"@,
        emoji_for("308"@) == "🌧"@,
{
    reveal(weather_codes);
    lemma_listed_glyph(12);
    lemma_listed_glyph(13);
    lemma_listed_glyph(14);
    lemma_listed_glyph(15);
    lemma_listed_glyph(16);
    lemma_listed_glyph(17);
    lemma_listed_glyph(18);
    lemma_listed_glyph(19);
    lemma_listed_glyph(20);
    lemma_listed_glyph(21);
    lemma_listed_glyph(22);
    lemma_listed_glyph(23);
}
proof fn lemma_listed_glyphs_2()
    ensures
        emoji_for("311"@) == "🌧"@,
        emoji_for("314"@) == "🌧"@,
        emoji_for("317"@) == "🌧"@,
        emoji_for("320"@) == "🌨"@,
        emoji_for("323"@) == "🌨"@,
        emoji_for("326"@) == "🌨"@,
        emoji_for("329"@) == "❄️"@,
        emoji_for("332"@) == "❄️"@,
        emoji_for("335"@) == "❄️"@,
        emoji_for("338"@) == "❄️"@,
        emoji_for("350"@) == "🌧"@,
        emoji_for("353"@) == "🌦"@,
{
    reveal(weather_codes);
    lemma_listed_glyph(24);
    lemma_listed_glyph(25);
    lemma_listed_glyph(26);
    lemma_listed_glyph(27);
    lemma_listed_glyph(28);
    lemma_listed_glyph(29);
    lemma_listed_glyph(30);
    lemma_listed_glyph(31);
    lemma_listed_glyph(32);
    lemma_listed_glyph(33);
    lemma_listed_glyph(34);
    lemma_listed_glyph(35);
}
proof fn lemma_listed_glyphs_3()
    ensures
        emoji_for("356"@) == "🌧"@,
        emoji_for("359"@) == "🌧"@,
        emoji_for("362"@) == "🌧"@,
        emoji_for("365"@) == "🌧"@,
        emoji_for("368"@) == "🌨"@,
        emoji_for("371"@) == "❄️"@,
        emoji_for("374"@) == "🌧"@,
        emoji_for("377"@) == "🌧"@,
        emoji_for("386"@) == "⛈"@,
        emoji_for("389"@) == "🌩"@,
        emoji_for("392"@) == "⛈"@,
        emoji_for("395"@) == "❄️"@,
{
    reveal(weather_codes);
    lemma_listed_glyph(36);
    lemma_listed_glyph(37);
    lemma_listed_glyph(38);
    lemma_listed_glyph(39);
    lemma_listed_glyph(40);
    lemma_listed_glyph(41);
    lemma_listed_glyph(42);
    lemma_listed_glyph(43);
    lemma_listed_glyph(44);
    lemma_listed_glyph(45);
    lemma_listed_glyph(46);
    lemma_listed_glyph(47);
}

/// Each code that wttr.in uses is shown with its own glyph, for example
/// `119` (cloudy) with ☁️ and `389` (thunder) with 🌩.
pub proof fn lemma_listed_glyphs()
    ensures
        emoji_for("113"@) == "☀️"@,
        emoji_for("116"@) == "⛅️"@,
        emoji_for("119"@) == "☁️"@,
        emoji_for("122"@) == "☁️"@,
        emoji_for("143"@) == "🌫"@,
        emoji_for("176"@) == "🌦"@,
        emoji_for("179"@) == "🌧"@,
        emoji_for("182"@) == "🌧"@,
        emoji_for("185"@) == "🌧"@,
        emoji_for("200"@) == "⛈"@,
        emoji_for("227"@) == "🌨"@,
        emoji_for("230"@) == "❄️"@,
        emoji_for("248"@) == "🌫"@,
        emoji_for("260"@) == "🌫"@,
        emoji_for("263"@) == "🌦"@,
        emoji_for("266"@) == "🌦"@,
        emoji_for("281"@) == "🌧"@,
        emoji_for("284"@) == "🌧"@,
        emoji_for("293"@) == "🌦"@,
        emoji_for("296"@) == "🌦"@,
        emoji_for("299"@) == "🌧"@,
        emoji_for("302"@) == "🌧"@,
        emoji_for("305"@) == "🌧"@,
        emoji_for("308"@) == "🌧"@,
        emoji_for("311"@) == "🌧"@,
        emoji_for("314"@) == "🌧"@,
        emoji_for("317"@) == "🌧"@,
        emoji_for("320"@) == "🌨"@,
        emoji_for("323"@) == "🌨"@,
        emoji_for("326"@) == "🌨"@,
        emoji_for("329"@) == "❄️"@,
        emoji_for("332"@) == "❄️"@,
        emoji_for("335"@) == "❄️"@,
        emoji_for("338"@) == "❄️"@,
        emoji_for("350"@) == "🌧"@,
        emoji_for("353"@) == "🌦"@,
        emoji_for("356"@) == "🌧"@,
        emoji_for("359"@) == "🌧"@,
        emoji_for("362"@) == "🌧"@,
        emoji_for("365"@) == "🌧"@,
        emoji_for("368"@) == "🌨"@,
        emoji_for("371"@) == "❄️"@,
        emoji_for("374"@) == "🌧"@,
        emoji_for("377"@) == "🌧"@,
        emoji_for("386"@) == "⛈"@,
        emoji_for("389"@) == "🌩"@,
        emoji_for("392"@) == "⛈"@,
        emoji_for("395"@) == "❄️"@,
{
    lemma_listed_glyphs_0();
    lemma_listed_glyphs_1();
    lemma_listed_glyphs_2();
    lemma_listed_glyphs_3();
}

} // verus!
