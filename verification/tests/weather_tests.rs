use serde_json::Value;
use vibebar::json::parse_json;
use vibebar::weather::{
    first_wait_secs, format_chances, get_emoji, initial_label, next_wait_secs, place,
    report_url, update_from_body, update_now,
};

const BODY: &str = r#"{"data": {
  "current_condition": [{"weatherCode": "113", "temp_C": "21", "FeelsLikeC": "20",
     "windspeedKmph": "11", "humidity": "40", "weatherDesc": [{"value": "Sunny"}]}],
  "weather": [
    {"date": "2024-06-01", "maxtempC": "25", "mintempC": "15",
     "astronomy": [{"sunrise": "06:30 AM", "sunset": "09:30 PM"}],
     "hourly": [
       {"time": "0", "weatherCode": "113", "FeelsLikeC": "16", "weatherDesc": [{"value": "Clear"}], "chanceofrain": "0"},
       {"time": "1200", "weatherCode": "176", "FeelsLikeC": "24", "weatherDesc": [{"value": "Patchy rain"}],
        "chanceofrain": "60", "chanceofwindy": "5", "chanceoffog": "x"}]},
    {"date": "2024-06-02", "maxtempC": "20", "mintempC": "10",
     "hourly": [{"time": "300", "weatherCode": "999", "FeelsLikeC": "-3", "weatherDesc": [{"value": "Cold"}]}]},
    {"date": "2024-06-03"},
    {"date": "2024-06-04", "maxtempC": "30"}
  ]}}"#;

#[test]
fn update_for_a_report() {
    let u = update_from_body(BODY.as_bytes(), 10).unwrap();
    assert_eq!(u.text, "☀️  21°");
    let expected = [
        "<tt><b>Sunny 21°</b>\nFeels like: 20°\nWind: 11Km/h\nHumidity: 40%\n",
        "\n<b>Today, 2024-06-01</b>\n⬆️ 25° ⬇️ 15° 🌅 06:30 AM 🌇 09:30 PM\n",
        "12 🌦  24° Patchy rain, Rain 60%, Wind 5%\n",
        "\n<b>Tomorrow, 2024-06-02</b>\n⬆️ 20° ⬇️ 10° 🌅 ? 🌇 ?\n",
        "03 ❓  -3° Cold\n",
        "\n<b>2024-06-03</b>\n⬆️ ?° ⬇️ ?° 🌅 ? 🌇 ?\n",
        "</tt>",
    ]
    .join("");
    assert_eq!(u.tooltip, expected);
}

#[test]
fn early_hours_of_today_are_left_out() {
    let u = update_from_body(BODY.as_bytes(), 2).unwrap();
    assert!(u.tooltip.contains("00 ☀️  16° Clear\n"));
    let u = update_from_body(BODY.as_bytes(), 15).unwrap();
    assert!(!u.tooltip.contains("Patchy rain"));
    assert!(u.tooltip.contains("03 ❓  -3° Cold\n"));
}

#[test]
fn document_without_data_member_and_empty_document() {
    let u = update_from_body(br#"{"current_condition": [{"temp_C": "5"}]}"#, 12).unwrap();
    assert_eq!(u.text, "❓  5°");
    assert_eq!(u.tooltip, "<tt><b> 5°</b>\nFeels like: ?°\nWind: ?Km/h\nHumidity: ?%\n</tt>");
    let u = update_from_body(b"[]", 12).unwrap();
    assert_eq!(u.text, "❓  ?°");
    assert!(update_from_body(b"<html>", 12).is_none());
    assert!(update_now(b"<html>").is_none());
    assert!(update_now(BODY.as_bytes()).is_some());
}

#[test]
fn glyphs() {
    assert_eq!(get_emoji("113"), "☀️");
    assert_eq!(get_emoji("116"), "⛅️");
    assert_eq!(get_emoji("389"), "🌩");
    assert_eq!(get_emoji("395"), "❄️");
    assert_eq!(get_emoji(""), "❓");
    assert_eq!(get_emoji("114"), "❓");
}

#[test]
fn chances() {
    let doc = parse_json(br#"{"chanceofrain": "60", "chanceofsnow": "0", "chanceoffog": "+3", "chanceofthunder": "-1", "chanceofwindy": 7}"#).unwrap();
    assert_eq!(format_chances(&doc), "Fog 3%, Rain 60%");
    let none = parse_json(b"{}").unwrap();
    assert_eq!(format_chances(&none), "");
}

#[test]
fn place_and_url() {
    assert_eq!(place("2: wlan0 inet 192.168.10.23/24"), "Cartagena");
    assert_eq!(place("2: wlan0 inet 192.168.1.23/24"), "Murcia");
    assert_eq!(report_url("Murcia"), "https://wttr.in/Murcia?format=j1");
}

#[test]
fn waits() {
    assert_eq!(first_wait_secs(), 0);
    assert_eq!(next_wait_secs(true), 900);
    assert_eq!(next_wait_secs(false), 15);
    assert_eq!(initial_label(), "✨ ...");
}

// The tooltip as the module computes it straight from a `serde_json::Value`,
// used to cross-check the library on sample documents.
fn reference_chances(hour: &Value) -> String {
    let chances = [
        ("chanceoffog", "Fog"),
        ("chanceoffrost", "Frost"),
        ("chanceofovercast", "Overcast"),
        ("chanceofrain", "Rain"),
        ("chanceofsnow", "Snow"),
        ("chanceofsunshine", "Sunshine"),
        ("chanceofthunder", "Thunder"),
        ("chanceofwindy", "Wind"),
    ];
    let mut conditions = Vec::new();
    for (key, label) in chances {
        if let Some(val_str) = hour[key].as_str() {
            if let Ok(val) = val_str.parse::<i32>() {
                if val > 0 {
                    conditions.push(format!("{} {}%", label, val));
                }
            }
        }
    }
    conditions.join(", ")
}

fn reference(res: &Value, now_hour: i32) -> (String, String) {
    let data = res.get("data").unwrap_or(res);
    let current = &data["current_condition"][0];
    let code = current["weatherCode"].as_str().unwrap_or("");
    let temp = current["temp_C"].as_str().unwrap_or("?");
    let desc = current["weatherDesc"][0]["value"].as_str().unwrap_or("");
    let feels = current["FeelsLikeC"].as_str().unwrap_or("?");
    let wind = current["windspeedKmph"].as_str().unwrap_or("?");
    let humidity = current["humidity"].as_str().unwrap_or("?");
    let text = format!("{}  {}°", get_emoji(code), temp);
    let mut tooltip = format!("<tt><b>{} {}°</b>\n", desc, temp);
    tooltip.push_str(&format!("Feels like: {}°\n", feels));
    tooltip.push_str(&format!("Wind: {}Km/h\n", wind));
    tooltip.push_str(&format!("Humidity: {}%\n", humidity));
    if let Some(days) = data["weather"].as_array() {
        for (i, day) in days.iter().enumerate().take(3) {
            let date = day["date"].as_str().unwrap_or("");
            let max = day["maxtempC"].as_str().unwrap_or("?");
            let min = day["mintempC"].as_str().unwrap_or("?");
            let sunrise = day["astronomy"][0]["sunrise"].as_str().unwrap_or("?");
            let sunset = day["astronomy"][0]["sunset"].as_str().unwrap_or("?");
            tooltip.push_str("\n<b>");
            if i == 0 {
                tooltip.push_str("Today, ");
            } else if i == 1 {
                tooltip.push_str("Tomorrow, ");
            }
            tooltip.push_str(&format!("{}</b>\n", date));
            tooltip.push_str(&format!("⬆️ {}° ⬇️ {}° ", max, min));
            tooltip.push_str(&format!("🌅 {} 🌇 {}\n", sunrise, sunset));
            if let Some(hourly) = day["hourly"].as_array() {
                for hour in hourly {
                    let time_raw = hour["time"].as_str().unwrap_or("0");
                    let time_h = time_raw.parse::<i32>().unwrap_or(0) / 100;
                    if i == 0 && time_h < now_hour - 2 {
                        continue;
                    }
                    let h_code = hour["weatherCode"].as_str().unwrap_or("");
                    let h_feels = hour["FeelsLikeC"].as_str().unwrap_or("?");
                    let h_desc = hour["weatherDesc"][0]["value"].as_str().unwrap_or("");
                    let h_chances = reference_chances(hour);
                    tooltip.push_str(&format!("{:02} {} {:>3}° {}", time_h, get_emoji(h_code), h_feels, h_desc));
                    if !h_chances.is_empty() {
                        tooltip.push_str(&format!(", {}", h_chances));
                    }
                    tooltip.push('\n');
                }
            }
        }
    }
    tooltip.push_str("</tt>");
    (text, tooltip)
}

#[test]
fn agrees_with_direct_computation() {
    let docs = [
        BODY,
        r#"{"current_condition": {"temp_C": 3}, "weather": {"date": "x"}}"#,
        r#"{"data": 5, "weather": [{"hourly": [{"time": "-250", "FeelsLikeC": "1234"}, {"time": "abc"}, {"time": 900}]}]}"#,
        r#"{"weather": [{"hourly": [{"time": "-2147483648"}, {"time": "2147483647", "weatherCode": "122"}]}, {"date": 1}]}"#,
        r#"{"data": {"weather": [{}, {}, {}, {}, {}], "current_condition": [{"weatherDesc": "plain"}]}}"#,
        r#""just a string""#,
    ];
    for body in docs {
        let value: Value = serde_json::from_str(body).unwrap();
        for now_hour in [0, 1, 2, 5, 12, 23] {
            let u = update_from_body(body.as_bytes(), now_hour).unwrap();
            let (text, tooltip) = reference(&value, now_hour);
            assert_eq!(u.text, text, "{} {}", body, now_hour);
            assert_eq!(u.tooltip, tooltip, "{} {}", body, now_hour);
        }
    }
}

#[test]
fn tooltip_is_one_monospace_block() {
    for body in [BODY, "{}", "[1]"] {
        let u = update_from_body(body.as_bytes(), 7).unwrap();
        assert!(u.tooltip.starts_with("<tt><b>"));
        assert!(u.tooltip.ends_with("</tt>"));
    }
}
