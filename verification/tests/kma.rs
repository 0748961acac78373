use mintybot::kma::{
    base_date_at, collect_category, forecast_date_label, forecast_time_label, format_base_date,
    format_base_time, get_base_date, get_weather, query_kma, rain_amount, rain_amounts,
    rain_probabilities, select_base_time, zero_padded_string, BaseDateError, BaseSlot, ClockTime,
    RetryAction,
};
use mintybot::kma_types::KmaItem;

fn item(category: &str, date: &str, time: &str, value: &str) -> KmaItem {
    KmaItem {
        baseDate: "20240301".to_string(),
        baseTime: "0500".to_string(),
        category: category.to_string(),
        fcstDate: date.to_string(),
        fcstTime: time.to_string(),
        fcstValue: value.to_string(),
        nx: 59,
        ny: 125,
    }
}

fn at(year: i32, month: u32, day: u32, hour: u32, minute: u32) -> ClockTime {
    ClockTime { year, month, day, hour, minute }
}

#[test]
fn base_time_is_the_latest_run_published_a_quarter_of_an_hour_ago() {
    assert_eq!(select_base_time(2, 14), BaseSlot { days_back: 1, hour: 23 });
    assert_eq!(select_base_time(2, 15), BaseSlot { days_back: 0, hour: 2 });
    assert_eq!(select_base_time(0, 0), BaseSlot { days_back: 1, hour: 23 });
    assert_eq!(select_base_time(5, 14), BaseSlot { days_back: 0, hour: 2 });
    assert_eq!(select_base_time(5, 15), BaseSlot { days_back: 0, hour: 5 });
    assert_eq!(select_base_time(12, 0), BaseSlot { days_back: 0, hour: 11 });
    assert_eq!(select_base_time(23, 14), BaseSlot { days_back: 0, hour: 20 });
    assert_eq!(select_base_time(23, 15), BaseSlot { days_back: 0, hour: 23 });
    assert_eq!(select_base_time(23, 59), BaseSlot { days_back: 0, hour: 23 });
}

#[test]
fn base_time_over_a_whole_day() {
    for hour in 0..24u32 {
        for minute in 0..60u32 {
            let slot = select_base_time(hour, minute);
            let now = (hour * 60 + minute) as i64;
            let mut expected: Option<(u32, u32)> = None;
            for days_back in [0u32, 1] {
                for h in [23u32, 20, 17, 14, 11, 8, 5, 2] {
                    let since = now + (days_back as i64) * 1440 - (h as i64) * 60;
                    if since >= 15 && expected.is_none() {
                        expected = Some((days_back, h));
                    }
                }
            }
            assert_eq!(Some((slot.days_back, slot.hour)), expected, "{}:{}", hour, minute);
        }
    }
}

#[test]
fn base_date_of_today() {
    let (date, time) = base_date_at(at(2024, 3, 1, 12, 30)).unwrap();
    assert_eq!(date, "20240301");
    assert_eq!(time, "1100");
}

#[test]
fn base_date_of_the_day_before() {
    let (date, time) = base_date_at(at(2024, 3, 1, 0, 30)).unwrap();
    assert_eq!(date, "20240229");
    assert_eq!(time, "2300");
    let (date, _) = base_date_at(at(2023, 3, 1, 1, 0)).unwrap();
    assert_eq!(date, "20230228");
    let (date, time) = base_date_at(at(2025, 1, 1, 2, 14)).unwrap();
    assert_eq!(date, "20241231");
    assert_eq!(time, "2300");
    let (date, _) = base_date_at(at(2024, 5, 1, 2, 0)).unwrap();
    assert_eq!(date, "20240430");
}

#[test]
fn base_date_without_a_day_before() {
    assert_eq!(base_date_at(at(2024, 2, 30, 0, 0)), Err(BaseDateError::NoPreviousDay));
    assert!(base_date_at(at(2024, 2, 30, 12, 0)).is_ok());
}

#[test]
fn base_date_of_now_is_a_date_and_a_run() {
    let (date, time) = get_base_date().unwrap();
    assert_eq!(date.len(), 8);
    assert!(date.chars().all(|c| c.is_ascii_digit()));
    assert!(["0200", "0500", "0800", "1100", "1400", "1700", "2000", "2300"].contains(&time.as_str()));
}

#[test]
fn date_and_time_texts() {
    assert_eq!(format_base_date(2024, 3, 1), "20240301");
    assert_eq!(format_base_date(987, 12, 31), "09871231");
    assert_eq!(format_base_date(12345, 1, 2), "123450102");
    assert_eq!(format_base_date(-5, 1, 2), format!("{:04}{:02}{:02}", -5, 1, 2));
    assert_eq!(format_base_date(0, 10, 10), "00001010");
    assert_eq!(format_base_time(2), "0200");
    assert_eq!(format_base_time(23), "2300");
    assert_eq!(zero_padded_string(7, 3), "007");
    assert_eq!(zero_padded_string(1234, 3), "1234");
    assert_eq!(zero_padded_string(0, 0), "0");
    assert_eq!(format_base_date(i32::MIN, 1, 1), format!("{:04}{:02}{:02}", i32::MIN, 1, 1));
}

#[test]
fn retry_policy() {
    assert_eq!(query_kma(0, 3, true), RetryAction::Return);
    assert_eq!(query_kma(0, 3, false), RetryAction::RetryAfter { millis: 300 });
    assert_eq!(query_kma(1, 3, false), RetryAction::RetryAfter { millis: 300 });
    assert_eq!(query_kma(2, 3, false), RetryAction::GiveUp);
    assert_eq!(query_kma(2, 3, true), RetryAction::Return);
    assert_eq!(query_kma(0, 1, false), RetryAction::GiveUp);
    assert_eq!(query_kma(u32::MAX - 1, u32::MAX, false), RetryAction::GiveUp);
}

#[test]
fn amounts() {
    assert_eq!(rain_amount("강수없음"), Some("0.0".to_string()));
    assert_eq!(rain_amount("1.0mm"), Some("1.0".to_string()));
    assert_eq!(rain_amount("30.0~50.0mm"), Some("30.0~50.0".to_string()));
    assert_eq!(rain_amount("mm"), Some("".to_string()));
    assert_eq!(rain_amount("m"), None);
    assert_eq!(rain_amount(""), None);
    assert_eq!(rain_amount("1mm 미만"), None);
    assert_eq!(rain_amount("5§"), Some("5".to_string()));
    assert_eq!(
        rain_amounts(&vec!["1.0mm".to_string(), "강수없음".to_string()]),
        Some(vec!["1.0".to_string(), "0.0".to_string()])
    );
    assert_eq!(rain_amounts(&vec!["1.0mm".to_string(), "x".to_string()]), None);
    assert_eq!(rain_amounts(&vec![]), Some(vec![]));
    assert_eq!(rain_probabilities(&vec!["30".to_string(), "".to_string()]), vec!["30%", "%"]);
}

#[test]
fn labels() {
    assert_eq!(forecast_date_label("20240301"), Some("03/01".to_string()));
    assert_eq!(forecast_date_label("202403"), Some("03/".to_string()));
    assert_eq!(forecast_date_label("20240"), None);
    assert_eq!(forecast_date_label("2024가301"), None);
    assert_eq!(forecast_time_label("0600"), Some("06:00".to_string()));
    assert_eq!(forecast_time_label("06"), Some("06:".to_string()));
    assert_eq!(forecast_time_label("0"), None);
}

#[test]
fn a_category_shows_its_first_twelve_values() {
    let mut items = Vec::new();
    for i in 0..20 {
        items.push(item("POP", "20240301", "0600", &format!("{}", i)));
        items.push(item("TMP", "20240301", "0600", "x"));
    }
    let values = collect_category(&items, "POP");
    assert_eq!(values.len(), 12);
    assert_eq!(values[0], "0");
    assert_eq!(values[11], "11");
    assert_eq!(collect_category(&items, "TMP").len(), 12);
    assert!(collect_category(&items, "PCP").is_empty());
    assert_eq!(collect_category(&items[..6].to_vec(), "POP"), vec!["0", "1", "2"]);
}

#[test]
fn report() {
    let items = vec![
        item("TMP", "20240301", "0600", "3"),
        item("POP", "20240301", "0600", "30"),
        item("PCP", "20240301", "0600", "강수없음"),
        item("POP", "20240301", "0700", "60"),
        item("PCP", "20240301", "0700", "1.0mm"),
    ];
    assert_eq!(
        get_weather(&items),
        Some(
            "관악구청 기준, 03/01 06:00 이후 12시간 동안\n        강수확률: [30%, 60%]\n        강수량(mm): [0.0, 1.0]"
                .to_string()
        )
    );
}

#[test]
fn no_report_where_the_forecast_cannot_be_read() {
    assert_eq!(get_weather(&vec![]), None);
    assert_eq!(get_weather(&vec![item("PCP", "20240301", "0600", "1mm 미만")]), None);
    assert_eq!(get_weather(&vec![item("POP", "2024", "0600", "1")]), None);
    assert_eq!(get_weather(&vec![item("POP", "20240301", "", "1")]), None);
    let mut items = Vec::new();
    for _ in 0..12 {
        items.push(item("PCP", "20240301", "0600", "1.0mm"));
    }
    items.push(item("PCP", "20240301", "0600", "1mm 미만"));
    assert!(get_weather(&items).is_some());
    assert_eq!(
        get_weather(&vec![item("TMP", "20240301", "0600", "3")]),
        Some("관악구청 기준, 03/01 06:00 이후 12시간 동안\n        강수확률: []\n        강수량(mm): []".to_string())
    );
}

#[test]
fn item_clone() {
    let i = item("POP", "20240301", "0600", "30").clone();
    assert_eq!(i.category, "POP");
    assert_eq!(i.fcstValue, "30");
    assert_eq!((i.nx, i.ny), (59, 125));
}
