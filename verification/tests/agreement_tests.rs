//! The library's own readings compared with the std, regex and chrono
//! behaviour they stand for, over inputs chosen to reach their edges.
use chrono::{DateTime, Datelike, Utc};
use regex::Regex;
use telefax::clock::{elapsed_nanos, Timestamp};
use telefax::config::parse_guest_flag;
use telefax::handlers::parse_copies;
use telefax::text::{chars_of, string_from_chars, trim};

fn regex_copies(caption: Option<&str>, max_copies: usize) -> usize {
    let re_x = Regex::new(r"(?i)^x(\d+)$").unwrap();
    let re_copies = Regex::new(r"(?i)^copies\s*=\s*(\d+)$").unwrap();
    let caption = caption.map(|s| s.trim().to_lowercase()).unwrap_or_default();
    if caption.is_empty() {
        return 1;
    }
    for re in [&re_x, &re_copies] {
        if let Some(caps) = re.captures(&caption) {
            if let Ok(n) = caps[1].parse::<usize>() {
                return if (1..=max_copies).contains(&n) { n } else { 1 };
            }
        }
    }
    1
}

#[test]
fn caption_grammar_agrees_with_the_patterns() {
    let captions = [
        "", " ", "x", "X", "x0", "x1", "x3", "X3", " x5 ", "x100", "x101", "x007", "x+3", "x-3",
        "x 3", "xx3", "x3x", "x\u{0663}", "x1\u{0663}", "x\u{ff13}", "x99999999999999999999999",
        "copies=5", "COPIES=5", "copies = 7", "Copies\t=\u{3000}12", "copie\u{17F}=4",
        "COPIE\u{17F}=4", "copies=", "copies=x", "copies==5", "copies = 5 6", "copiesx=4",
        "copy=4", "copies=\u{0663}", "\u{212A}3", "cop\u{130}es=3", "\u{130}", "hello world",
        "print 3 copies", "x3 extra", "\u{a0}x4\u{2029}", "copies\u{85}=\u{85}9",
    ];
    for max in [0usize, 1, 7, 100] {
        for caption in captions {
            assert_eq!(
                parse_copies(Some(caption), max),
                regex_copies(Some(caption), max),
                "{:?} max {}",
                caption,
                max
            );
        }
        assert_eq!(parse_copies(None, max), regex_copies(None, max));
    }
}

#[test]
fn guest_flag_agrees_with_lowercase_comparison() {
    for v in ["true", "TRUE", "True ", " 1", "yes", "YES", "yE\u{17F}", "ye\u{17F}", "\u{130}", "no", "", "tru", "truee", "\u{212A}"] {
        let expected = matches!(v.to_lowercase().trim(), "true" | "1" | "yes");
        assert_eq!(parse_guest_flag(&chars_of(v)), expected, "{:?}", v);
    }
}

#[test]
fn trim_agrees_with_str_trim() {
    let all_white: String = (0u32..0x3001).filter_map(char::from_u32).filter(|c| c.is_whitespace()).collect();
    let text = format!("{}a\u{200b}b{}", all_white, all_white);
    assert_eq!(string_from_chars(&trim(&chars_of(&text))), text.trim());
}

#[test]
fn utc_date_agrees_with_chrono() {
    for seconds in [0i64, 1, 86399, 86400, -1, -86400, -86401, 1_736_935_200, -62_135_596_800, 253_402_300_799] {
        let t = Timestamp { seconds, nanos: 0 };
        let chrono_day = DateTime::<Utc>::from_timestamp(seconds, 0).unwrap().date_naive().num_days_from_ce();
        assert_eq!(t.utc_date().day_number, chrono_day as i64, "{}", seconds);
    }
}

#[test]
fn elapsed_time_agrees_with_chrono() {
    let texts = [
        "2016-12-31T23:59:60.5Z",
        "2016-12-31T23:59:59Z",
        "2017-01-01T00:00:00Z",
        "2017-01-01T00:00:00.25Z",
        "2025-01-15T10:30:60Z",
        "2025-01-15T10:30:59.75Z",
        "2025-01-15T10:31:00Z",
        "2025-01-15T09:00:00Z",
        "2025-01-22T10:30:60.1+02:00",
        "1960-03-01T00:00:00Z",
        "1969-12-31T23:59:60.999Z",
    ];
    let instants: Vec<DateTime<Utc>> = texts
        .iter()
        .map(|t| DateTime::parse_from_rfc3339(t).unwrap().with_timezone(&Utc))
        .collect();
    for a in &instants {
        for b in &instants {
            let ta = Timestamp { seconds: a.timestamp(), nanos: a.timestamp_subsec_nanos() };
            let tb = Timestamp { seconds: b.timestamp(), nanos: b.timestamp_subsec_nanos() };
            let chrono_nanos = (*b - *a).num_nanoseconds().unwrap() as i128;
            assert_eq!(elapsed_nanos(ta, tb), chrono_nanos, "{} -> {}", a, b);
        }
    }
}
