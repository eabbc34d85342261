//! The FRED CSV grammar and series accessors.

use ruvector_layoff_trap::data::calendar::month_number_of;
use ruvector_layoff_trap::data::{
    fred_csv_url, parse_fred_csv, DataError, MacroSnapshot, Observation, Sample, Series,
    SERIES_IDS,
};

fn value_of(o: &Observation) -> f64 {
    match o {
        Observation::Missing => f64::NAN,
        Observation::Reported(text) => text.parse::<f64>().unwrap_or(f64::NAN),
    }
}

fn reported(text: &str) -> Observation {
    Observation::Reported(text.to_string())
}

#[test]
fn parses_minimal_fred_csv() {
    let body = "observation_date,PAYEMS\n2024-01-01,158000\n2024-02-01,158100\n";
    let s = parse_fred_csv("PAYEMS", body).unwrap();
    assert_eq!(s.id, "PAYEMS");
    assert_eq!(s.samples.len(), 2);
    assert_eq!(s.latest_value().map(value_of), Some(158100.0));
}

#[test]
fn tolerates_missing() {
    let body = "observation_date,GDP\n2024-01-01,.\n2024-04-01,28000\n";
    let s = parse_fred_csv("GDP", body).unwrap();
    assert!(value_of(&s.samples[0].value).is_nan());
    assert_eq!(value_of(&s.samples[1].value), 28000.0);
}

#[test]
fn parse_keeps_dates_and_text_exactly() {
    let body = "observation_date,UNRATE\n2024-01-01,3.7\n2024-02-01,3.9\n";
    let s = parse_fred_csv("UNRATE", body).unwrap();
    assert_eq!(
        s.samples,
        vec![
            Sample { date: "2024-01-01".to_string(), value: reported("3.7") },
            Sample { date: "2024-02-01".to_string(), value: reported("3.9") },
        ]
    );
}

#[test]
fn parse_all_placeholders_are_missing() {
    let body = "h\na,.\nb,NA\nc,\nd\ne,NaN\nf,na\n";
    let s = parse_fred_csv("X", body).unwrap();
    assert_eq!(s.samples.len(), 6);
    assert_eq!(s.samples[0].value, Observation::Missing);
    assert_eq!(s.samples[1].value, Observation::Missing);
    assert_eq!(s.samples[2].value, Observation::Missing);
    // A line without a comma has an empty value field.
    assert_eq!(s.samples[3].value, Observation::Missing);
    // Only the three placeholders stand for a missing value.
    assert_eq!(s.samples[4].value, reported("NaN"));
    assert_eq!(s.samples[5].value, reported("na"));
}

#[test]
fn parse_trims_fields_and_handles_crlf() {
    let body = "observation_date,GDP\r\n  2024-01-01 ,\t28000.5  \r\n2024-04-01,\u{a0}29000\u{3000}\r\n";
    let s = parse_fred_csv("GDP", body).unwrap();
    assert_eq!(s.samples.len(), 2);
    assert_eq!(s.samples[0].date, "2024-01-01");
    assert_eq!(s.samples[0].value, reported("28000.5"));
    assert_eq!(s.samples[1].value, reported("29000"));
}

#[test]
fn parse_skips_header_and_blank_dates() {
    // The header is skipped even when it looks like data; lines whose
    // date field is empty are dropped.
    let body = "2020-01-01,1\n\n   ,5\n,6\n2020-02-01,2";
    let s = parse_fred_csv("X", body).unwrap();
    assert_eq!(s.samples.len(), 1);
    assert_eq!(s.samples[0].date, "2020-02-01");
    assert_eq!(s.samples[0].value, reported("2"));
}

#[test]
fn parse_ignores_columns_after_the_second() {
    let body = "h\n2020-01-01,7,8,9\n";
    let s = parse_fred_csv("X", body).unwrap();
    assert_eq!(s.samples[0].value, reported("7"));
}

#[test]
fn parse_final_line_ending_is_optional() {
    let a = parse_fred_csv("X", "h\n2020-01-01,1\n2020-02-01,2").unwrap();
    let b = parse_fred_csv("X", "h\n2020-01-01,1\n2020-02-01,2\n").unwrap();
    assert_eq!(a, b);
}

#[test]
fn parse_without_rows_is_an_error() {
    assert_eq!(
        parse_fred_csv("PAYEMS", "observation_date,PAYEMS\n"),
        Err(DataError::NoRows { id: "PAYEMS".to_string() })
    );
    assert_eq!(
        parse_fred_csv("GDP", ""),
        Err(DataError::NoRows { id: "GDP".to_string() })
    );
    assert_eq!(
        parse_fred_csv("GDP", "only a header"),
        Err(DataError::NoRows { id: "GDP".to_string() })
    );
}

#[test]
fn latest_of_empty_series_is_none() {
    let s = Series { id: "X".to_string(), samples: vec![] };
    assert!(s.latest().is_none());
    assert!(s.latest_value().is_none());
}

#[test]
fn latest_is_the_last_sample() {
    let s = parse_fred_csv("X", "h\n2020-01-01,1\n2020-02-01,.\n").unwrap();
    assert_eq!(s.latest().unwrap().date, "2020-02-01");
    assert_eq!(s.latest_value(), Some(&Observation::Missing));
}

#[test]
fn fred_url_names_the_series() {
    assert_eq!(
        fred_csv_url("PAYEMS"),
        "https://fred.stlouisfed.org/graph/fredgraph.csv?id=PAYEMS"
    );
    assert_eq!(
        fred_csv_url(SERIES_IDS[5]),
        "https://fred.stlouisfed.org/graph/fredgraph.csv?id=CES0500000003"
    );
}

fn series(id: &str, body: &str) -> Series {
    parse_fred_csv(id, body).unwrap()
}

fn empty(id: &str) -> Series {
    Series { id: id.to_string(), samples: vec![] }
}

fn full_snapshot() -> MacroSnapshot {
    MacroSnapshot {
        payems: series("PAYEMS", "h\n2024-01-01,158000\n"),
        wascur: series("WASCUR", "h\n2023-10-01,11000\n2024-01-01,11200\n"),
        pcec: series("PCEC", "h\n2024-01-01,19000\n"),
        gdp: series("GDP", "h\n2024-01-01,28000\n"),
        unrate: series("UNRATE", "h\n2024-01-01,3.7\n"),
        ahetpi: series("CES0500000003", "h\n2024-01-01,34.5\n"),
    }
}

#[test]
fn latest_readings_of_full_snapshot() {
    let r = full_snapshot().latest_readings().unwrap();
    assert_eq!(r.date, "2024-01-01");
    assert_eq!(r.wages, reported("11200"));
    assert_eq!(r.pce, reported("19000"));
    assert_eq!(r.gdp, reported("28000"));
    assert_eq!(r.unrate, reported("3.7"));
    assert_eq!(r.payems, reported("158000"));
    assert_eq!(r.ahe, reported("34.5"));
}

#[test]
fn latest_readings_name_first_empty_series() {
    let mut snap = full_snapshot();
    snap.ahetpi = empty("CES0500000003");
    assert_eq!(
        snap.latest_readings(),
        Err(DataError::NoValue { series: "AHETPI".to_string() })
    );
    snap.gdp = empty("GDP");
    assert_eq!(
        snap.latest_readings(),
        Err(DataError::NoValue { series: "GDP".to_string() })
    );
    snap.wascur = empty("WASCUR");
    assert_eq!(
        snap.latest_readings(),
        Err(DataError::NoValue { series: "WASCUR".to_string() })
    );
}

fn monthly(n: usize) -> Series {
    let mut body = String::from("observation_date,X\n");
    for i in 0..n {
        body.push_str(&format!("2020-{:02}-01,{}\n", i + 1, 100 + i));
    }
    parse_fred_csv("X", &body).unwrap()
}

#[test]
fn tail_takes_the_last_samples() {
    let s = monthly(5);
    let t = s.tail(2);
    assert_eq!(t.len(), 2);
    assert_eq!(t[0].value, reported("103"));
    assert_eq!(t[1].value, reported("104"));
    assert_eq!(s.tail(9).len(), 5);
    assert_eq!(s.tail(0).len(), 0);
}

fn quarterly(n: usize) -> Series {
    let mut body = String::from("observation_date,GDP\n");
    for i in 0..n {
        let year = 2020 + i / 4;
        let month = 1 + 3 * (i % 4);
        body.push_str(&format!("{}-{:02}-01,{}\n", year, month, 200 + i));
    }
    parse_fred_csv("GDP", &body).unwrap()
}

#[test]
fn year_over_year_pair_of_quarterly_series() {
    assert!(quarterly(4).year_over_year_pair().is_none());
    let s = quarterly(5);
    let (latest, year_ago) = s.year_over_year_pair().unwrap();
    assert_eq!(latest, &reported("204"));
    assert_eq!(year_ago, &reported("200"));
    assert_eq!(s.samples[0].date, "2020-01-01");
    assert_eq!(s.samples[4].date, "2021-01-01");
    // A long quarterly series still looks back four quarters, not twelve.
    let s = quarterly(20);
    let (latest, year_ago) = s.year_over_year_pair().unwrap();
    assert_eq!(latest, &reported("219"));
    assert_eq!(year_ago, &reported("215"));
}

#[test]
fn year_over_year_pair_needs_a_regular_quarterly_run() {
    // Five samples whose dates are not three months apart are not quarterly.
    let body = "h\n2020-01-01,1\n2020-04-01,2\n2020-07-01,3\n2020-11-01,4\n2021-01-01,5\n";
    assert!(parse_fred_csv("X", body).unwrap().year_over_year_pair().is_none());
    // Dates that are not ISO dates do not make a quarterly run.
    let body = "h\nQ1,1\nQ2,2\nQ3,3\nQ4,4\nQ5,5\n";
    assert!(parse_fred_csv("X", body).unwrap().year_over_year_pair().is_none());
}

#[test]
fn year_over_year_pair_needs_thirteen_samples() {
    assert!(monthly(12).year_over_year_pair().is_none());
    let s = monthly(14);
    let (latest, year_ago) = s.year_over_year_pair().unwrap();
    assert_eq!(latest, &reported("113"));
    assert_eq!(year_ago, &reported("101"));
}

#[test]
fn written_rows_read_back() {
    let rows = [("2024-01-01", "158000"), ("2024-02-01", "."), ("2024-03-01", "NA"), ("2024-04-01", "")];
    let mut body = String::from("observation_date,PAYEMS\n");
    for (d, v) in rows.iter() {
        body.push_str(&format!("{},{}\n", d, v));
    }
    let s = parse_fred_csv("PAYEMS", &body).unwrap();
    assert_eq!(
        s.samples,
        vec![
            Sample { date: "2024-01-01".to_string(), value: reported("158000") },
            Sample { date: "2024-02-01".to_string(), value: Observation::Missing },
            Sample { date: "2024-03-01".to_string(), value: Observation::Missing },
            Sample { date: "2024-04-01".to_string(), value: Observation::Missing },
        ]
    );
}

#[test]
fn month_numbers_of_iso_dates() {
    assert_eq!(month_number_of(&"2024-01-01".to_string()), Some(12 * 2024));
    assert_eq!(month_number_of(&"2024-04-15".to_string()), Some(12 * 2024 + 3));
    assert_eq!(month_number_of(&"2024-13-01".to_string()), None);
    assert_eq!(month_number_of(&"2024-1-01".to_string()), None);
    assert_eq!(month_number_of(&"2024/01/01".to_string()), None);
}
