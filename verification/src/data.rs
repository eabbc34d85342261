//! FRED series: the `fredgraph.csv` grammar, series, and macro snapshots.
//!
//! FRED's `fredgraph.csv` export returns an `observation_date,VALUE` header
//! followed by one `date,value` row per observation. FRED writes "." for a
//! missing observation. The numeric text of an observation is kept as
//! written; turning it into a number is left to the caller.

use vstd::prelude::*;

use self::grammar::SampleView;
use self::text::{chars_of, find_in, push_char, string_of, trim_range};

pub mod calendar;
pub mod grammar;
mod text;

verus! {

// ---------------------------------------------------------------------------
// Values
// ---------------------------------------------------------------------------

/// One observation of a series.
#[derive(Debug, Clone, PartialEq)]
pub enum Observation {
    /// FRED's placeholder for a missing observation ("", "." or "NA").
    Missing,
    /// The value as FRED wrote it, with surrounding whitespace removed.
    Reported(String),
}

impl View for Observation {
    type V = Option<Seq<char>>;

    open spec fn view(&self) -> Option<Seq<char>> {
        match self {
            Observation::Missing => None,
            Observation::Reported(text) => Some(text@),
        }
    }
}

/// One (date, value) sample from a time series.
#[derive(Debug, Clone, PartialEq)]
pub struct Sample {
    /// ISO-8601 date, YYYY-MM-DD.
    pub date: String,
    pub value: Observation,
}

impl View for Sample {
    type V = SampleView;

    open spec fn view(&self) -> SampleView {
        SampleView { date: self.date@, value: self.value@ }
    }
}

/// A full FRED series after fetch and parse.
#[derive(Debug, Clone, PartialEq)]
pub struct Series {
    pub id: String,
    pub samples: Vec<Sample>,
}

impl Series {
    /// The samples, in file order, by their views.
    pub open spec fn samples_view(&self) -> Seq<SampleView> {
        self.samples@.map_values(|s: Sample| s@)
    }
}

/// Why data could not be had.
#[derive(Debug, Clone, PartialEq)]
pub enum DataError {
    /// The CSV body of the series `id` held no data row.
    NoRows { id: String },
    /// The series `series` of a snapshot holds no sample.
    NoValue { series: String },
}

// ---------------------------------------------------------------------------
// Parsing
// ---------------------------------------------------------------------------

/// The observation that the value field `text[lo..hi]` stands for.
fn observation_in(text: &Vec<char>, lo: usize, hi: usize) -> (o: Observation)
    requires
        lo <= hi <= text@.len(),
    ensures
        o@ == grammar::observation_of(text@.subrange(lo as int, hi as int)),
{
    let ghost raw = text@.subrange(lo as int, hi as int);
    if hi == lo {
        assert(raw =~= Seq::<char>::empty());
        Observation::Missing
    } else if hi - lo == 1 && text[lo] == '.' {
        assert(raw =~= seq!['.']);
        Observation::Missing
    } else if hi - lo == 2 && text[lo] == 'N' && text[lo + 1] == 'A' {
        assert(raw =~= seq!['N', 'A']);
        Observation::Missing
    } else {
        assert(raw.len() == hi - lo);
        assert(raw != Seq::<char>::empty());
        assert(raw != seq!['.']) by {
            if raw == seq!['.'] {
                assert(seq!['.'].len() == 1);
                assert(raw[0] == text@[lo as int]);
            }
        }
        assert(raw != seq!['N', 'A']) by {
            if raw == seq!['N', 'A'] {
                assert(seq!['N', 'A'].len() == 2);
                assert(raw[0] == text@[lo as int]);
                assert(raw[1] == text@[lo + 1]);
            }
        }
        Observation::Reported(string_of(text, lo, hi))
    }
}


/// Bounds of the first line of `text[pos..n]` and where the rest begins.
fn next_line(text: &Vec<char>, pos: usize) -> (r: (usize, usize))
    requires
        pos < text@.len(),
    ensures
        pos <= r.0 <= text@.len(),
        pos < r.1 <= text@.len(),
        text@.subrange(pos as int, r.0 as int) == grammar::first_line(
            text@.subrange(pos as int, text@.len() as int),
        ),
        text@.subrange(r.1 as int, text@.len() as int) == grammar::after_first_line(
            text@.subrange(pos as int, text@.len() as int),
        ),
{
    let n = text.len();
    let ghost s = text@.subrange(pos as int, n as int);
    let e = find_in(text, pos, n, '\n');
    let line_end = if e < n && e > pos && text[e - 1] == '\r' {
        e - 1
    } else {
        e
    };
    assert(text@.subrange(pos as int, line_end as int) =~= grammar::first_line(s));
    if e < n {
        assert(text@.subrange(e + 1, n as int) =~= grammar::after_first_line(s));
        (line_end, e + 1)
    } else {
        assert(text@.subrange(n as int, n as int) =~= grammar::after_first_line(s));
        (line_end, n)
    }
}

/// The samples that the line `text[lo..hi]` holds.
fn row_in(text: &Vec<char>, lo: usize, hi: usize) -> (row: Option<Sample>)
    requires
        lo <= hi <= text@.len(),
    ensures
        grammar::row_of_line(text@.subrange(lo as int, hi as int)) == match row {
            Some(sample) => seq![sample@],
            None => Seq::<SampleView>::empty(),
        },
{
    let ghost line = text@.subrange(lo as int, hi as int);
    let c = find_in(text, lo, hi, ',');
    assert(line.subrange(0, (c - lo) as int) =~= text@.subrange(lo as int, c as int));
    let (da, db) = trim_range(text, lo, c);
    if da == db {
        return None;
    }
    let date = string_of(text, da, db);
    let value = if c < hi {
        let ghost rest = line.subrange(c - lo + 1, line.len() as int);
        assert(rest =~= text@.subrange(c + 1, hi as int));
        let c2 = find_in(text, c + 1, hi, ',');
        assert(rest.subrange(0, (c2 - (c + 1)) as int) =~= text@.subrange(c + 1, c2 as int));
        let (va, vb) = trim_range(text, c + 1, c2);
        observation_in(text, va, vb)
    } else {
        assert(grammar::value_field(line) =~= text@.subrange(hi as int, hi as int));
        observation_in(text, hi, hi)
    };
    Some(Sample { date, value })
}

/// Parse the body of a FRED `fredgraph.csv` export of series `id`.
///
/// The first line is the header and is skipped. Each further line gives a
/// sample from its first two comma-separated columns, trimmed: the date,
/// then the value, where "", "." and "NA" stand for a missing observation.
/// Lines with an empty date are skipped. A body without any sample is an
/// error.
pub fn parse_fred_csv(id: &str, body: &str) -> (res: Result<Series, DataError>)
    ensures
        match res {
            Ok(series) => {
                &&& series.id@ == id@
                &&& series.samples_view() == grammar::fred_samples(body@)
                &&& grammar::fred_samples(body@).len() > 0
            },
            Err(DataError::NoRows { id: missing }) => {
                &&& missing@ == id@
                &&& grammar::fred_samples(body@).len() == 0
            },
            Err(_) => false,
        },
{
    let text = chars_of(body);
    let n = text.len();
    let ghost t = text@;
    let h = find_in(&text, 0, n, '\n');
    let mut pos = if h < n {
        h + 1
    } else {
        n
    };
    assert(t.subrange(0, n as int) =~= t);
    assert(t.subrange(pos as int, n as int) =~= grammar::after_first_line(t));
    let mut samples: Vec<Sample> = Vec::new();
    while pos < n
        invariant
            pos <= n == t.len(),
            text@ == t,
            t == body@,
            grammar::fred_samples(body@) == samples@.map_values(|s: Sample| s@) + grammar::data_rows(
                t.subrange(pos as int, n as int),
            ),
        decreases n - pos,
    {
        let ghost before = samples@.map_values(|s: Sample| s@);
        let ghost rest = t.subrange(pos as int, n as int);
        let (line_end, next) = next_line(&text, pos);
        let row = row_in(&text, pos, line_end);
        match row {
            Some(sample) => {
                let ghost v = sample@;
                samples.push(sample);
                assert(samples@.map_values(|s: Sample| s@) =~= before.push(v));
                assert(before.push(v) + grammar::data_rows(t.subrange(next as int, n as int)) =~= before + (
                seq![v] + grammar::data_rows(t.subrange(next as int, n as int))));
            },
            None => {
                assert(before + grammar::data_rows(t.subrange(next as int, n as int)) =~= before + (
                Seq::<SampleView>::empty() + grammar::data_rows(t.subrange(next as int, n as int))));
            },
        }
        pos = next;
    }
    assert(t.subrange(n as int, n as int) =~= Seq::<char>::empty());
    assert(samples@.map_values(|s: Sample| s@) + Seq::<SampleView>::empty() =~= samples@.map_values(
        |s: Sample| s@,
    ));
    if samples.len() == 0 {
        Err(DataError::NoRows { id: id.to_owned() })
    } else {
        Ok(Series { id: id.to_owned(), samples })
    }
}

// ---------------------------------------------------------------------------
// Series and snapshots
// ---------------------------------------------------------------------------

/// The FRED series that a snapshot gathers, in the order they are fetched:
/// PAYEMS, WASCUR, PCEC, GDP, UNRATE and average hourly earnings (private).
pub const SERIES_IDS: [&'static str; 6] = ["PAYEMS", "WASCUR", "PCEC", "GDP", "UNRATE", "CES0500000003"];

/// The export address that serves a series as `fredgraph.csv`.
pub open spec fn fred_csv_url_spec(id: Seq<char>) -> Seq<char> {
    "https://fred.stlouisfed.org/graph/fredgraph.csv?id="@ + id
}

/// The export address is the fixed 51-character prefix followed by the
/// whole id, for ids of any length: its length is the prefix's plus the
/// id's, it ends with the id, and distinct ids give distinct addresses.
pub proof fn lemma_fred_csv_url_holds_whole_id(id: Seq<char>, other: Seq<char>)
    ensures
        fred_csv_url_spec(id).len() == 51 + id.len(),
        fred_csv_url_spec(id).subrange(0, 51) == "https://fred.stlouisfed.org/graph/fredgraph.csv?id="@,
        fred_csv_url_spec(id).subrange(51, fred_csv_url_spec(id).len() as int) == id,
        fred_csv_url_spec(id) == fred_csv_url_spec(other) ==> id == other,
{
    reveal_strlit("https://fred.stlouisfed.org/graph/fredgraph.csv?id=");
    let p = "https://fred.stlouisfed.org/graph/fredgraph.csv?id="@;
    assert(p.len() == 51);
    assert((p + id).subrange(0, 51) =~= p);
    assert((p + id).subrange(51, 51 + id.len() as int) =~= id);
    assert((p + other).subrange(51, 51 + other.len() as int) =~= other);
}

/// The unauthenticated `fredgraph.csv` export address of series `id`.
pub fn fred_csv_url(id: &str) -> (url: String)
    ensures
        url@ == fred_csv_url_spec(id@),
        url@.len() == 51 + id@.len(),
        url@.subrange(51, url@.len() as int) == id@,
{
    proof {
        lemma_fred_csv_url_holds_whole_id(id@, id@);
    }
    let mut url = "https://fred.stlouisfed.org/graph/fredgraph.csv?id=".to_owned();
    let chars = chars_of(id);
    let ghost prefix = url@;
    let mut i: usize = 0;
    while i < chars.len()
        invariant
            i <= chars@.len(),
            chars@ == id@,
            prefix == "https://fred.stlouisfed.org/graph/fredgraph.csv?id="@,
            url@ == prefix + chars@.subrange(0, i as int),
        decreases chars@.len() - i,
    {
        push_char(&mut url, chars[i]);
        assert(prefix + chars@.subrange(0, i + 1) =~= (prefix + chars@.subrange(0, i as int)).push(
            chars@[i as int],
        ));
        i = i + 1;
    }
    assert(chars@.subrange(0, chars@.len() as int) =~= chars@);
    url
}

fn clone_observation(o: &Observation) -> (c: Observation)
    ensures
        c@ == o@,
{
    match o {
        Observation::Missing => Observation::Missing,
        Observation::Reported(text) => Observation::Reported(text.clone()),
    }
}

impl Series {
    /// The most recent sample, if any.
    pub fn latest(&self) -> (s: Option<&Sample>)
        ensures
            self.samples@.len() == 0 ==> s is None,
            self.samples@.len() > 0 ==> s == Some(&self.samples@.last()),
    {
        if self.samples.len() == 0 {
            None
        } else {
            Some(&self.samples[self.samples.len() - 1])
        }
    }

    /// The last `n` samples, or all of them where there are fewer.
    pub fn tail(&self, n: usize) -> (t: &[Sample])
        ensures
            self.samples@.len() <= n ==> t@ == self.samples@,
            self.samples@.len() > n ==> t@ == self.samples@.subrange(
                self.samples@.len() - n,
                self.samples@.len() as int,
            ),
    {
        let len = self.samples.len();
        let start = if len > n {
            len - n
        } else {
            0
        };
        let all = self.samples.as_slice();
        let t = &all[start..len];
        assert(self.samples@.subrange(0, len as int) =~= self.samples@);
        t
    }

    /// The latest five samples fall three months apart, one after another.
    fn ends_quarterly(&self) -> (q: bool)
        ensures
            q == calendar::ends_quarterly(self.samples_view()),
    {
        let n = self.samples.len();
        let ghost v = self.samples_view();
        if n < 5 {
            return false;
        }
        let mut i = n - 5;
        while i < n - 1
            invariant
                n == self.samples@.len() == v.len(),
                v == self.samples_view(),
                n >= 5,
                n - 5 <= i <= n - 1,
                forall|j: int| n - 5 <= j < i ==> calendar::three_months_apart(
                    #[trigger] v[j].date,
                    v[j + 1].date,
                ),
            decreases n - 1 - i,
        {
            let a = calendar::month_number_of(&self.samples[i].date);
            let b = calendar::month_number_of(&self.samples[i + 1].date);
            assert(v[i as int].date == self.samples@[i as int].date@);
            assert(v[i + 1].date == self.samples@[i + 1].date@);
            match (a, b) {
                (Some(x), Some(y)) => {
                    if x > y || y - x != 3 {
                        return false;
                    }
                },
                _ => {
                    return false;
                },
            }
            i = i + 1;
        }
        true
    }

    /// The latest observation and the one a year before it: four samples
    /// back where the series ends in a quarterly run (see
    /// `calendar::ends_quarterly`), otherwise twelve samples back as in
    /// monthly data. `None` where the series holds too few samples for
    /// either.
    pub fn year_over_year_pair(&self) -> (p: Option<(&Observation, &Observation)>)
        ensures
            calendar::ends_quarterly(self.samples_view()) ==> p == Some(
                (
                    &self.samples@[self.samples@.len() - 1].value,
                    &self.samples@[self.samples@.len() - 5].value,
                ),
            ),
            !calendar::ends_quarterly(self.samples_view()) && self.samples@.len() >= 13 ==> p
                == Some(
                (
                    &self.samples@[self.samples@.len() - 1].value,
                    &self.samples@[self.samples@.len() - 13].value,
                ),
            ),
            !calendar::ends_quarterly(self.samples_view()) && self.samples@.len() < 13 ==> p is None,
    {
        let n = self.samples.len();
        if self.ends_quarterly() {
            Some((&self.samples[n - 1].value, &self.samples[n - 5].value))
        } else if n >= 13 {
            Some((&self.samples[n - 1].value, &self.samples[n - 13].value))
        } else {
            None
        }
    }

    /// The observation of the most recent sample, if any.
    pub fn latest_value(&self) -> (v: Option<&Observation>)
        ensures
            self.samples@.len() == 0 ==> v is None,
            self.samples@.len() > 0 ==> v == Some(&self.samples@.last().value),
    {
        match self.latest() {
            Some(s) => Some(&s.value),
            None => None,
        }
    }
}

/// All the macro aggregates that calibrate the model.
#[derive(Debug, Clone, PartialEq)]
pub struct MacroSnapshot {
    /// Total nonfarm payroll employment (thousands).
    pub payems: Series,
    /// Compensation of employees: wages and salaries ($B).
    pub wascur: Series,
    /// Personal consumption expenditures ($B, SAAR).
    pub pcec: Series,
    /// Nominal GDP ($B, SAAR).
    pub gdp: Series,
    /// Civilian unemployment rate (%).
    pub unrate: Series,
    /// Average hourly earnings, private.
    pub ahetpi: Series,
}

/// The latest observation of each series of a snapshot, and the date of
/// the latest wage observation.
#[derive(Debug, Clone, PartialEq)]
pub struct LatestReadings {
    pub date: String,
    pub wages: Observation,
    pub pce: Observation,
    pub gdp: Observation,
    pub unrate: Observation,
    pub payems: Observation,
    pub ahe: Observation,
}

impl MacroSnapshot {
    /// The name of the first series, taken in the order WASCUR, PCEC, GDP,
    /// UNRATE, PAYEMS, AHETPI, that holds no sample.
    pub open spec fn first_empty_series(&self) -> Option<Seq<char>> {
        if self.wascur.samples@.len() == 0 {
            Some("WASCUR"@)
        } else if self.pcec.samples@.len() == 0 {
            Some("PCEC"@)
        } else if self.gdp.samples@.len() == 0 {
            Some("GDP"@)
        } else if self.unrate.samples@.len() == 0 {
            Some("UNRATE"@)
        } else if self.payems.samples@.len() == 0 {
            Some("PAYEMS"@)
        } else if self.ahetpi.samples@.len() == 0 {
            Some("AHETPI"@)
        } else {
            None
        }
    }

    /// The latest observation of every series, or an error that names the
    /// first series without any.
    pub fn latest_readings(&self) -> (res: Result<LatestReadings, DataError>)
        ensures
            match res {
                Ok(r) => {
                    &&& self.first_empty_series() is None
                    &&& r.date@ == self.wascur.samples@.last().date@
                    &&& r.wages@ == self.wascur.samples@.last().value@
                    &&& r.pce@ == self.pcec.samples@.last().value@
                    &&& r.gdp@ == self.gdp.samples@.last().value@
                    &&& r.unrate@ == self.unrate.samples@.last().value@
                    &&& r.payems@ == self.payems.samples@.last().value@
                    &&& r.ahe@ == self.ahetpi.samples@.last().value@
                },
                Err(DataError::NoValue { series }) => self.first_empty_series() == Some(series@),
                Err(_) => false,
            },
    {
        let wages = match self.wascur.latest_value() {
            Some(v) => clone_observation(v),
            None => return Err(DataError::NoValue { series: "WASCUR".to_owned() }),
        };
        let pce = match self.pcec.latest_value() {
            Some(v) => clone_observation(v),
            None => return Err(DataError::NoValue { series: "PCEC".to_owned() }),
        };
        let gdp = match self.gdp.latest_value() {
            Some(v) => clone_observation(v),
            None => return Err(DataError::NoValue { series: "GDP".to_owned() }),
        };
        let unrate = match self.unrate.latest_value() {
            Some(v) => clone_observation(v),
            None => return Err(DataError::NoValue { series: "UNRATE".to_owned() }),
        };
        let payems = match self.payems.latest_value() {
            Some(v) => clone_observation(v),
            None => return Err(DataError::NoValue { series: "PAYEMS".to_owned() }),
        };
        let ahe = match self.ahetpi.latest_value() {
            Some(v) => clone_observation(v),
            None => return Err(DataError::NoValue { series: "AHETPI".to_owned() }),
        };
        let date = match self.wascur.latest() {
            Some(s) => s.date.clone(),
            None => String::new(),
        };
        Ok(LatestReadings { date, wages, pce, gdp, unrate, payems, ahe })
    }
}

} // verus!
