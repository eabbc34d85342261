//! The `fredgraph.csv` grammar, stated over character sequences, and the
//! laws that the grammar keeps.
//!
//! The body is split into lines as `str::lines` splits text: at each '\n',
//! dropping a '\r' directly before it; a final line ending is optional.
//! The first line is the header. Every other line holds a sample when its
//! first comma-separated column, trimmed of Unicode whitespace, is not
//! empty: that column is the date and the second column, trimmed, is the
//! value.

use vstd::prelude::*;

verus! {

/// What a sample holds: its date and its observation.
pub struct SampleView {
    pub date: Seq<char>,
    pub value: Option<Seq<char>>,
}

/// Unicode `White_Space`, the set that `str::trim` removes.
pub open spec fn is_whitespace(c: char) -> bool {
    let u = c as u32;
    ||| u == 0x20
    ||| 0x09 <= u <= 0x0d
    ||| u == 0x85
    ||| u == 0xa0
    ||| u == 0x1680
    ||| 0x2000 <= u <= 0x200a
    ||| u == 0x2028
    ||| u == 0x2029
    ||| u == 0x202f
    ||| u == 0x205f
    ||| u == 0x3000
}

/// Index of the first `c` in `s`, or `s.len()` where there is none.
pub open spec fn find_char(s: Seq<char>, c: char) -> nat
    decreases s.len(),
{
    if s.len() == 0 {
        0
    } else if s[0] == c {
        0
    } else {
        1 + find_char(s.drop_first(), c)
    }
}

/// `s` without its leading whitespace.
pub open spec fn trim_start(s: Seq<char>) -> Seq<char>
    decreases s.len(),
{
    if s.len() > 0 && is_whitespace(s[0]) {
        trim_start(s.drop_first())
    } else {
        s
    }
}

/// `s` without its trailing whitespace.
pub open spec fn trim_end(s: Seq<char>) -> Seq<char>
    decreases s.len(),
{
    if s.len() > 0 && is_whitespace(s.last()) {
        trim_end(s.drop_last())
    } else {
        s
    }
}

/// `s` without leading and trailing whitespace.
pub open spec fn trim(s: Seq<char>) -> Seq<char> {
    trim_end(trim_start(s))
}

/// The first line of `s`: everything before the first '\n', less a '\r'
/// that directly precedes that '\n'.
pub open spec fn first_line(s: Seq<char>) -> Seq<char> {
    let k = find_char(s, '\n');
    if k < s.len() && k > 0 && s[k - 1] == '\r' {
        s.subrange(0, k - 1)
    } else {
        s.subrange(0, k as int)
    }
}

/// What follows the first line of `s` and its '\n'.
pub open spec fn after_first_line(s: Seq<char>) -> Seq<char> {
    let k = find_char(s, '\n');
    if k < s.len() {
        s.subrange(k + 1int, s.len() as int)
    } else {
        Seq::empty()
    }
}

/// The first comma-separated column of a line, trimmed.
pub open spec fn date_field(line: Seq<char>) -> Seq<char> {
    trim(line.subrange(0, find_char(line, ',') as int))
}

/// The second comma-separated column of a line, trimmed; empty where the
/// line has no comma.
pub open spec fn value_field(line: Seq<char>) -> Seq<char> {
    let p = find_char(line, ',');
    if p < line.len() {
        let rest = line.subrange(p + 1int, line.len() as int);
        trim(rest.subrange(0, find_char(rest, ',') as int))
    } else {
        Seq::empty()
    }
}

/// The observation that a value field stands for.
pub open spec fn observation_of(raw: Seq<char>) -> Option<Seq<char>> {
    if raw == Seq::<char>::empty() || raw == seq!['.'] || raw == seq!['N', 'A'] {
        None
    } else {
        Some(raw)
    }
}

/// A value field stands for a missing observation exactly when it is "",
/// "." or "NA"; any other text, of whatever length, is reported unchanged.
pub proof fn lemma_missing_only_for_placeholders(raw: Seq<char>)
    ensures
        observation_of(raw) is None <==> (raw.len() == 0 || (raw.len() == 1 && raw[0] == '.') || (
        raw.len() == 2 && raw[0] == 'N' && raw[1] == 'A')),
        observation_of(raw) is Some ==> observation_of(raw) == Some(raw),
{
    if raw.len() == 0 {
        assert(raw =~= Seq::<char>::empty());
    } else if raw.len() == 1 && raw[0] == '.' {
        assert(raw =~= seq!['.']);
    } else if raw.len() == 2 && raw[0] == 'N' && raw[1] == 'A' {
        assert(raw =~= seq!['N', 'A']);
    } else {
        assert(raw != Seq::<char>::empty());
        assert(raw != seq!['.']) by {
            if raw == seq!['.'] {
                assert(seq!['.'].len() == 1 && seq!['.'][0] == '.');
            }
        }
        assert(raw != seq!['N', 'A']) by {
            if raw == seq!['N', 'A'] {
                assert(seq!['N', 'A'].len() == 2 && seq!['N', 'A'][0] == 'N' && seq!['N', 'A'][1]
                    == 'A');
            }
        }
    }
}

/// The sample that a data line holds: none where its date field is empty.
pub open spec fn row_of_line(line: Seq<char>) -> Seq<SampleView> {
    if date_field(line).len() == 0 {
        Seq::empty()
    } else {
        seq![SampleView { date: date_field(line), value: observation_of(value_field(line)) }]
    }
}

/// The samples of the data lines of `s`, in order.
pub open spec fn data_rows(s: Seq<char>) -> Seq<SampleView>
    decreases s.len(),
{
    if s.len() == 0 {
        Seq::empty()
    } else {
        row_of_line(first_line(s)) + data_rows(after_first_line(s))
    }
}

/// The samples of a `fredgraph.csv` body: its first line is the header.
pub open spec fn fred_samples(body: Seq<char>) -> Seq<SampleView> {
    data_rows(after_first_line(body))
}

pub(crate) proof fn lemma_find_char_unique(s: Seq<char>, c: char, k: int)
    requires
        0 <= k <= s.len(),
        forall|i: int| 0 <= i < k ==> s[i] != c,
        k < s.len() ==> s[k] == c,
    ensures
        find_char(s, c) == k,
    decreases s.len(),
{
    if s.len() > 0 && k > 0 {
        assert(s[0] != c);
        lemma_find_char_unique(s.drop_first(), c, k - 1);
    }
}

proof fn lemma_find_char_props(s: Seq<char>, c: char)
    ensures
        find_char(s, c) <= s.len(),
        forall|i: int| 0 <= i < find_char(s, c) ==> s[i] != c,
        find_char(s, c) < s.len() ==> s[find_char(s, c) as int] == c,
    decreases s.len(),
{
    if s.len() > 0 && s[0] != c {
        lemma_find_char_props(s.drop_first(), c);
        assert forall|i: int| 0 <= i < find_char(s, c) implies s[i] != c by {
            if i > 0 {
                assert(s[i] == s.drop_first()[i - 1]);
            }
        }
    }
}

/// Appending a character that is not `c` leaves the first `c` in place.
proof fn lemma_find_char_push(s: Seq<char>, c: char, d: char)
    ensures
        find_char(s.push(d), c) == if find_char(s, c) < s.len() {
            find_char(s, c) as int
        } else if d == c {
            s.len() as int
        } else {
            s.len() + 1int
        },
{
    lemma_find_char_props(s, c);
    let k = find_char(s, c);
    let t = s.push(d);
    if k < s.len() {
        lemma_find_char_unique(t, c, k as int);
    } else if d == c {
        lemma_find_char_unique(t, c, s.len() as int);
    } else {
        lemma_find_char_unique(t, c, s.len() + 1int);
    }
}

proof fn lemma_trim_start_push_whitespace(y: Seq<char>, w: char)
    requires
        is_whitespace(w),
    ensures
        trim_start(y.push(w)) == if trim_start(y).len() == 0 {
            Seq::<char>::empty()
        } else {
            trim_start(y).push(w)
        },
    decreases y.len(),
{
    if y.len() == 0 {
        assert(y.push(w).drop_first() =~= Seq::<char>::empty());
        assert(trim_start(Seq::<char>::empty()) == Seq::<char>::empty());
    } else if is_whitespace(y[0]) {
        assert(y.push(w).drop_first() =~= y.drop_first().push(w));
        lemma_trim_start_push_whitespace(y.drop_first(), w);
    }
}

/// Trailing whitespace does not survive a trim.
proof fn lemma_trim_push_whitespace(y: Seq<char>, w: char)
    requires
        is_whitespace(w),
    ensures
        trim(y.push(w)) == trim(y),
{
    lemma_trim_start_push_whitespace(y, w);
    let z = trim_start(y);
    if z.len() > 0 {
        assert(z.push(w).drop_last() =~= z);
    } else {
        assert(trim_end(Seq::<char>::empty()) == Seq::<char>::empty());
    }
}

/// A trailing '\r' does not change the sample that a line holds.
proof fn lemma_row_of_line_push_cr(x: Seq<char>)
    ensures
        row_of_line(x.push('\r')) == row_of_line(x),
{
    let y = x.push('\r');
    assert(is_whitespace('\r'));
    lemma_find_char_props(x, ',');
    lemma_find_char_push(x, ',', '\r');
    let p = find_char(x, ',');
    if p < x.len() {
        assert(y.subrange(0, p as int) =~= x.subrange(0, p as int));
        let rest = x.subrange(p + 1int, x.len() as int);
        let rest_y = y.subrange(p + 1int, y.len() as int);
        assert(rest_y =~= rest.push('\r'));
        lemma_find_char_props(rest, ',');
        lemma_find_char_push(rest, ',', '\r');
        let q = find_char(rest, ',');
        if q < rest.len() {
            assert(rest_y.subrange(0, q as int) =~= rest.subrange(0, q as int));
        } else {
            assert(rest_y.subrange(0, rest_y.len() as int) =~= rest.push('\r'));
            assert(rest.subrange(0, rest.len() as int) =~= rest);
            lemma_trim_push_whitespace(rest, '\r');
        }
    } else {
        assert(y.subrange(0, y.len() as int) =~= x.push('\r'));
        assert(x.subrange(0, x.len() as int) =~= x);
        lemma_trim_push_whitespace(x, '\r');
    }
}

proof fn lemma_data_rows_push_newline(s: Seq<char>)
    ensures
        data_rows(s.push('\n')) == data_rows(s),
    decreases s.len(),
{
    let t = s.push('\n');
    lemma_find_char_props(s, '\n');
    lemma_find_char_push(s, '\n', '\n');
    let k = find_char(s, '\n');
    if s.len() == 0 {
        assert(first_line(t) =~= Seq::<char>::empty());
        assert(after_first_line(t) =~= Seq::<char>::empty());
        assert(trim_start(Seq::<char>::empty()) == Seq::<char>::empty());
        assert(trim_end(Seq::<char>::empty()) == Seq::<char>::empty());
        assert(Seq::<char>::empty().subrange(0, 0) =~= Seq::<char>::empty());
        assert(row_of_line(first_line(t)) =~= Seq::<SampleView>::empty());
        assert(data_rows(Seq::<char>::empty()) == Seq::<SampleView>::empty());
        assert(data_rows(t) == row_of_line(first_line(t)) + data_rows(after_first_line(t)));
        assert(data_rows(t) =~= Seq::<SampleView>::empty());
    } else if k < s.len() {
        assert(first_line(t) =~= first_line(s));
        assert(after_first_line(t) =~= after_first_line(s).push('\n'));
        lemma_data_rows_push_newline(after_first_line(s));
    } else {
        assert(after_first_line(t) =~= Seq::<char>::empty());
        assert(first_line(s) =~= s);
        if s[s.len() - 1] == '\r' {
            assert(first_line(t) =~= s.drop_last());
            assert(s.drop_last().push('\r') =~= s);
            lemma_row_of_line_push_cr(s.drop_last());
        } else {
            assert(first_line(t) =~= s);
        }
    }
}

/// A final line ending is optional: a body that ends with one holds the
/// same samples as the same body without it.
pub proof fn lemma_final_line_ending_is_optional(body: Seq<char>)
    ensures
        fred_samples(body.push('\n')) == fred_samples(body),
{
    let t = body.push('\n');
    lemma_find_char_props(body, '\n');
    lemma_find_char_push(body, '\n', '\n');
    if find_char(body, '\n') < body.len() {
        assert(after_first_line(t) =~= after_first_line(body).push('\n'));
        lemma_data_rows_push_newline(after_first_line(body));
    } else {
        assert(after_first_line(t) =~= Seq::<char>::empty());
    }
}

/// `s` has no leading and no trailing whitespace.
pub open spec fn is_trimmed(s: Seq<char>) -> bool {
    s.len() > 0 ==> !is_whitespace(s[0]) && !is_whitespace(s.last())
}

/// What a well-formed sample holds: a non-empty date and, where a value is
/// reported, non-empty text; neither with surrounding whitespace.
pub open spec fn sample_well_formed(s: SampleView) -> bool {
    &&& s.date.len() > 0
    &&& is_trimmed(s.date)
    &&& s.value matches Some(raw) ==> raw.len() > 0 && is_trimmed(raw)
}

proof fn lemma_trim_start_shape(x: Seq<char>)
    ensures
        trim_start(x).len() > 0 ==> !is_whitespace(trim_start(x)[0]),
    decreases x.len(),
{
    if x.len() > 0 && is_whitespace(x[0]) {
        lemma_trim_start_shape(x.drop_first());
    }
}

proof fn lemma_trim_end_shape(z: Seq<char>)
    ensures
        trim_end(z).len() <= z.len(),
        trim_end(z) =~= z.subrange(0, trim_end(z).len() as int),
        trim_end(z).len() > 0 ==> !is_whitespace(trim_end(z).last()),
    decreases z.len(),
{
    if z.len() > 0 && is_whitespace(z.last()) {
        lemma_trim_end_shape(z.drop_last());
    }
}

/// Whatever a trim leaves has no surrounding whitespace.
proof fn lemma_trim_is_trimmed(x: Seq<char>)
    ensures
        is_trimmed(trim(x)),
{
    lemma_trim_start_shape(x);
    lemma_trim_end_shape(trim_start(x));
    if trim(x).len() > 0 {
        assert(trim(x)[0] == trim_start(x)[0]);
    }
}

proof fn lemma_data_rows_well_formed(s: Seq<char>)
    ensures
        forall|i: int| 0 <= i < data_rows(s).len() ==> sample_well_formed(#[trigger] data_rows(s)[i]),
    decreases s.len(),
{
    if s.len() > 0 {
        let line = first_line(s);
        lemma_find_char_props(s, '\n');
        lemma_data_rows_well_formed(after_first_line(s));
        lemma_find_char_props(line, ',');
        lemma_trim_is_trimmed(line.subrange(0, find_char(line, ',') as int));
        let p = find_char(line, ',');
        if p < line.len() {
            let rest = line.subrange(p + 1int, line.len() as int);
            lemma_find_char_props(rest, ',');
            lemma_trim_is_trimmed(rest.subrange(0, find_char(rest, ',') as int));
        } else {
            assert(is_trimmed(Seq::<char>::empty()));
        }
        assert(is_trimmed(date_field(line)));
        assert(is_trimmed(value_field(line)));
        if value_field(line).len() == 0 {
            assert(value_field(line) =~= Seq::<char>::empty());
        }
        let row = row_of_line(line);
        if row.len() > 0 {
            assert(sample_well_formed(row[0]));
        }
        let rest_rows = data_rows(after_first_line(s));
        assert forall|i: int| 0 <= i < data_rows(s).len() implies sample_well_formed(
            #[trigger] data_rows(s)[i],
        ) by {
            if i < row.len() {
                assert(data_rows(s)[i] == row[i]);
            } else {
                assert(data_rows(s)[i] == rest_rows[i - row.len()]);
            }
        }
    }
}

/// Every sample of a body has a non-empty date, and every reported value
/// is non-empty text; neither carries surrounding whitespace.
pub proof fn lemma_samples_well_formed(body: Seq<char>)
    ensures
        forall|i: int|
            0 <= i < fred_samples(body).len() ==> sample_well_formed(#[trigger] fred_samples(body)[i]),
{
    lemma_data_rows_well_formed(after_first_line(body));
}

/// One data line as FRED writes it: `date,value` and a line ending.
pub open spec fn csv_line(date: Seq<char>, value: Seq<char>) -> Seq<char> {
    date + seq![','] + value + seq!['\n']
}

/// The data lines of `rows`, in order.
pub open spec fn csv_lines(rows: Seq<(Seq<char>, Seq<char>)>) -> Seq<char>
    decreases rows.len(),
{
    if rows.len() == 0 {
        Seq::empty()
    } else {
        csv_line(rows[0].0, rows[0].1) + csv_lines(rows.drop_first())
    }
}

/// A body written from a header line and (date, value) rows.
pub open spec fn csv_body(header: Seq<char>, rows: Seq<(Seq<char>, Seq<char>)>) -> Seq<char> {
    header + seq!['\n'] + csv_lines(rows)
}

/// `s` holds neither a comma nor a line break.
pub open spec fn no_separator(s: Seq<char>) -> bool {
    forall|i: int| 0 <= i < s.len() ==> s[i] != ',' && s[i] != '\n'
}

/// A field that can be written into a line and read back unchanged.
pub open spec fn clean_field(s: Seq<char>) -> bool {
    no_separator(s) && is_trimmed(s)
}

/// The samples that written rows stand for.
pub open spec fn samples_of_rows(rows: Seq<(Seq<char>, Seq<char>)>) -> Seq<SampleView> {
    rows.map_values(
        |r: (Seq<char>, Seq<char>)| SampleView { date: r.0, value: observation_of(r.1) },
    )
}

proof fn lemma_find_char_after(a: Seq<char>, b: Seq<char>, c: char)
    requires
        forall|i: int| 0 <= i < a.len() ==> a[i] != c,
    ensures
        find_char(a + b, c) == a.len() + find_char(b, c),
{
    lemma_find_char_props(b, c);
    let k: int = (a.len() + find_char(b, c)) as int;
    assert forall|i: int| 0 <= i < k implies (a + b)[i] != c by {
        if i >= a.len() {
            assert((a + b)[i] == b[i - a.len()]);
        }
    }
    if k < (a + b).len() {
        assert((a + b)[k] == b[find_char(b, c) as int]);
    }
    lemma_find_char_unique(a + b, c, k);
}

proof fn lemma_trim_of_trimmed(s: Seq<char>)
    requires
        is_trimmed(s),
    ensures
        trim(s) == s,
{
}

proof fn lemma_data_rows_of_lines(rows: Seq<(Seq<char>, Seq<char>)>)
    requires
        forall|i: int|
            0 <= i < rows.len() ==> (#[trigger] rows[i]).0.len() > 0 && clean_field(rows[i].0)
                && clean_field(rows[i].1),
    ensures
        data_rows(csv_lines(rows)) == samples_of_rows(rows),
    decreases rows.len(),
{
    if rows.len() == 0 {
        assert(csv_lines(rows) =~= Seq::<char>::empty());
        assert(samples_of_rows(rows) =~= Seq::<SampleView>::empty());
    } else {
        let d = rows[0].0;
        let v = rows[0].1;
        let tail = rows.drop_first();
        assert forall|i: int| 0 <= i < tail.len() implies (#[trigger] tail[i]).0.len() > 0
            && clean_field(tail[i].0) && clean_field(tail[i].1) by {
            assert(tail[i] == rows[i + 1]);
        }
        lemma_data_rows_of_lines(tail);
        let line = d + seq![','] + v;
        let s = csv_lines(rows);
        assert(s == line + seq!['\n'] + csv_lines(tail));
        assert(s =~= line + (seq!['\n'] + csv_lines(tail)));
        // The first line ending follows the value.
        assert forall|i: int| 0 <= i < line.len() implies line[i] != '\n' by {
            if i < d.len() {
                assert(line[i] == d[i]);
            } else if i > d.len() {
                assert(line[i] == v[i - d.len() - 1]);
            }
        }
        lemma_find_char_after(line, seq!['\n'] + csv_lines(tail), '\n');
        let k = find_char(s, '\n');
        assert(k == line.len());
        assert(s[k - 1] != '\r') by {
            assert(is_whitespace('\r'));
            if v.len() > 0 {
                assert(s[k - 1] == v.last());
            } else {
                assert(s[k - 1] == ',');
            }
        }
        assert(first_line(s) =~= line);
        assert(after_first_line(s) =~= csv_lines(tail));
        // The comma follows the date; the value holds none.
        lemma_find_char_after(d, seq![','] + v, ',');
        assert(d + (seq![','] + v) =~= line);
        assert(find_char(line, ',') == d.len());
        assert(line.subrange(0, d.len() as int) =~= d);
        assert(line.subrange(d.len() + 1int, line.len() as int) =~= v);
        lemma_find_char_after(v, Seq::<char>::empty(), ',');
        assert(v + Seq::<char>::empty() =~= v);
        assert(v.subrange(0, v.len() as int) =~= v);
        lemma_trim_of_trimmed(d);
        lemma_trim_of_trimmed(v);
        assert(date_field(line) == d);
        assert(value_field(line) == v);
        assert(row_of_line(line) =~= seq![SampleView { date: d, value: observation_of(v) }]);
        assert(samples_of_rows(rows) =~= seq![SampleView { date: d, value: observation_of(v) }]
            + samples_of_rows(tail));
    }
}

/// Reading back what was written: a body made of a header line and one
/// `date,value` line per row, with non-empty dates and with fields that hold
/// no comma, no line break and no surrounding whitespace, holds exactly
/// those rows as samples (a value of "", "." or "NA" reading as missing).
pub proof fn lemma_written_rows_read_back(
    header: Seq<char>,
    rows: Seq<(Seq<char>, Seq<char>)>,
)
    requires
        forall|i: int| 0 <= i < header.len() ==> header[i] != '\n',
        forall|i: int|
            0 <= i < rows.len() ==> (#[trigger] rows[i]).0.len() > 0 && clean_field(rows[i].0)
                && clean_field(rows[i].1),
    ensures
        fred_samples(csv_body(header, rows)) == samples_of_rows(rows),
{
    let body = csv_body(header, rows);
    assert(body =~= header + (seq!['\n'] + csv_lines(rows)));
    lemma_find_char_after(header, seq!['\n'] + csv_lines(rows), '\n');
    assert(after_first_line(body) =~= csv_lines(rows));
    lemma_data_rows_of_lines(rows);
}

/// A field of printable ASCII without spaces or commas.
pub open spec fn printable_field(s: Seq<char>) -> bool {
    forall|i: int| 0 <= i < s.len() ==> 0x21 <= (#[trigger] s[i]) as u32 <= 0x7e && s[i] != ','
}

/// Reading back what was written, for printable fields: a body made of a
/// header line and one `date,value` line per row, where every date is
/// non-empty and every field is printable ASCII with no space or comma,
/// holds exactly those rows as samples, each date unchanged and each value
/// reported unchanged unless it is "", "." or "NA".
pub proof fn lemma_printable_rows_read_back(
    header: Seq<char>,
    rows: Seq<(Seq<char>, Seq<char>)>,
)
    requires
        forall|i: int| 0 <= i < header.len() ==> header[i] != '\n',
        forall|i: int|
            0 <= i < rows.len() ==> (#[trigger] rows[i]).0.len() > 0 && printable_field(rows[i].0)
                && printable_field(rows[i].1),
    ensures
        fred_samples(csv_body(header, rows)).len() == rows.len(),
        forall|i: int|
            0 <= i < rows.len() ==> {
                let got = #[trigger] fred_samples(csv_body(header, rows))[i];
                let v = rows[i].1;
                &&& got.date == rows[i].0
                &&& (v.len() == 0 || v =~= seq!['.'] || v =~= seq!['N', 'A']) ==> got.value is None
                &&& !(v.len() == 0 || v =~= seq!['.'] || v =~= seq!['N', 'A']) ==> got.value
                    == Some(v)
            },
{
    assert forall|i: int| 0 <= i < rows.len() implies (#[trigger] rows[i]).0.len() > 0
        && clean_field(rows[i].0) && clean_field(rows[i].1) by {
        let d = rows[i].0;
        let v = rows[i].1;
        if d.len() > 0 {
            assert(0x21 <= d[0] as u32);
            assert(0x21 <= d.last() as u32);
        }
        if v.len() > 0 {
            assert(0x21 <= v[0] as u32);
            assert(0x21 <= v.last() as u32);
        }
        assert forall|j: int| 0 <= j < v.len() implies v[j] != ',' && v[j] != '\n' by {
            assert(0x21 <= v[j] as u32);
        }
        assert forall|j: int| 0 <= j < d.len() implies d[j] != ',' && d[j] != '\n' by {
            assert(0x21 <= d[j] as u32);
        }
    }
    lemma_written_rows_read_back(header, rows);
    assert forall|i: int| 0 <= i < rows.len() implies {
        let got = #[trigger] fred_samples(csv_body(header, rows))[i];
        let v = rows[i].1;
        &&& got.date == rows[i].0
        &&& (v.len() == 0 || v =~= seq!['.'] || v =~= seq!['N', 'A']) ==> got.value is None
        &&& !(v.len() == 0 || v =~= seq!['.'] || v =~= seq!['N', 'A']) ==> got.value == Some(v)
    } by {
        let v = rows[i].1;
        lemma_missing_only_for_placeholders(v);
        if v =~= seq!['.'] {
            assert(v.len() == 1 && v[0] == '.');
        }
        if v =~= seq!['N', 'A'] {
            assert(v.len() == 2 && v[0] == 'N' && v[1] == 'A');
        }
        if v.len() == 1 && v[0] == '.' {
            assert(v =~= seq!['.']);
        }
        if v.len() == 2 && v[0] == 'N' && v[1] == 'A' {
            assert(v =~= seq!['N', 'A']);
        }
    }
}

} // verus!
