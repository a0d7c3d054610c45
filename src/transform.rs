//! Line-oriented text transformations: lower case, upper case, removing
//! spaces, slugs, and pretty tables of CSV text.
use vstd::prelude::*;
use crate::client::{is_first_space, same_chars};

verus! {

/// Why an input line is not a command.
#[derive(Clone, Copy, Debug, PartialEq, Eq, Structural)]
pub enum CommandReadingError {
    /// The line holds no space between command and argument.
    InvalidInput,
}

/// Why a transformation failed.
#[derive(Clone, Copy, Debug, PartialEq, Eq, Structural)]
pub enum StrTransformError {
    /// The name of the transformation is unknown.
    InvalidTransform,
    /// The CSV text could not be parsed.
    MalformedCsv,
    /// A CSV record has another number of fields than the header.
    RecordSizeMismatch,
}

/// A transformation.
#[derive(Clone, Copy, Debug, PartialEq, Eq, Structural)]
pub enum StrTransformOperation {
    Lowercase,
    Uppercase,
    NoSpaces,
    Slugify,
    Csv,
}

/// A transformation and the text it is to be applied to.
pub struct StrTransformMessage {
    pub operation: StrTransformOperation,
    pub args: String,
}

impl StrTransformMessage {
    pub fn new(operation: StrTransformOperation, args: String) -> (r: Self)
        ensures
            r.operation == operation,
            r.args@ == args@,
    {
        StrTransformMessage { operation, args }
    }
}

/// What `str::to_lowercase` makes of a string: it depends on the characters alone.
pub uninterp spec fn lower_of(s: Seq<char>) -> Seq<char>;

/// What `str::to_uppercase` makes of a string: it depends on the characters alone.
pub uninterp spec fn upper_of(s: Seq<char>) -> Seq<char>;

/// What `slug::slugify` makes of a string: it depends on the characters alone.
pub uninterp spec fn slug_of(s: Seq<char>) -> Seq<char>;

/// Relies on `str::to_lowercase`.
#[verifier::external_body]
fn to_lower(s: &str) -> (r: String)
    ensures
        r@ == lower_of(s@),
{
    s.to_lowercase()
}

/// Relies on `str::to_uppercase`.
#[verifier::external_body]
fn to_upper(s: &str) -> (r: String)
    ensures
        r@ == upper_of(s@),
{
    s.to_uppercase()
}

/// Relies on `slug::slugify`.
#[verifier::external_body]
fn to_slug(s: &str) -> (r: String)
    ensures
        r@ == slug_of(s@),
{
    slug::slugify(s)
}

/// A line with every space removed.
pub open spec fn without_spaces(s: Seq<char>) -> Seq<char>
    decreases s.len(),
{
    if s.len() == 0 {
        Seq::empty()
    } else if s.last() == ' ' {
        without_spaces(s.drop_last())
    } else {
        without_spaces(s.drop_last()).push(s.last())
    }
}

/// A line ending in a newline becomes its slug followed by the newline; any
/// other text is left as it is.
pub open spec fn slug_line(s: Seq<char>) -> Seq<char> {
    if s.len() > 0 && s.last() == '\n' {
        slug_of(s) + seq!['\n']
    } else {
        s
    }
}

pub fn lowercase(input: &str) -> (r: Result<String, StrTransformError>)
    ensures
        r matches Ok(s) && s@ == lower_of(input@),
{
    Ok(to_lower(input))
}

pub fn uppercase(input: &str) -> (r: Result<String, StrTransformError>)
    ensures
        r matches Ok(s) && s@ == upper_of(input@),
{
    Ok(to_upper(input))
}

pub fn no_spaces(input: &str) -> (r: Result<String, StrTransformError>)
    ensures
        r matches Ok(s) && s@ == without_spaces(input@),
{
    let n = input.unicode_len();
    let mut out = String::new();
    let mut i: usize = 0;
    while i < n
        invariant
            n == input@.len(),
            i <= n,
            out@ == without_spaces(input@.take(i as int)),
        decreases n - i,
    {
        assert(input@.take(i + 1).drop_last() =~= input@.take(i as int));
        if input.get_char(i) != ' ' {
            let c = input.substring_char(i, i + 1);
            out.append(c);
            assert(out@ =~= without_spaces(input@.take(i + 1)));
        }
        i = i + 1;
    }
    assert(input@.take(n as int) =~= input@);
    Ok(out)
}

pub fn slugify(input: &str) -> (r: Result<String, StrTransformError>)
    ensures
        r matches Ok(s) && s@ == slug_line(input@),
{
    let n = input.unicode_len();
    if n > 0 && input.get_char(n - 1) == '\n' {
        proof {
            reveal_strlit("\n");
        }
        let s = to_slug(input).concat("\n");
        Ok(s)
    } else {
        Ok(String::from_str(input))
    }
}

/// The CSV text as rows of fields, the header row first, as the `csv`
/// crate's reader parses it; `None` when it refuses the text.
pub uninterp spec fn csv_rows_of(text: Seq<char>) -> Option<Seq<Seq<Seq<char>>>>;

pub open spec fn row_view(r: Vec<String>) -> Seq<Seq<char>> {
    r@.map_values(|f: String| f@)
}

pub open spec fn rows_view(rows: Seq<Vec<String>>) -> Seq<Seq<Seq<char>>> {
    rows.map_values(|r: Vec<String>| row_view(r))
}

/// Relies on `csv::Reader` over the text's bytes: its header record, then
/// each of its records, as strings.
#[verifier::external_body]
fn parse_csv(text: &str) -> (r: Option<Vec<Vec<String>>>)
    ensures
        match r {
            Some(rows) => csv_rows_of(text@) == Some(rows_view(rows@)),
            None => csv_rows_of(text@) is None,
        },
{
    let mut rdr = csv::Reader::from_reader(text.as_bytes());
    let headers = rdr.headers().ok()?.iter().map(|f| f.to_string()).collect();
    let mut rows: Vec<Vec<String>> = vec![headers];
    for record in rdr.records() {
        rows.push(record.ok()?.iter().map(|f| f.to_string()).collect());
    }
    Some(rows)
}

/// Splits an input line at its first space into a command and its argument.
pub fn split_command(line: &str) -> (r: Result<(String, String), CommandReadingError>)
    ensures
        (exists|k: int| is_first_space(line@, k)) <==> r is Ok,
        r matches Ok((c, a)) ==> exists|k: int|
            is_first_space(line@, k) && c@ == line@.take(k) && a@ == line@.skip(k + 1),
        r is Err ==> r == Err::<(String, String), _>(CommandReadingError::InvalidInput),
{
    let n = line.unicode_len();
    let mut k: usize = 0;
    while k < n && line.get_char(k) != ' '
        invariant
            n == line@.len(),
            k <= n,
            forall|j: int| 0 <= j < k ==> line@[j] != ' ',
        decreases n - k,
    {
        k = k + 1;
    }
    if k < n {
        let c = String::from_str(line.substring_char(0, k));
        let a = String::from_str(line.substring_char(k + 1, n));
        assert(is_first_space(line@, k as int));
        assert(c@ =~= line@.take(k as int));
        assert(a@ =~= line@.skip(k + 1));
        Ok((c, a))
    } else {
        assert forall|j: int| !is_first_space(line@, j) by {
            if 0 <= j < n {
                assert(line@[j] != ' ');
            }
        }
        Err(CommandReadingError::InvalidInput)
    }
}

/// The length in bytes of a string's UTF-8 encoding, as `str::len` gives it.
pub open spec fn utf8_len(s: Seq<char>) -> nat {
    (vstd::utf8::encode_utf8(s).len() as usize) as nat
}

pub open spec fn spaces(n: nat) -> Seq<char> {
    Seq::new(n, |_i: int| ' ')
}

pub open spec fn dashes(n: nat) -> Seq<char> {
    Seq::new(n, |_i: int| '-')
}

/// A field right-aligned in `w` characters.
pub open spec fn padded(s: Seq<char>, w: nat) -> Seq<char> {
    if s.len() < w {
        spaces((w - s.len()) as nat) + s
    } else {
        s
    }
}

/// The first `k` fields of a row, aligned and separated by ` | `.
pub open spec fn cells(r: Seq<Seq<char>>, w: Seq<nat>, k: nat) -> Seq<char>
    decreases k,
{
    if k == 0 {
        Seq::empty()
    } else if k == 1 {
        padded(r[0], w[0])
    } else {
        cells(r, w, (k - 1) as nat) + seq![' ', '|', ' '] + padded(r[k - 1], w[k - 1])
    }
}

/// One row of the table: `| a | b |`.
pub open spec fn table_line(r: Seq<Seq<char>>, w: Seq<nat>) -> Seq<char> {
    seq!['|', ' '] + cells(r, w, r.len()) + seq![' ', '|']
}

/// The first `k` records, one line each, separated by newlines.
pub open spec fn body_lines(recs: Seq<Seq<Seq<char>>>, w: Seq<nat>, k: nat) -> Seq<char>
    decreases k,
{
    if k == 0 {
        Seq::empty()
    } else if k == 1 {
        table_line(recs[0], w)
    } else {
        body_lines(recs, w, (k - 1) as nat) + seq!['\n'] + table_line(recs[k - 1], w)
    }
}

/// The whole table: a rule of dashes as long as the header line, the header,
/// a rule, the records, and a closing rule.
pub open spec fn rendered(h: Seq<Seq<char>>, recs: Seq<Seq<Seq<char>>>, w: Seq<nat>) -> Seq<
    char,
> {
    let hl = table_line(h, w);
    let rule = dashes(utf8_len(hl));
    rule + seq!['\n'] + hl + seq!['\n'] + rule + seq!['\n'] + body_lines(recs, w, recs.len())
        + seq!['\n'] + rule + seq!['\n']
}

/// The width of column `i` over the header and the first `k` records: its
/// longest field, in bytes.
pub open spec fn column_width(h: Seq<Seq<char>>, recs: Seq<Seq<Seq<char>>>, i: int, k: nat) -> nat
    decreases k,
{
    if k == 0 {
        utf8_len(h[i])
    } else {
        let prev = column_width(h, recs, i, (k - 1) as nat);
        let here = utf8_len(recs[k - 1][i]);
        if prev >= here {
            prev
        } else {
            here
        }
    }
}

pub open spec fn widths(h: Seq<Seq<char>>, recs: Seq<Seq<Seq<char>>>) -> Seq<nat> {
    Seq::new(h.len(), |i: int| column_width(h, recs, i, recs.len()))
}

/// The table for a header and its records, when every record has one field
/// per column.
pub open spec fn table_from(h: Seq<Seq<char>>, recs: Seq<Seq<Seq<char>>>) -> Result<
    Seq<char>,
    StrTransformError,
> {
    if forall|j: int| 0 <= j < recs.len() ==> #[trigger] recs[j].len() == h.len() {
        Ok(rendered(h, recs, widths(h, recs)))
    } else {
        Err(StrTransformError::RecordSizeMismatch)
    }
}

/// The table that CSV text renders to, from the header row and the records.
pub open spec fn table_of_rows(rows: Seq<Seq<Seq<char>>>) -> Result<Seq<char>, StrTransformError> {
    if rows.len() > 0 {
        table_from(rows[0], rows.skip(1))
    } else {
        table_from(Seq::empty(), Seq::empty())
    }
}

pub open spec fn csv_render(text: Seq<char>) -> Result<Seq<char>, StrTransformError> {
    match csv_rows_of(text) {
        None => Err(StrTransformError::MalformedCsv),
        Some(rows) => table_of_rows(rows),
    }
}

proof fn lemma_column_width_prefix(
    h: Seq<Seq<char>>,
    recs: Seq<Seq<Seq<char>>>,
    r: Seq<Seq<char>>,
    i: int,
    k: nat,
)
    requires
        k <= recs.len(),
    ensures
        column_width(h, recs.push(r), i, k) == column_width(h, recs, i, k),
    decreases k,
{
    if k > 0 {
        lemma_column_width_prefix(h, recs, r, i, (k - 1) as nat);
        assert(recs.push(r)[k - 1] == recs[k - 1]);
    }
}

impl std::str::FromStr for StrTransformOperation {
    type Err = StrTransformError;

    fn from_str(s: &str) -> Result<Self, Self::Err> {
        StrTransformOperation::parse(s)
    }
}

spec fn fields_ok(headers: Vec<String>, records: Seq<Vec<String>>, col_lens: Seq<usize>) -> bool {
    &&& col_lens.len() == headers@.len()
    &&& forall|j: int| 0 <= j < records.len() ==> #[trigger] records[j]@.len() == headers@.len()
    &&& col_lens.map_values(|x: usize| x as nat) == widths(row_view(headers), rows_view(records))
}

/// Records under a header, with the width of each column kept up to date.
pub struct CsvTable {
    headers: Vec<String>,
    records: Vec<Vec<String>>,
    col_lens: Vec<usize>,
}

impl CsvTable {
    pub closed spec fn header_view(&self) -> Seq<Seq<char>> {
        row_view(self.headers)
    }

    pub closed spec fn records_view(&self) -> Seq<Seq<Seq<char>>> {
        rows_view(self.records@)
    }

    pub closed spec fn width_view(&self) -> Seq<nat> {
        self.col_lens@.map_values(|x: usize| x as nat)
    }

    /// Every record has one field per column, and each width is that of the
    /// column's longest field.
    #[verifier::type_invariant]
    spec fn wf(&self) -> bool {
        fields_ok(self.headers, self.records@, self.col_lens@)
    }

    /// A table with these headers and no records.
    pub fn new(headers: Vec<String>) -> (r: CsvTable)
        ensures
            r.header_view() == row_view(headers),
            r.records_view() == Seq::<Seq<Seq<char>>>::empty(),
            r.width_view() == widths(r.header_view(), r.records_view()),
    {
        let mut col_lens: Vec<usize> = Vec::new();
        let mut i: usize = 0;
        while i < headers.len()
            invariant
                i <= headers@.len(),
                col_lens@.len() == i,
                forall|j: int| 0 <= j < i ==> #[trigger] col_lens@[j] as nat == utf8_len(headers@[j]@),
            decreases headers@.len() - i,
        {
            let n = headers[i].as_str().len();
            col_lens.push(n);
            i = i + 1;
        }
        let records: Vec<Vec<String>> = Vec::new();
        assert(col_lens@.map_values(|x: usize| x as nat) =~= widths(
            row_view(headers),
            rows_view(records@),
        ));
        CsvTable { headers, records, col_lens }
    }

    /// Adds a record, widening the columns it overflows. Fails, leaving the
    /// table as it was, when its number of fields is not the header's.
    pub fn append(&mut self, record: Vec<String>) -> (r: Result<(), StrTransformError>)
        ensures
            final(self).header_view() == old(self).header_view(),
            final(self).width_view() == widths(final(self).header_view(), final(self).records_view()),
            record@.len() == old(self).header_view().len() ==> r is Ok && final(self).records_view()
                == old(self).records_view().push(row_view(record)),
            record@.len() != old(self).header_view().len() ==> r == Err::<(), StrTransformError>(
                StrTransformError::RecordSizeMismatch,
            ) && final(self).records_view() == old(self).records_view(),
    {
        proof {
            use_type_invariant(&*self);
        }
        if record.len() != self.col_lens.len() {
            return Err(StrTransformError::RecordSizeMismatch);
        }
        let ghost h = self.header_view();
        let ghost recs = self.records_view();
        let ghost rv = row_view(record);
        let ghost k = recs.len();
        let mut lens: Vec<usize> = Vec::new();
        let mut i: usize = 0;
        while i < self.col_lens.len()
            invariant
                self.wf(),
                h == self.header_view(),
                recs == self.records_view(),
                k == recs.len(),
                rv == row_view(record),
                record@.len() == self.col_lens@.len(),
                i <= self.col_lens@.len(),
                lens@.len() == i,
                forall|j: int|
                    0 <= j < i ==> #[trigger] lens@[j] as nat == column_width(
                        h,
                        recs.push(rv),
                        j,
                        k + 1,
                    ),
            decreases self.col_lens@.len() - i,
        {
            let here = record[i].as_str().len();
            let prev = self.col_lens[i];
            proof {
                lemma_column_width_prefix(h, recs, rv, i as int, k);
                assert(self.width_view()[i as int] == prev as nat);
                assert(recs.push(rv)[k as int] == rv);
                assert(rv[i as int] == record@[i as int]@);
            }
            if prev >= here {
                lens.push(prev);
            } else {
                lens.push(here);
            }
            i = i + 1;
        }
        let no_headers: Vec<String> = Vec::new();
        let no_records: Vec<Vec<String>> = Vec::new();
        let no_lens: Vec<usize> = Vec::new();
        assert(no_lens@.map_values(|x: usize| x as nat) =~= widths(
            row_view(no_headers),
            rows_view(no_records@),
        ));
        let mut whole = CsvTable { headers: no_headers, records: no_records, col_lens: no_lens };
        std::mem::swap(self, &mut whole);
        let CsvTable { headers, mut records, col_lens: _ } = whole;
        records.push(record);
        assert(rows_view(records@) =~= recs.push(rv));
        assert(lens@.map_values(|x: usize| x as nat) =~= widths(
            row_view(headers),
            rows_view(records@),
        ));
        *self = CsvTable { headers, records, col_lens: lens };
        Ok(())
    }

    /// One line of the table for a row with one field per column.
    fn line(&self, row: &Vec<String>) -> (r: String)
        requires
            self.wf(),
            row@.len() == self.col_lens@.len(),
        ensures
            r@ == table_line(row_view(*row), self.width_view()),
    {
        let ghost w = self.width_view();
        let ghost rv = row_view(*row);
        proof {
            reveal_strlit("| ");
            reveal_strlit(" | ");
            reveal_strlit(" |");
            reveal_strlit(" ");
        }
        let mut out = String::from_str("| ");
        let mut i: usize = 0;
        while i < row.len()
            invariant
                self.wf(),
                w == self.width_view(),
                rv == row_view(*row),
                row@.len() == self.col_lens@.len(),
                i <= row@.len(),
                out@ == seq!['|', ' '] + cells(rv, w, i as nat),
                " | "@ == seq![' ', '|', ' '],
                " "@ == seq![' '],
            decreases row@.len() - i,
        {
            if i > 0 {
                out.append(" | ");
            }
            let field = row[i].as_str();
            let n = field.unicode_len();
            let width = self.col_lens[i];
            let ghost before = out@;
            if n < width {
                let mut pad: usize = 0;
                while pad < width - n
                    invariant
                        n < width,
                        pad <= width - n,
                        out@ == before + spaces(pad as nat),
                        " "@ == seq![' '],
                    decreases width - n - pad,
                {
                    out.append(" ");
                    pad = pad + 1;
                    assert(out@ =~= before + spaces(pad as nat));
                }
            }
            out.append(field);
            proof {
                assert(w[i as int] == width as nat);
                assert(rv[i as int] == field@);
                assert(out@ =~= before + padded(field@, width as nat));
            }
            i = i + 1;
            assert(out@ =~= seq!['|', ' '] + cells(rv, w, i as nat));
        }
        out.append(" |");
        assert(out@ =~= table_line(rv, w));
        out
    }

    /// The table as text, ready to print.
    pub fn render(&self) -> (r: String)
        ensures
            r@ == rendered(self.header_view(), self.records_view(), self.width_view()),
    {
        proof {
            use_type_invariant(self);
        }
        let ghost w = self.width_view();
        let ghost recs = self.records_view();
        let header = self.line(&self.headers);
        proof {
            reveal_strlit("-");
            reveal_strlit("\n");
        }
        let mut rule = String::new();
        let n = header.as_str().len();
        let mut i: usize = 0;
        while i < n
            invariant
                i <= n,
                rule@ == dashes(i as nat),
                "-"@ == seq!['-'],
            decreases n - i,
        {
            rule.append("-");
            i = i + 1;
            assert(rule@ =~= dashes(i as nat));
        }
        let mut body = String::new();
        let mut j: usize = 0;
        while j < self.records.len()
            invariant
                self.wf(),
                w == self.width_view(),
                recs == self.records_view(),
                j <= self.records@.len(),
                body@ == body_lines(recs, w, j as nat),
                "\n"@ == seq!['\n'],
            decreases self.records@.len() - j,
        {
            if j > 0 {
                body.append("\n");
            }
            let line = self.line(&self.records[j]);
            body.append(line.as_str());
            j = j + 1;
            assert(body@ =~= body_lines(recs, w, j as nat));
        }
        let mut out = String::new();
        out.append(rule.as_str());
        out.append("\n");
        out.append(header.as_str());
        out.append("\n");
        out.append(rule.as_str());
        out.append("\n");
        out.append(body.as_str());
        out.append("\n");
        out.append(rule.as_str());
        out.append("\n");
        assert(out@ =~= rendered(self.header_view(), recs, w));
        out
    }
}

/// Renders CSV text, whose first record is the header, as an aligned table.
pub fn render_csv(text: &str) -> (r: Result<String, StrTransformError>)
    ensures
        match r {
            Ok(s) => csv_render(text@) == Ok::<Seq<char>, StrTransformError>(s@),
            Err(e) => csv_render(text@) == Err::<Seq<char>, StrTransformError>(e),
        },
{
    let rows = parse_csv(text);
    let mut rows = match rows {
        None => return Err(StrTransformError::MalformedCsv),
        Some(rows) => rows,
    };
    let ghost all = rows_view(rows@);
    let ghost all_rows = rows@;
    let headers = if rows.len() > 0 {
        rows.remove(0)
    } else {
        Vec::new()
    };
    let ghost h = row_view(headers);
    proof {
        if all.len() > 0 {
            assert(headers == all_rows[0]);
            assert(h == all[0]);
        } else {
            assert(h =~= Seq::<Seq<char>>::empty());
        }
    }
    let ghost recs = if all.len() > 0 {
        all.skip(1)
    } else {
        Seq::empty()
    };
    assert(rows_view(rows@) =~= recs);
    assert(csv_rows_of(text@) == Some(all));
    assert(table_of_rows(all) == table_from(h, recs));
    let mut table = CsvTable::new(headers);
    let n = rows.len();
    let mut j: usize = 0;
    while rows.len() > 0
        invariant
            table.header_view() == h,
            csv_rows_of(text@) == Some(all),
            table_of_rows(all) == table_from(h, recs),
            n == recs.len(),
            j + rows@.len() == n,
            rows_view(rows@) == recs.skip(j as int),
            table.records_view() == recs.take(j as int),
            forall|t: int| 0 <= t < j ==> #[trigger] recs[t].len() == h.len(),
        decreases rows@.len(),
    {
        let ghost before = rows_view(rows@);
        let ghost before_rows = rows@;
        let record = rows.remove(0);
        assert(rows_view(rows@) =~= before.skip(1));
        assert(record == before_rows[0]);
        assert(before[0] == row_view(record));
        assert(recs.skip(j as int)[0] == recs[j as int]);
        match table.append(record) {
            Ok(()) => {},
            Err(e) => {
                assert(recs[j as int].len() != h.len());
                assert(e == StrTransformError::RecordSizeMismatch);
                assert(csv_rows_of(text@) == Some(all));
                assert(table_of_rows(all) == table_from(h, recs));
                assert(table_from(h, recs) == Err::<Seq<char>, StrTransformError>(e));
                assert(!(forall|t: int| 0 <= t < recs.len() ==> #[trigger] recs[t].len() == h.len()));
                return Err(e);
            },
        }
        j = j + 1;
        assert(rows_view(rows@) =~= recs.skip(j as int));
        assert(table.records_view() =~= recs.take(j as int));
    }
    assert(recs.take(j as int) =~= recs);
    proof {
        use_type_invariant(&table);
    }
    Ok(table.render())
}

/// The result of a transformation on its input.
pub open spec fn performed(op: StrTransformOperation, input: Seq<char>) -> Result<
    Seq<char>,
    StrTransformError,
> {
    match op {
        StrTransformOperation::Lowercase => Ok(lower_of(input)),
        StrTransformOperation::Uppercase => Ok(upper_of(input)),
        StrTransformOperation::NoSpaces => Ok(without_spaces(input)),
        StrTransformOperation::Slugify => Ok(slug_line(input)),
        StrTransformOperation::Csv => csv_render(input),
    }
}

impl StrTransformOperation {
    /// The transformation a name stands for: `lowercase`, `uppercase`,
    /// `no-spaces`, `slugify` or `csv`.
    pub fn parse(s: &str) -> (r: Result<StrTransformOperation, StrTransformError>)
        ensures
            r == (if s@ == "lowercase"@ {
                Ok(StrTransformOperation::Lowercase)
            } else if s@ == "uppercase"@ {
                Ok(StrTransformOperation::Uppercase)
            } else if s@ == "no-spaces"@ {
                Ok(StrTransformOperation::NoSpaces)
            } else if s@ == "slugify"@ {
                Ok(StrTransformOperation::Slugify)
            } else if s@ == "csv"@ {
                Ok(StrTransformOperation::Csv)
            } else {
                Err(StrTransformError::InvalidTransform)
            }),
    {
        if same_chars(s, "lowercase") {
            Ok(StrTransformOperation::Lowercase)
        } else if same_chars(s, "uppercase") {
            Ok(StrTransformOperation::Uppercase)
        } else if same_chars(s, "no-spaces") {
            Ok(StrTransformOperation::NoSpaces)
        } else if same_chars(s, "slugify") {
            Ok(StrTransformOperation::Slugify)
        } else if same_chars(s, "csv") {
            Ok(StrTransformOperation::Csv)
        } else {
            Err(StrTransformError::InvalidTransform)
        }
    }
    /// Applies the transformation to its input; for `Csv` the input is the
    /// CSV text itself.
    pub fn perform(&self, input: &str) -> (r: Result<String, StrTransformError>)
        ensures
            match r {
                Ok(s) => performed(*self, input@) == Ok::<Seq<char>, StrTransformError>(s@),
                Err(e) => performed(*self, input@) == Err::<Seq<char>, StrTransformError>(e),
            },
    {
        match self {
            StrTransformOperation::Lowercase => lowercase(input),
            StrTransformOperation::Uppercase => uppercase(input),
            StrTransformOperation::NoSpaces => no_spaces(input),
            StrTransformOperation::Slugify => slugify(input),
            StrTransformOperation::Csv => render_csv(input),
        }
    }
}

} // verus!
