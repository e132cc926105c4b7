//! CSV extraction: reading a file's rows with the `csv` crate and turning
//! them into records.

use vstd::prelude::*;
use crate::config::source::SourceConfig;
use crate::data::record::{Record, Value, ValueModel};
use crate::data::text::{append, decimal, owned, usize_text};
use crate::error::types::{ConfigError, ExtractError, is_validation, validation};

verus! {

/// The header row that the `csv` crate reads from `content` with this
/// delimiter, quote and header setting (without a header row: the first
/// row), or the text of its error.
pub uninterp spec fn csv_headers(content: Seq<char>, delimiter: u8, quote: u8, has_header: bool) -> Result<
    Seq<Seq<char>>,
    Seq<char>,
>;

/// The records that the `csv` crate reads from `content` with this
/// delimiter, quote and header setting, each its fields or the text of its
/// error.
pub uninterp spec fn csv_rows(content: Seq<char>, delimiter: u8, quote: u8, has_header: bool) -> Seq<
    Result<Seq<Seq<char>>, Seq<char>>,
>;

/// Reads the header row with `csv::ReaderBuilder` and `Reader::headers`.
#[verifier::external_body]
fn read_csv_headers(content: &str, delimiter: u8, quote: u8, has_header: bool) -> (r: Result<Vec<String>, String>)
    ensures
        match r {
            Ok(h) => csv_headers(content@, delimiter, quote, has_header) == Ok::<Seq<Seq<char>>, Seq<char>>(
                h@.map_values(|s: String| s@),
            ),
            Err(e) => csv_headers(content@, delimiter, quote, has_header) == Err::<Seq<Seq<char>>, Seq<char>>(e@),
        },
{
    let mut reader = csv::ReaderBuilder::new().delimiter(delimiter).quote(quote).has_headers(has_header).from_reader(
        content.as_bytes(),
    );
    match reader.headers() {
        Ok(h) => Ok(h.iter().map(String::from).collect()),
        Err(e) => Err(e.to_string()),
    }
}

/// Reads every record with `csv::ReaderBuilder` and `Reader::records`.
/// The rows are held in a `Vec`, whose allocation Rust limits to
/// `isize::MAX` bytes, so there are fewer than `usize::MAX` of them.
#[verifier::external_body]
fn read_csv_rows(content: &str, delimiter: u8, quote: u8, has_header: bool) -> (r: Vec<Result<Vec<String>, String>>)
    ensures
        r@.len() < usize::MAX,
        r@.len() == csv_rows(content@, delimiter, quote, has_header).len(),
        forall|i: int|
            0 <= i < r@.len() ==> match #[trigger] r@[i] {
                Ok(fields) => csv_rows(content@, delimiter, quote, has_header)[i] == Ok::<
                    Seq<Seq<char>>,
                    Seq<char>,
                >(fields@.map_values(|s: String| s@)),
                Err(e) => csv_rows(content@, delimiter, quote, has_header)[i] == Err::<Seq<Seq<char>>, Seq<char>>(
                    e@,
                ),
            },
{
    let mut reader = csv::ReaderBuilder::new().delimiter(delimiter).quote(quote).has_headers(has_header).from_reader(
        content.as_bytes(),
    );
    let mut out = Vec::new();
    for row in reader.records() {
        out.push(match row {
            Ok(rec) => Ok(rec.iter().map(String::from).collect()),
            Err(e) => Err(e.to_string()),
        });
    }
    out
}

/// The text that `std::str::from_utf8` reads from bytes, or none when
/// they are not valid UTF-8.
pub uninterp spec fn utf8_text(bytes: Seq<u8>) -> Option<Seq<char>>;

/// Reads bytes as UTF-8 with `std::str::from_utf8`. Bytes below 0x80 are
/// ASCII, each its own character, as UTF-8 defines.
#[verifier::external_body]
fn utf8_decode(bytes: &[u8]) -> (r: Option<String>)
    ensures
        match r {
            Some(t) => utf8_text(bytes@) == Some(t@),
            None => utf8_text(bytes@) is None,
        },
        r is None ==> exists|i: int| 0 <= i < bytes@.len() && #[trigger] bytes@[i] >= 0x80,
        r matches Some(t) ==> ((forall|i: int| 0 <= i < bytes@.len() ==> #[trigger] bytes@[i] < 0x80) ==> t@
            == bytes@.map_values(|b: u8| b as char)),
{
    std::str::from_utf8(bytes).ok().map(String::from)
}

/// The error that `std::io::Error::new` makes for content that is not
/// valid text (kind `InvalidData`); nothing about it is stated.
#[verifier::external_body]
fn invalid_text_error() -> (e: std::io::Error) {
    std::io::Error::new(std::io::ErrorKind::InvalidData, "stream did not contain valid UTF-8")
}

/// The text encodings a CSV file can be read in.
#[derive(Debug, Clone, Copy, PartialEq, Eq, Structural)]
pub enum TextEncoding {
    Utf8,
    Windows1252,
}

/// Two characters are equal once the first is put in ASCII lower case.
pub open spec fn lower_eq(c: char, lower: char) -> bool {
    c == lower || ('A' <= c <= 'Z' && (c as u32) + 32 == lower as u32)
}

/// A label names a word, ignoring ASCII case.
pub open spec fn label_is(label: Seq<char>, word: Seq<char>) -> bool {
    label.len() == word.len() && forall|i: int| 0 <= i < label.len() ==> lower_eq(#[trigger] label[i], word[i])
}

/// The encoding that a label names, ignoring ASCII case: `utf-8` or
/// `utf8`; `windows-1252`, `cp1252`, or one of the labels that the WHATWG
/// Encoding Standard gives it (`latin1`, `iso-8859-1`, `iso8859-1`,
/// `ascii`, `us-ascii`).
pub open spec fn encoding_named(label: Seq<char>) -> Option<TextEncoding> {
    if label_is(label, "utf-8"@) || label_is(label, "utf8"@) {
        Some(TextEncoding::Utf8)
    } else if label_is(label, "windows-1252"@) || label_is(label, "cp1252"@) || label_is(label, "latin1"@)
        || label_is(label, "iso-8859-1"@) || label_is(label, "iso8859-1"@) || label_is(label, "ascii"@)
        || label_is(label, "us-ascii"@) {
        Some(TextEncoding::Windows1252)
    } else {
        None
    }
}

/// The character a Windows-1252 byte stands for; the five bytes the code
/// page leaves unassigned stand for the control character of the same
/// number, as the WHATWG Encoding Standard maps them.
pub open spec fn cp1252_char(b: u8) -> char {
    match b {
        0x80u8 => '\u{20AC}',
        0x82u8 => '\u{201A}',
        0x83u8 => '\u{0192}',
        0x84u8 => '\u{201E}',
        0x85u8 => '\u{2026}',
        0x86u8 => '\u{2020}',
        0x87u8 => '\u{2021}',
        0x88u8 => '\u{02C6}',
        0x89u8 => '\u{2030}',
        0x8Au8 => '\u{0160}',
        0x8Bu8 => '\u{2039}',
        0x8Cu8 => '\u{0152}',
        0x8Eu8 => '\u{017D}',
        0x91u8 => '\u{2018}',
        0x92u8 => '\u{2019}',
        0x93u8 => '\u{201C}',
        0x94u8 => '\u{201D}',
        0x95u8 => '\u{2022}',
        0x96u8 => '\u{2013}',
        0x97u8 => '\u{2014}',
        0x98u8 => '\u{02DC}',
        0x99u8 => '\u{2122}',
        0x9Au8 => '\u{0161}',
        0x9Bu8 => '\u{203A}',
        0x9Cu8 => '\u{0153}',
        0x9Eu8 => '\u{017E}',
        0x9Fu8 => '\u{0178}',
        _ => b as char,
    }
}

/// The encoding label of a CSV source: its option, `utf-8` without
/// options.
pub open spec fn csv_encoding(config: SourceConfig) -> Seq<char> {
    match config->Csv_csv {
        Some(o) => o.encoding@,
        None => "utf-8"@,
    }
}

/// The byte of a text's first character (its code truncated to eight
/// bits), or `default` for an empty text.
pub open spec fn first_byte(s: Seq<char>, default: u8) -> u8 {
    if s.len() == 0 {
        default
    } else {
        (s[0] as u32) as u8
    }
}

/// The CSV reading settings of a source: delimiter, quote, header row and
/// rows to skip; a comma, a double quote, a header row and no skipping
/// without options.
pub open spec fn csv_settings(config: SourceConfig) -> (u8, u8, bool, usize) {
    match config->Csv_csv {
        Some(o) => (first_byte(o.delimiter@, 44u8), first_byte(o.quote_char@, 34u8), o.has_header, o.skip_rows),
        None => (44u8, 34u8, true, 0usize),
    }
}

/// The column names: the header row, or `col_0`, `col_1`, ... as many as
/// the first row has fields when there is no header row.
pub open spec fn column_names(content: Seq<char>, delimiter: u8, quote: u8, has_header: bool) -> Result<
    Seq<Seq<char>>,
    Seq<char>,
> {
    names_from_header(csv_headers(content, delimiter, quote, has_header), has_header)
}

/// The column names that the first row read gives: the header row itself,
/// or `col_0`, `col_1`, ... as many as it has fields when there is no header
/// row (none when it could not be read).
pub open spec fn names_from_header(header: Result<Seq<Seq<char>>, Seq<char>>, has_header: bool) -> Result<
    Seq<Seq<char>>,
    Seq<char>,
> {
    if has_header {
        header
    } else {
        let n = match header {
            Ok(h) => h.len(),
            Err(_) => 0,
        };
        Ok(Seq::new(n, |i: int| "col_"@ + decimal(i as nat)))
    }
}

/// The records that the rows read give, under the column names: a header
/// error is a parse error at line 0; otherwise each row becomes a record
/// with its line number (`base` plus its place, from 1) and the file's
/// path, and the first row that could not be read is a parse error at its
/// line.
pub open spec fn rows_outcome(
    names: Result<Seq<Seq<char>>, Seq<char>>,
    rows: Seq<Result<Seq<Seq<char>>, Seq<char>>>,
    base: int,
    path: Seq<char>,
    r: Result<Vec<Record>, ExtractError>,
) -> bool {
    match names {
        Err(msg) => r matches Err(e) && e matches ExtractError::CsvParse { line, message } && line == 0
            && message@ == msg,
        Ok(names) => match r {
            Ok(records) => records@.len() == rows.len() && rows_ok_before(rows, rows.len() as int) && (forall|i: int|
                0 <= i < rows.len() ==> is_row_record(#[trigger] records@[i], names, rows[i]->Ok_0, (base + i + 1) as nat, path)),
            Err(e) => exists|k: int|
                0 <= k < rows.len() && #[trigger] rows[k] is Err && rows_ok_before(rows, k) && (e matches ExtractError::CsvParse { line, message }
                    && line == base + k + 1 && message@ == rows[k]->Err_0),
        },
    }
}

/// The model of a header row as read.
pub open spec fn header_model(h: Result<Vec<String>, String>) -> Result<Seq<Seq<char>>, Seq<char>> {
    match h {
        Ok(v) => Ok(v@.map_values(|s: String| s@)),
        Err(e) => Err(e@),
    }
}

/// The model of the rows as read.
pub open spec fn rows_model(rows: Seq<Result<Vec<String>, String>>) -> Seq<Result<Seq<Seq<char>>, Seq<char>>> {
    rows.map_values(|r: Result<Vec<String>, String>| header_model(r))
}

/// A cell's value: null when empty, else the text.
pub open spec fn cell_value(field: Seq<char>) -> ValueModel {
    if field.len() == 0 {
        ValueModel::Null
    } else {
        ValueModel::Text(field)
    }
}

/// The fields of a row's record: each cell under its column's name, cells
/// beyond the named columns dropped, a later column winning over an
/// earlier one of the same name.
pub open spec fn row_fields(names: Seq<Seq<char>>, cells: Seq<Seq<char>>) -> Map<Seq<char>, ValueModel>
    decreases cells.len(),
{
    if cells.len() == 0 {
        Map::empty()
    } else {
        let prev = row_fields(names, cells.drop_last());
        let i = cells.len() - 1;
        if i < names.len() {
            prev.insert(names[i], cell_value(cells[i]))
        } else {
            prev
        }
    }
}

/// A row's record is right: its fields, and its metadata naming its line
/// number and file.
pub open spec fn is_row_record(r: Record, names: Seq<Seq<char>>, cells: Seq<Seq<char>>, line: nat, path: Seq<char>) -> bool {
    &&& r@ == row_fields(names, cells)
    &&& r.meta() == Map::<Seq<char>, Seq<char>>::empty().insert("source_line"@, decimal(line)).insert(
        "source_file"@,
        path,
    )
}

/// A text without its first `n` lines: what follows its `n`-th line
/// break, or nothing when it has fewer.
pub open spec fn after_lines(s: Seq<char>, n: nat) -> Seq<char>
    decreases s.len(),
{
    if n == 0 || s.len() == 0 {
        if n == 0 {
            s
        } else {
            Seq::empty()
        }
    } else if s[0] == '\n' {
        after_lines(s.drop_first(), (n - 1) as nat)
    } else {
        after_lines(s.drop_first(), n)
    }
}

/// The rows before the `k`-th were all read.
pub open spec fn rows_ok_before(rows: Seq<Result<Seq<Seq<char>>, Seq<char>>>, k: int) -> bool {
    forall|j: int| 0 <= j < k ==> #[trigger] rows[j] is Ok
}

/// CSV file extractor: the encoding, delimiters, quotes, a header row and
/// the lines skipped before it
/// are configurable.
pub struct CsvExtractor {}

impl Default for CsvExtractor {
    fn default() -> (r: Self)
        ensures
            r == (CsvExtractor {}),
    {
        CsvExtractor {}
    }
}

impl CsvExtractor {
    /// Creates a new CSV extractor.
    pub fn new() -> (e: Self) {
        CsvExtractor {}
    }

    /// Unique identifier for this extractor.
    pub fn name(&self) -> (r: &'static str)
        ensures
            r@ == "csv"@,
    {
        "csv"
    }

    /// The source types this extractor handles.
    pub fn supported_types(&self) -> (r: Vec<&'static str>)
        ensures
            r@.len() == 2,
            r@[0]@ == "csv"@,
            r@[1]@ == "tsv"@,
    {
        let mut v: Vec<&'static str> = Vec::new();
        v.push("csv");
        v.push("tsv");
        v
    }

    /// Validates the source configuration: a CSV source with a path.
    pub fn validate_config(&self, config: &SourceConfig) -> (r: Result<(), ConfigError>)
        ensures
            config is Csv && config->Csv_path@.len() == 0 ==> r is Err && is_validation(
                r->Err_0,
                "CSV path cannot be empty"@,
            ),
            !(config is Csv) ==> r is Err && is_validation(r->Err_0, "Invalid config type for CSV extractor"@),
            r is Ok <==> (config is Csv && config->Csv_path@.len() != 0),
    {
        match config {
            SourceConfig::Csv { path, .. } => {
                if path.as_str().is_empty() {
                    return Err(validation("CSV path cannot be empty"));
                }
                Ok(())
            },
            _ => Err(validation("Invalid config type for CSV extractor")),
        }
    }

    /// The file to read for a CSV source; an unsupported-type error for any
    /// other source.
    pub fn source_path<'a>(&self, config: &'a SourceConfig) -> (r: Result<&'a String, ExtractError>)
        ensures
            config is Csv ==> (r matches Ok(p) && *p == config->Csv_path),
            !(config is Csv) ==> (r matches Err(e) && e matches ExtractError::UnsupportedType(m) && m@
                == "CSV extractor requires CSV source config"@),
    {
        match config {
            SourceConfig::Csv { path, .. } => Ok(path),
            _ => Err(ExtractError::UnsupportedType(owned("CSV extractor requires CSV source config"))),
        }
    }

    /// The text of a CSV source's file content in the configured encoding
    /// (UTF-8 without options, or for a label that names no known
    /// encoding, as reading the file as text does): content that is not
    /// valid UTF-8 is a read error for the file. Any other source is an
    /// unsupported-type error.
    pub fn decode_content(&self, config: &SourceConfig, bytes: &[u8]) -> (r: Result<String, ExtractError>)
        ensures
            !(config is Csv) ==> (r matches Err(e) && e matches ExtractError::UnsupportedType(m) && m@
                == "CSV extractor requires CSV source config"@),
            config is Csv ==> match encoding_named(csv_encoding(*config)) {
                Some(TextEncoding::Windows1252) => r matches Ok(t) && t@ == bytes@.map_values(|b: u8| cp1252_char(b)),
                _ => match utf8_text(bytes@) {
                    Some(t) => r matches Ok(s) && s@ == t,
                    None => r matches Err(e) && e matches ExtractError::FileRead { path, .. } && path@
                        == config->Csv_path@,
                },
            },
    {
        let (path, label) = match config {
            SourceConfig::Csv { path, csv } => (path, match csv {
                Some(o) => o.encoding.clone(),
                None => owned("utf-8"),
            }),
            _ => {
                return Err(ExtractError::UnsupportedType(owned("CSV extractor requires CSV source config")));
            },
        };
        match encoding_for(label.as_str()) {
            Some(TextEncoding::Windows1252) => Ok(decode_cp1252(bytes)),
            _ => match utf8_decode(bytes) {
                Some(t) => Ok(t),
                None => Err(ExtractError::FileRead { path: path.clone(), source: invalid_text_error() }),
            },
        }
    }

    /// Turns the content of a CSV source's file into records, in file
    /// order: the configured number of lines are skipped before the header
    /// row, then each row becomes a record with its line number (counted
    /// from the first line after the skipped ones, the header row being
    /// line 1) and the file's path as metadata. The first row that cannot
    /// be read ends the extraction with its error. Any other source is an
    /// unsupported-type error.
    pub fn extract_records(&self, config: &SourceConfig, content: &str) -> (r: Result<Vec<Record>, ExtractError>)
        ensures
            !(config is Csv) ==> (r matches Err(e) && e matches ExtractError::UnsupportedType(m) && m@
                == "CSV extractor requires CSV source config"@),
            config is Csv ==> ({
                let (delimiter, quote, has_header, skip) = csv_settings(*config);
                let body = after_lines(content@, skip as nat);
                rows_outcome(
                    column_names(body, delimiter, quote, has_header),
                    csv_rows(body, delimiter, quote, has_header),
                    if has_header {
                        1int
                    } else {
                        0int
                    },
                    config->Csv_path@,
                    r,
                )
            }),
    {
        let path = match config {
            SourceConfig::Csv { path, .. } => path,
            _ => {
                return Err(ExtractError::UnsupportedType(owned("CSV extractor requires CSV source config")));
            },
        };
        let (delimiter, quote, has_header, skip) = match config {
            SourceConfig::Csv { csv, .. } => match csv {
                Some(o) => (first_char_byte(&o.delimiter, 44u8), first_char_byte(&o.quote_char, 34u8), o.has_header, o.skip_rows),
                None => (44u8, 34u8, true, 0usize),
            },
            _ => (44u8, 34u8, true, 0usize),
        };
        assert((delimiter, quote, has_header, skip) == csv_settings(*config));
        let body = skip_lines(content, skip);
        let header_row = read_csv_headers(body.as_str(), delimiter, quote, has_header);
        let rows = read_csv_rows(body.as_str(), delimiter, quote, has_header);
        assert(header_model(header_row) == csv_headers(body@, delimiter, quote, has_header));
        assert(rows_model(rows@) =~= csv_rows(body@, delimiter, quote, has_header));
        self.records_from_rows(header_row, rows, has_header, path)
    }

    /// Turns the rows read from a CSV file into records: the header row as
    /// read (or its error), the rows as read, whether the file has a header
    /// row, and the file's path; as `rows_outcome` says.
    pub fn records_from_rows(
        &self,
        header_row: Result<Vec<String>, String>,
        rows: Vec<Result<Vec<String>, String>>,
        has_header: bool,
        path: &String,
    ) -> (r: Result<Vec<Record>, ExtractError>)
        requires
            rows@.len() < usize::MAX,
        ensures
            rows_outcome(
                names_from_header(header_model(header_row), has_header),
                rows_model(rows@),
                if has_header {
                    1int
                } else {
                    0int
                },
                path@,
                r,
            ),
    {
        let ghost h0 = header_model(header_row);
        let ghost names_spec = names_from_header(h0, has_header);
        let names: Vec<String> = if has_header {
            match header_row {
                Ok(h) => h,
                Err(message) => {
                    return Err(ExtractError::CsvParse { line: 0, message });
                },
            }
        } else {
            let n = match &header_row {
                Ok(h) => h.len(),
                Err(_) => 0,
            };
            column_labels(n)
        };
        assert(names_spec == Ok::<Seq<Seq<char>>, Seq<char>>(names@.map_values(|s: String| s@)));
        let ghost all = rows_model(rows@);
        let base: usize = if has_header {
            1
        } else {
            0
        };
        let mut records: Vec<Record> = Vec::new();
        let mut i: usize = 0;
        let ghost name_views = names@.map_values(|s: String| s@);
        while i < rows.len()
            invariant
                i <= rows@.len(),
                rows@.len() < usize::MAX,
                names_spec == Ok::<Seq<Seq<char>>, Seq<char>>(name_views),
                names_spec == names_from_header(h0, has_header),
                h0 == header_model(header_row),
                all == rows_model(rows@),
                base == (if has_header {
                    1int
                } else {
                    0int
                }),
                name_views == names@.map_values(|s: String| s@),
                base <= 1,
                records@.len() == i,
                rows_ok_before(all, i as int),
                forall|j: int|
                    0 <= j < records@.len() ==> is_row_record(
                        #[trigger] records@[j],
                        name_views,
                        all[j]->Ok_0,
                        (base + j + 1) as nat,
                        path@,
                    ),
            decreases rows@.len() - i,
        {
            let k = i;
            assert(all[k as int] == header_model(rows@[k as int]));
            match &rows[i] {
                Ok(fields) => {
                    let line = base + k + 1;
                    let record = row_record(&names, fields, line, path);
                    let ghost before = records@;
                    records.push(record);
                    assert(forall|j: int| 0 <= j < before.len() ==> records@[j] == before[j]);
                    assert(all[k as int] is Ok && all[k as int]->Ok_0 == fields@.map_values(|s: String| s@));
                    assert forall|j: int| 0 <= j < k + 1 implies #[trigger] all[j] is Ok by {
                        if j < k {
                            assert(rows_ok_before(all, k as int));
                        }
                    }
                    assert(is_row_record(records@[k as int], name_views, all[k as int]->Ok_0, (base + k + 1) as nat, path@));
                },
                Err(message) => {
                    assert(all[k as int] is Err && all[k as int]->Err_0 == message@);
                    assert(rows_ok_before(all, k as int));
                    let e = ExtractError::CsvParse { line: base + k + 1, message: message.clone() };
                    assert(exists|kk: int|
                        0 <= kk < all.len() && #[trigger] all[kk] is Err && rows_ok_before(all, kk) && (e matches ExtractError::CsvParse { line, message }
                            && line == base + kk + 1 && message@ == all[kk]->Err_0)) by {
                        assert(all[k as int] is Err);
                    }
                    let r: Result<Vec<Record>, ExtractError> = Err(e);
                    assert(names_spec is Ok);
                    assert(rows_outcome(names_spec, all, base as int, path@, r));
                    return r;
                },
            }
            i = i + 1;
        }
        Ok(records)
    }
}

/// The text after its first `n` lines.
fn skip_lines(content: &str, n: usize) -> (r: String)
    ensures
        r@ == after_lines(content@, n as nat),
{
    let ghost text = content@;
    let mut out = String::new();
    let mut remaining: usize = n;
    assert(text.skip(0) =~= text);
    assert(out@ + text =~= text);
    for c in it: content.chars()
        invariant
            it.seq() == text,
            remaining > 0 ==> out@.len() == 0,
            remaining <= n,
            after_lines(text, n as nat) == out@ + after_lines(text.skip(it.index() as int), remaining as nat),
    {
        let ghost k = it.index() as int;
        assert(text.skip(k).drop_first() =~= text.skip(k + 1));
        assert(text.skip(k)[0] == c);
        if remaining == 0 {
            let ghost before = out@;
            crate::data::text::push_char(&mut out, c);
            assert(text.skip(k) =~= seq![c] + text.skip(k + 1));
            assert(before + text.skip(k) =~= out@ + text.skip(k + 1));
        } else if c == '\n' {
            remaining = remaining - 1;
        }
    }
    assert(text.skip(text.len() as int) =~= Seq::<char>::empty());
    out
}

/// The character a Windows-1252 byte stands for.
fn cp1252_decode_char(b: u8) -> (c: char)
    ensures
        c == cp1252_char(b),
{
    match b {
        0x80u8 => '\u{20AC}',
        0x82u8 => '\u{201A}',
        0x83u8 => '\u{0192}',
        0x84u8 => '\u{201E}',
        0x85u8 => '\u{2026}',
        0x86u8 => '\u{2020}',
        0x87u8 => '\u{2021}',
        0x88u8 => '\u{02C6}',
        0x89u8 => '\u{2030}',
        0x8Au8 => '\u{0160}',
        0x8Bu8 => '\u{2039}',
        0x8Cu8 => '\u{0152}',
        0x8Eu8 => '\u{017D}',
        0x91u8 => '\u{2018}',
        0x92u8 => '\u{2019}',
        0x93u8 => '\u{201C}',
        0x94u8 => '\u{201D}',
        0x95u8 => '\u{2022}',
        0x96u8 => '\u{2013}',
        0x97u8 => '\u{2014}',
        0x98u8 => '\u{02DC}',
        0x99u8 => '\u{2122}',
        0x9Au8 => '\u{0161}',
        0x9Bu8 => '\u{203A}',
        0x9Cu8 => '\u{0153}',
        0x9Eu8 => '\u{017E}',
        0x9Fu8 => '\u{0178}',
        _ => b as char,
    }
}

/// Reads bytes as Windows-1252 text, one character per byte.
pub fn decode_cp1252(bytes: &[u8]) -> (r: String)
    ensures
        r@ == bytes@.map_values(|b: u8| cp1252_char(b)),
{
    let mut out = String::new();
    let mut i: usize = 0;
    while i < bytes.len()
        invariant
            i <= bytes@.len(),
            out@ == bytes@.take(i as int).map_values(|b: u8| cp1252_char(b)),
        decreases bytes@.len() - i,
    {
        let c = cp1252_decode_char(bytes[i]);
        crate::data::text::push_char(&mut out, c);
        assert(bytes@.take(i + 1).map_values(|b: u8| cp1252_char(b)) =~= bytes@.take(i as int).map_values(
            |b: u8| cp1252_char(b),
        ).push(c));
        i = i + 1;
    }
    assert(bytes@.take(bytes@.len() as int) =~= bytes@);
    out
}

/// The characters of a text.
fn chars_of(s: &str) -> (r: Vec<char>)
    ensures
        r@ == s@,
{
    let ghost text = s@;
    let mut out: Vec<char> = Vec::new();
    for c in it: s.chars()
        invariant
            it.seq() == text,
            out@ == text.take(it.index() as int),
    {
        let ghost k = it.index() as int;
        assert(text.take(k + 1) =~= text.take(k).push(c));
        out.push(c);
    }
    assert(text.take(text.len() as int) =~= text);
    out
}

/// Whether a label's characters name a word, ignoring ASCII case.
fn label_matches(label: &Vec<char>, word: &str) -> (b: bool)
    ensures
        b == label_is(label@, word@),
{
    let w = chars_of(word);
    if label.len() != w.len() {
        return false;
    }
    let mut i: usize = 0;
    while i < label.len()
        invariant
            i <= label@.len(),
            label@.len() == w@.len(),
            w@ == word@,
            forall|j: int| 0 <= j < i ==> lower_eq(#[trigger] label@[j], w@[j]),
        decreases label@.len() - i,
    {
        let c = label[i];
        let l = w[i];
        if !(c == l || ('A' <= c && c <= 'Z' && (c as u32) + 32 == l as u32)) {
            return false;
        }
        i = i + 1;
    }
    true
}

/// The encoding a label names, ignoring ASCII case.
pub fn encoding_for(label: &str) -> (r: Option<TextEncoding>)
    ensures
        r == encoding_named(label@),
{
    let l = chars_of(label);
    if label_matches(&l, "utf-8") || label_matches(&l, "utf8") {
        Some(TextEncoding::Utf8)
    } else if label_matches(&l, "windows-1252") || label_matches(&l, "cp1252") || label_matches(&l, "latin1")
        || label_matches(&l, "iso-8859-1") || label_matches(&l, "iso8859-1") || label_matches(&l, "ascii")
        || label_matches(&l, "us-ascii") {
        Some(TextEncoding::Windows1252)
    } else {
        None
    }
}

/// The byte of a text's first character, or `default` for an empty text.
fn first_char_byte(s: &String, default: u8) -> (r: u8)
    ensures
        r == first_byte(s@, default),
{
    for c in it: s.chars()
        invariant
            it.seq() == s@,
            it.index() == 0,
    {
        return (c as u32) as u8;
    }
    default
}

/// The names `col_0`, `col_1`, ... up to `n` columns.
fn column_labels(n: usize) -> (r: Vec<String>)
    ensures
        r@.map_values(|s: String| s@) == Seq::new(n as nat, |i: int| "col_"@ + decimal(i as nat)),
{
    let mut out: Vec<String> = Vec::new();
    let mut i: usize = 0;
    while i < n
        invariant
            i <= n,
            out@.len() == i,
            forall|j: int| 0 <= j < i ==> #[trigger] out@[j]@ == "col_"@ + decimal(j as nat),
        decreases n - i,
    {
        let mut label = owned("col_");
        let digits = usize_text(i);
        crate::data::text::append(&mut label, digits.as_str());
        out.push(label);
        i = i + 1;
    }
    assert(out@.map_values(|s: String| s@) =~= Seq::new(n as nat, |i: int| "col_"@ + decimal(i as nat)));
    out
}

/// Builds a row's record: its cells under the column names, and its line
/// number and file as metadata.
fn row_record(names: &Vec<String>, fields: &Vec<String>, line: usize, path: &String) -> (r: Record)
    ensures
        is_row_record(r, names@.map_values(|s: String| s@), fields@.map_values(|s: String| s@), line as nat, path@),
{
    let ghost name_views = names@.map_values(|s: String| s@);
    let ghost cells = fields@.map_values(|s: String| s@);
    let mut record = Record::new();
    record.add_metadata("source_line", usize_text(line));
    record.add_metadata("source_file", path.clone());
    let mut i: usize = 0;
    while i < fields.len()
        invariant
            i <= fields@.len(),
            name_views == names@.map_values(|s: String| s@),
            cells == fields@.map_values(|s: String| s@),
            record@ == row_fields(name_views, cells.take(i as int)),
            record.meta() == Map::<Seq<char>, Seq<char>>::empty().insert("source_line"@, decimal(line as nat)).insert(
                "source_file"@,
                path@,
            ),
        decreases fields@.len() - i,
    {
        assert(cells.take(i + 1).drop_last() =~= cells.take(i as int));
        if i < names.len() {
            let field = &fields[i];
            let value = if field.as_str().is_empty() {
                Value::Null
            } else {
                Value::String(field.clone())
            };
            record.insert_owned(names[i].clone(), value);
        }
        i = i + 1;
    }
    assert(cells.take(fields@.len() as int) =~= cells);
    record
}

/// The number of lines in a text, as `str::lines` counts them: the line
/// breaks, plus one for a last line without a break.
pub open spec fn line_count(s: Seq<char>) -> nat {
    if s.len() > 0 && s.last() != '\n' {
        line_break_count(s) + 1
    } else {
        line_break_count(s)
    }
}

/// The number of line breaks in a text.
pub open spec fn line_break_count(s: Seq<char>) -> nat
    decreases s.len(),
{
    if s.len() == 0 {
        0
    } else {
        line_break_count(s.drop_last()) + if s.last() == '\n' {
            1nat
        } else {
            0nat
        }
    }
}

/// The number of records a CSV file's content holds for progress
/// estimates: its lines less one for the header, and never below zero.
pub fn count_records(content: &str) -> (r: u64)
    requires
        content@.len() <= u64::MAX,
    ensures
        r == (if line_count(content@) == 0 {
            0
        } else {
            line_count(content@) - 1
        }),
{
    let ghost text = content@;
    let mut breaks: u64 = 0;
    let mut last_is_break = false;
    let mut any = false;
    for c in it: content.chars()
        invariant
            it.seq() == text,
            text.len() <= u64::MAX,
            breaks == line_break_count(text.take(it.index() as int)),
            breaks + (if any && !last_is_break {
                1int
            } else {
                0int
            }) <= it.index(),
            any == (it.index() > 0),
            any ==> last_is_break == (text[it.index() - 1] == '\n'),
    {
        let ghost k = it.index() as int;
        assert(text.take(k + 1).drop_last() =~= text.take(k));
        if c == '\n' {
            breaks = breaks + 1;
            last_is_break = true;
        } else {
            last_is_break = false;
        }
        any = true;
    }
    assert(text.take(text.len() as int) =~= text);
    let lines = if any && !last_is_break {
        breaks + 1
    } else {
        breaks
    };
    if lines == 0 {
        0
    } else {
        lines - 1
    }
}

/// A CSV source is read with its configured options: the first character
/// of the delimiter and of the quote character (as a byte), the header
/// setting and the lines to skip; a comma or a double quote only when the
/// option is empty, and a comma, a double quote, a header row and no
/// skipping without options.
pub proof fn lemma_csv_settings_follow_options(config: SourceConfig)
    requires
        config is Csv,
    ensures
        match config->Csv_csv {
            Some(o) => {
                &&& o.delimiter@.len() > 0 ==> csv_settings(config).0 == (o.delimiter@[0] as u32) as u8
                &&& o.delimiter@.len() == 0 ==> csv_settings(config).0 == 44u8
                &&& o.quote_char@.len() > 0 ==> csv_settings(config).1 == (o.quote_char@[0] as u32) as u8
                &&& o.quote_char@.len() == 0 ==> csv_settings(config).1 == 34u8
                &&& csv_settings(config).2 == o.has_header
                &&& csv_settings(config).3 == o.skip_rows
            },
            None => csv_settings(config) == (44u8, 34u8, true, 0usize),
        },
{
}

} // verus!
