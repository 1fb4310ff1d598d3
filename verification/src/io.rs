//! Data ingestion: the formats that input comes in and how bytes become a
//! structured value.

use vstd::prelude::*;
use vstd::utf8::{decode_utf8, valid_utf8};
use crate::command::{is_verdict, Command, CommandError, Invocation, ProcessOutcome};
use crate::config::Config;
use crate::dictionary::Dictionary;
use crate::expansion::{
    bound_arguments, expand_path, home_view, is_failure_of, path_expansion, variables,
    ArgumentMap, ExpansionContext, ExpansionError,
};
use crate::text::{
    chars_of, copy_bytes, copy_optional_texts, find_last, first_error, first_position,
    last_position, lemma_first_error_is, lemma_first_position_is, optional_text, optional_texts,
    sub_text, text_eq, texts, utf8_text,
};
use crate::value::{json_document, parse_json, StructuredValue};

verus! {

/// How a byte stream is decoded.
#[derive(Debug, Clone, Copy, PartialEq, Eq, Structural)]
pub enum IOFormat {
    /// Comma-separated rows without a header row.
    HeadlessCsv,
    /// Comma-separated rows below a header row.
    Csv,
    /// One JSON document.
    Json,
    /// One JSON value on each line.
    JsonLines,
    /// The whole input as one string.
    Raw,
}

impl Default for IOFormat {
    fn default() -> (format: Self)
        ensures
            format == IOFormat::Raw,
    {
        IOFormat::Raw
    }
}

/// Why input could not be decoded.
#[derive(Debug, Clone, PartialEq, Eq)]
pub enum ParseError {
    /// The input, or a line of it, is not valid UTF-8.
    InvalidUtf8,
    /// The input is not one JSON document.
    InvalidJson,
    /// The line, given here in full, is not a JSON value.
    MalformedLine(String),
    /// The rows are not well-formed CSV; the text says where and why.
    Csv(String),
}

/// The byte that ends a line.
pub const NEWLINE: u8 = 10;

/// The byte that may stand before the one that ends a line.
pub const CARRIAGE_RETURN: u8 = 13;

/// A line without the carriage return that stood before its newline.
pub open spec fn without_carriage_return(line: Seq<u8>) -> Seq<u8> {
    if line.len() > 0 && line.last() == CARRIAGE_RETURN {
        line.drop_last()
    } else {
        line
    }
}

/// The lines of `bytes`: each ends before a newline, without the carriage
/// return before it; what follows the last newline is a line if it is not
/// empty, and keeps a carriage return at its end.
pub open spec fn lines_of(bytes: Seq<u8>) -> Seq<Seq<u8>>
    decreases bytes.len(),
{
    if bytes.len() == 0 {
        Seq::empty()
    } else {
        let end = first_position(bytes, NEWLINE);
        if 0 <= end < bytes.len() {
            seq![without_carriage_return(bytes.subrange(0, end))] + lines_of(
                bytes.subrange(end + 1, bytes.len() as int),
            )
        } else {
            seq![bytes]
        }
    }
}

/// The byte strings as sequences.
pub open spec fn byte_lines(lines: Seq<Vec<u8>>) -> Seq<Seq<u8>> {
    lines.map_values(|l: Vec<u8>| l@)
}

/// Splits `bytes` into its lines.
pub fn split_lines(bytes: &[u8]) -> (lines: Vec<Vec<u8>>)
    ensures
        byte_lines(lines@) == lines_of(bytes@),
{
    let mut lines: Vec<Vec<u8>> = Vec::new();
    let mut start: usize = 0;
    let length = bytes.len();
    assert(bytes@.subrange(0, length as int) =~= bytes@);
    while start < length
        invariant
            0 <= start <= length,
            length == bytes@.len(),
            lines_of(bytes@) == byte_lines(lines@) + lines_of(
                bytes@.subrange(start as int, length as int),
            ),
        decreases length - start,
    {
        let ghost rest = bytes@.subrange(start as int, length as int);
        let mut end: usize = start;
        while end < length && bytes[end] != NEWLINE
            invariant
                start <= end <= length,
                length == bytes@.len(),
                forall|j: int| start <= j < end ==> bytes@[j] != NEWLINE,
            decreases length - end,
        {
            end += 1;
        }
        proof {
            lemma_first_position_is(rest, NEWLINE, end - start);
        }
        let ghost done = byte_lines(lines@);
        if end < length {
            let stop = if end > start && bytes[end - 1] == CARRIAGE_RETURN {
                end - 1
            } else {
                end
            };
            let line = copy_bytes(bytes, start, stop);
            proof {
                assert(rest.subrange(0, end - start) =~= bytes@.subrange(
                    start as int,
                    end as int,
                ));
                assert(line@ =~= without_carriage_return(rest.subrange(0, end - start)));
                assert(rest.subrange(end - start + 1, rest.len() as int) =~= bytes@.subrange(
                    end + 1,
                    length as int,
                ));
            }
            lines.push(line);
            proof {
                assert(byte_lines(lines@) =~= done + seq![line@]);
                assert(lines_of(bytes@) =~= byte_lines(lines@) + lines_of(
                    bytes@.subrange(end + 1, length as int),
                ));
            }
            start = end + 1;
        } else {
            let line = copy_bytes(bytes, start, length);
            lines.push(line);
            proof {
                assert(line@ =~= rest);
                assert(byte_lines(lines@) =~= done + seq![rest]);
                assert(bytes@.subrange(length as int, length as int) =~= Seq::<u8>::empty());
                assert(lines_of(bytes@) =~= byte_lines(lines@) + lines_of(
                    bytes@.subrange(length as int, length as int),
                ));
            }
            start = length;
        }
    }
    proof {
        assert(bytes@.subrange(length as int, length as int) =~= Seq::<u8>::empty());
        assert(lines_of(bytes@) =~= byte_lines(lines@));
    }
    lines
}

/// Whether `outcome` is the reading of `source` as one string.
pub open spec fn is_raw_reading(
    outcome: Result<StructuredValue, ParseError>,
    source: Seq<u8>,
) -> bool {
    if valid_utf8(source) {
        outcome matches Ok(value) && value.is_text(decode_utf8(source))
    } else {
        outcome matches Err(ParseError::InvalidUtf8)
    }
}

/// Reads the whole of `source` as one string.
pub fn read_raw(source: &[u8]) -> (outcome: Result<StructuredValue, ParseError>)
    ensures
        is_raw_reading(outcome, source@),
{
    match utf8_text(source) {
        Some(text) => Ok(StructuredValue::Text(text)),
        None => Err(ParseError::InvalidUtf8),
    }
}

/// Whether `outcome` is the reading of `source` as one JSON document.
pub open spec fn is_json_reading(
    outcome: Result<StructuredValue, ParseError>,
    source: Seq<u8>,
) -> bool {
    match json_document(source) {
        Some(document) => outcome == Ok::<StructuredValue, ParseError>(document),
        None => outcome matches Err(ParseError::InvalidJson),
    }
}

/// Reads `source` as one JSON document.
pub fn read_json(source: &[u8]) -> (outcome: Result<StructuredValue, ParseError>)
    ensures
        is_json_reading(outcome, source@),
{
    match parse_json(source) {
        Some(document) => Ok(document),
        None => Err(ParseError::InvalidJson),
    }
}

/// Why one line is not a value.
pub enum LineFault {
    /// It is not valid UTF-8.
    NotText,
    /// It is this text, which is not a JSON value.
    NotJson(Seq<char>),
}

/// The value on one line, or why there is none.
pub open spec fn line_value(line: Seq<u8>) -> Result<StructuredValue, LineFault> {
    if !valid_utf8(line) {
        Err(LineFault::NotText)
    } else {
        match json_document(line) {
            Some(value) => Ok(value),
            None => Err(LineFault::NotJson(decode_utf8(line))),
        }
    }
}

/// The value on each line.
pub open spec fn line_values(lines: Seq<Seq<u8>>) -> Seq<Result<StructuredValue, LineFault>> {
    lines.map_values(|l: Seq<u8>| line_value(l))
}

/// Whether `error` reports `fault`.
pub open spec fn reports(error: ParseError, fault: LineFault) -> bool {
    match fault {
        LineFault::NotText => error matches ParseError::InvalidUtf8,
        LineFault::NotJson(text) => error matches ParseError::MalformedLine(line) && line@ == text,
    }
}

/// Whether `outcome` is the reading of `source` as one JSON value per
/// line: the values in order, or the fault of the first line without one.
pub open spec fn is_jsonlines_reading(
    outcome: Result<StructuredValue, ParseError>,
    source: Seq<u8>,
) -> bool {
    let values = line_values(lines_of(source));
    let failed = first_error(values);
    match outcome {
        Ok(StructuredValue::Array(items)) => {
            &&& failed == values.len()
            &&& items@.len() == values.len()
            &&& forall|i: int|
                0 <= i < values.len() ==> values[i] == Ok::<StructuredValue, LineFault>(
                    #[trigger] items@[i],
                )
        },
        Ok(_) => false,
        Err(e) => {
            &&& failed < values.len()
            &&& values[failed] matches Err(fault) && reports(e, fault)
        },
    }
}

/// Reads `source` as one JSON value on each line.
pub fn read_jsonlines(source: &[u8]) -> (outcome: Result<StructuredValue, ParseError>)
    ensures
        is_jsonlines_reading(outcome, source@),
{
    let lines = split_lines(source);
    let ghost values = line_values(lines_of(source@));
    let mut items: Vec<StructuredValue> = Vec::new();
    let mut i: usize = 0;
    while i < lines.len()
        invariant
            0 <= i <= lines@.len(),
            byte_lines(lines@) == lines_of(source@),
            values == line_values(lines_of(source@)),
            items@.len() == i,
            forall|j: int|
                0 <= j < i ==> values[j] == Ok::<StructuredValue, LineFault>(#[trigger] items@[j]),
        decreases lines@.len() - i,
    {
        assert(values[i as int] == line_value(lines@[i as int]@));
        let ghost so_far = items@;
        let line = lines[i].as_slice();
        match utf8_text(line) {
            None => {
                proof {
                    assert forall|j: int| 0 <= j < i implies values[j] is Ok by {
                        assert(values[j] == Ok::<StructuredValue, LineFault>(so_far[j]));
                    }
                    lemma_first_error_is(values, i as int);
                }
                return Err(ParseError::InvalidUtf8);
            },
            Some(text) => {
                match parse_json(line) {
                    Some(value) => {
                        items.push(value);
                    },
                    None => {
                        proof {
                            assert forall|j: int| 0 <= j < i implies values[j] is Ok by {
                                assert(values[j] == Ok::<StructuredValue, LineFault>(so_far[j]));
                            }
                            lemma_first_error_is(values, i as int);
                        }
                        return Err(ParseError::MalformedLine(text));
                    },
                }
            },
        }
        i += 1;
    }
    proof {
        assert forall|j: int| 0 <= j < values.len() implies values[j] is Ok by {
            assert(values[j] == Ok::<StructuredValue, LineFault>(items@[j]));
        }
        lemma_first_error_is(values, values.len() as int);
    }
    Ok(StructuredValue::Array(items))
}

/// The rows that the `csv` crate reads from `bytes`, each a list of
/// fields, when every row counts as data; nothing where the crate reports
/// an error.
pub uninterp spec fn csv_table(bytes: Seq<u8>) -> Option<Seq<Seq<Seq<char>>>>;

/// The rows with each field as its character sequence.
pub open spec fn table_view(rows: Seq<Vec<String>>) -> Seq<Seq<Seq<char>>> {
    rows.map_values(|r: Vec<String>| texts(r@))
}

/// Whether all rows have the same number of fields.
pub open spec fn uniform(rows: Seq<Seq<Seq<char>>>) -> bool {
    forall|i: int, j: int|
        0 <= i < rows.len() && 0 <= j < rows.len() ==> (#[trigger] rows[i]).len() == (
        #[trigger] rows[j]).len()
}

/// Reads all records with a `csv::Reader` that treats no row as a header
/// and is otherwise as `csv::ReaderBuilder::new` makes it. The contract
/// names the rows and adds what the crate documents of such a reader: it
/// reports rows of unequal length as an error.
#[verifier::external_body]
fn read_records(source: &[u8]) -> (outcome: Result<Vec<Vec<String>>, String>)
    ensures
        match outcome {
            Ok(rows) => csv_table(source@) == Some(table_view(rows@)) && uniform(
                table_view(rows@),
            ),
            Err(_) => csv_table(source@) is None,
        },
{
    csv::ReaderBuilder::new()
        .has_headers(false)
        .from_reader(source)
        .into_records()
        .map(|record| record.map(|fields| fields.iter().map(String::from).collect()))
        .collect::<Result<Vec<Vec<String>>, csv::Error>>()
        .map_err(|error| error.to_string())
}

/// The names of the columns where none are given and no row holds them.
pub open spec fn default_headers() -> Seq<Seq<char>> {
    seq!["key"@, "value"@]
}

/// The names of the columns: those given, else the first row where the
/// rows have a header, else the default names.
pub open spec fn header_row(
    rows: Seq<Seq<Seq<char>>>,
    has_headers: bool,
    user_headers: Option<Seq<Seq<char>>>,
) -> Seq<Seq<char>> {
    match user_headers {
        Some(names) => names,
        None => if has_headers {
            if rows.len() > 0 {
                rows[0]
            } else {
                Seq::empty()
            }
        } else {
            default_headers()
        },
    }
}

/// The rows that hold data: all of them, but for the first where it holds
/// the names of the columns.
pub open spec fn data_rows(
    rows: Seq<Seq<Seq<char>>>,
    has_headers: bool,
    user_headers: Option<Seq<Seq<char>>>,
) -> Seq<Seq<Seq<char>>> {
    if user_headers is None && has_headers && rows.len() > 0 {
        rows.drop_first()
    } else {
        rows
    }
}

/// The number of columns that have both a name and a field.
pub open spec fn shared_width(headers: Seq<Seq<char>>, row: Seq<Seq<char>>) -> nat {
    if headers.len() <= row.len() {
        headers.len()
    } else {
        row.len()
    }
}

/// The first `n` fields of `row` under the names of their columns; of two
/// columns with one name the later one stays.
pub open spec fn record_fields(headers: Seq<Seq<char>>, row: Seq<Seq<char>>, n: nat) -> Map<
    Seq<char>,
    Seq<char>,
>
    decreases n,
{
    if n == 0 {
        Map::empty()
    } else {
        record_fields(headers, row, (n - 1) as nat).insert(headers[n - 1], row[n - 1])
    }
}

/// The record that a row makes under the names of the columns.
pub open spec fn record_of(headers: Seq<Seq<char>>, row: Seq<Seq<char>>) -> Map<
    Seq<char>,
    Seq<char>,
> {
    record_fields(headers, row, shared_width(headers, row))
}

/// Whether `value` is the object that holds exactly `fields`, each as a
/// string.
pub open spec fn is_record(value: StructuredValue, fields: Map<Seq<char>, Seq<char>>) -> bool {
    value matches StructuredValue::Object(members) && members@.dom() == fields.dom() && forall|
        k: Seq<char>,
    |
        fields.contains_key(k) ==> (#[trigger] members@[k]).is_text(fields[k])
}

/// The object that `row` makes under `headers`.
pub fn build_record(headers: &Vec<String>, row: &Vec<String>) -> (record: StructuredValue)
    ensures
        is_record(record, record_of(texts(headers@), texts(row@))),
{
    let width = if headers.len() <= row.len() {
        headers.len()
    } else {
        row.len()
    };
    let mut members: Dictionary<StructuredValue> = Dictionary::new();
    let mut j: usize = 0;
    while j < width
        invariant
            0 <= j <= width,
            width == shared_width(texts(headers@), texts(row@)),
            members@.dom() == record_fields(texts(headers@), texts(row@), j as nat).dom(),
            forall|k: Seq<char>|
                record_fields(texts(headers@), texts(row@), j as nat).contains_key(k) ==> (
                #[trigger] members@[k]).is_text(
                    record_fields(texts(headers@), texts(row@), j as nat)[k],
                ),
        decreases width - j,
    {
        let ghost before = members@;
        let ghost fields = record_fields(texts(headers@), texts(row@), j as nat);
        let name = headers[j].clone();
        let field = row[j].clone();
        members = members.with(name, StructuredValue::Text(field));
        proof {
            let grown = record_fields(texts(headers@), texts(row@), (j + 1) as nat);
            assert(grown == fields.insert(texts(headers@)[j as int], texts(row@)[j as int]));
            assert(members@.dom() =~= grown.dom());
            assert forall|k: Seq<char>| grown.contains_key(k) implies (#[trigger] members@[k]).is_text(
                grown[k],
            ) by {
                if k != headers@[j as int]@ {
                    assert(before[k].is_text(fields[k]));
                }
            }
        }
        j += 1;
    }
    StructuredValue::Object(members)
}

/// Whether `outcome` is the reading of `source` as rows of fields: one
/// record for each row of data, or the error of the `csv` crate.
pub open spec fn is_csv_reading(
    outcome: Result<StructuredValue, ParseError>,
    source: Seq<u8>,
    has_headers: bool,
    user_headers: Option<Seq<Seq<char>>>,
) -> bool {
    match csv_table(source) {
        None => outcome matches Err(ParseError::Csv(_)),
        Some(rows) => {
            let headers = header_row(rows, has_headers, user_headers);
            let data = data_rows(rows, has_headers, user_headers);
            &&& outcome matches Ok(StructuredValue::Array(items))
            &&& items@.len() == data.len()
            &&& forall|i: int|
                0 <= i < data.len() ==> is_record(#[trigger] items@[i], record_of(headers, data[i]))
        },
    }
}

/// Reads `source` as comma-separated rows and makes a record of each row
/// of data. The names of the columns are `user_headers` where given; else
/// the first row, which then is no data, where `has_headers` holds; else
/// `key` and `value`. A column without a name, and a name without a
/// column, are left out of the record.
pub fn read_csv(source: &[u8], has_headers: bool, user_headers: Option<Vec<String>>) -> (outcome:
    Result<StructuredValue, ParseError>)
    ensures
        is_csv_reading(outcome, source@, has_headers, optional_texts(user_headers)),
{
    let rows = match read_records(source) {
        Ok(rows) => rows,
        Err(reason) => {
            return Err(ParseError::Csv(reason));
        },
    };
    let ghost table = table_view(rows@);
    let ghost user = optional_texts(user_headers);
    let first: usize = if user_headers.is_none() && has_headers && rows.len() > 0 {
        1
    } else {
        0
    };
    let headers: Vec<String> = match user_headers {
        Some(names) => names,
        None => {
            if has_headers {
                if rows.len() > 0 {
                    crate::text::copy_texts(&rows[0])
                } else {
                    Vec::new()
                }
            } else {
                let mut names: Vec<String> = Vec::new();
                names.push(String::from_str("key"));
                names.push(String::from_str("value"));
                names
            }
        },
    };
    proof {
        assert(texts(headers@) =~= header_row(table, has_headers, user));
    }
    let ghost data = data_rows(table, has_headers, user);
    let mut items: Vec<StructuredValue> = Vec::new();
    let mut i: usize = first;
    while i < rows.len()
        invariant
            first <= i <= rows@.len() || (i == first && rows@.len() == 0),
            first <= 1,
            table == table_view(rows@),
            data == (if first == 1 {
                table.drop_first()
            } else {
                table
            }),
            first == 1 ==> rows@.len() > 0,
            items@.len() == i - first,
            forall|k: int|
                0 <= k < i - first ==> is_record(
                    #[trigger] items@[k],
                    record_of(texts(headers@), data[k]),
                ),
        decreases rows@.len() - i,
    {
        let record = build_record(&headers, &rows[i]);
        proof {
            assert(data[i - first] == texts(rows@[i as int]@));
        }
        items.push(record);
        i += 1;
    }
    Ok(StructuredValue::Array(items))
}

/// The keys of a record are the names of the columns that have a field.
pub proof fn lemma_record_keys(headers: Seq<Seq<char>>, row: Seq<Seq<char>>, n: nat)
    requires
        n <= headers.len(),
    ensures
        record_fields(headers, row, n).dom() == headers.subrange(0, n as int).to_set(),
    decreases n,
{
    if n == 0 {
        assert(record_fields(headers, row, n).dom() =~= headers.subrange(0, 0).to_set());
    } else {
        lemma_record_keys(headers, row, (n - 1) as nat);
        let shorter = headers.subrange(0, n - 1);
        let longer = headers.subrange(0, n as int);
        assert forall|k: Seq<char>| longer.to_set().contains(k) == shorter.to_set().insert(
            headers[n - 1],
        ).contains(k) by {
            if shorter.contains(k) {
                let i = choose|i: int| 0 <= i < shorter.len() && shorter[i] == k;
                assert(longer[i] == k);
            }
            if longer.contains(k) {
                let i = choose|i: int| 0 <= i < longer.len() && longer[i] == k;
                if i < n - 1 {
                    assert(shorter[i] == k);
                }
            }
            if k == headers[n - 1] {
                assert(longer[n - 1] == k);
            }
        }
        assert(record_fields(headers, row, n).dom() =~= longer.to_set());
    }
}

/// Below a header row, every record of a table whose rows are equally long
/// has exactly the names of that row as its keys; where no name occurs
/// twice there are as many keys as names.
pub proof fn lemma_records_keyed_by_header(rows: Seq<Seq<Seq<char>>>, i: int)
    requires
        uniform(rows),
        0 <= i < data_rows(rows, true, None).len(),
    ensures
        rows.len() > 0,
        record_of(header_row(rows, true, None), data_rows(rows, true, None)[i]).dom()
            == rows[0].to_set(),
        rows[0].no_duplicates() ==> record_of(
            header_row(rows, true, None),
            data_rows(rows, true, None)[i],
        ).dom().len() == rows[0].len(),
{
    let headers = rows[0];
    let row = rows[i + 1];
    assert(data_rows(rows, true, None)[i] == row);
    assert(rows[0].len() == rows[i + 1].len());
    lemma_record_keys(headers, row, headers.len());
    assert(headers.subrange(0, headers.len() as int) =~= headers);
    if headers.no_duplicates() {
        headers.unique_seq_to_set();
    }
}

/// Without given names and without a header row, a row of one field makes
/// the record that holds that field under `key` and nothing under `value`.
pub proof fn lemma_single_column_record(field: Seq<char>)
    ensures
        record_of(default_headers(), seq![field]) == Map::<Seq<char>, Seq<char>>::empty().insert(
            "key"@,
            field,
        ),
{
    reveal_with_fuel(record_fields, 2);
    assert(shared_width(default_headers(), seq![field]) == 1);
}

/// Where input is read from.
#[derive(Debug, Clone, PartialEq, Eq)]
pub enum DataSourceKind {
    /// Standard input.
    StdIn,
    /// The file at this path, which may hold `~` and variables.
    File(String),
    /// The output of this command.
    Command(Command),
}

/// Why a source gave no value.
#[derive(Debug, Clone, PartialEq, Eq)]
pub enum DataError {
    /// The path of the file could not be expanded.
    Expansion(ExpansionError),
    /// The command could not be prepared, or did not succeed.
    Command(CommandError),
    /// The file or standard input could not be read.
    Read(String),
    /// What was read could not be decoded.
    Parse(ParseError),
}

/// What has to be read before a value can be parsed.
#[derive(Debug, Clone, PartialEq, Eq)]
pub enum ReadRequest {
    /// What was captured of standard input.
    StdIn,
    /// The file at this path.
    File(String),
    /// The output of this process.
    Run(Invocation),
}

/// What came of a read.
#[derive(Debug, Clone, PartialEq, Eq)]
pub enum ReadOutcome {
    /// The content of the file or of standard input.
    Content(Vec<u8>),
    /// The file or standard input could not be read.
    Failed(String),
    /// How the process ended.
    Process(ProcessOutcome),
}

/// A source of input with the format that it is decoded in.
#[derive(Debug)]
pub struct DataParser {
    kind: DataSourceKind,
    format: IOFormat,
    headers: Option<Vec<String>>,
}

/// Whether `outcome` is the decoding of `source` in `format`.
pub open spec fn is_decoding(
    outcome: Result<StructuredValue, ParseError>,
    format: IOFormat,
    headers: Option<Seq<Seq<char>>>,
    source: Seq<u8>,
) -> bool {
    match format {
        IOFormat::HeadlessCsv => is_csv_reading(outcome, source, false, headers),
        IOFormat::Csv => is_csv_reading(outcome, source, true, headers),
        IOFormat::Json => is_json_reading(outcome, source),
        IOFormat::JsonLines => is_jsonlines_reading(outcome, source),
        IOFormat::Raw => is_raw_reading(outcome, source),
    }
}

/// Whether `outcome` is the decoding of `source` in `format`, a failure
/// being a parse error.
pub open spec fn is_parsed(
    outcome: Result<StructuredValue, DataError>,
    format: IOFormat,
    headers: Option<Seq<Seq<char>>>,
    source: Seq<u8>,
) -> bool {
    match outcome {
        Ok(value) => is_decoding(Ok(value), format, headers, source),
        Err(DataError::Parse(e)) => is_decoding(Err(e), format, headers, source),
        Err(_) => false,
    }
}

/// The part of a path behind its last `/`.
pub open spec fn file_name(path: Seq<char>) -> Seq<char> {
    path.subrange(last_position(path, '/') + 1, path.len() as int)
}

/// The extension of the file that a path names: what follows the last `.`
/// of the file name, unless the name begins with its only `.` or is `..`.
pub open spec fn extension(path: Seq<char>) -> Option<Seq<char>> {
    let name = file_name(path);
    let dot = last_position(name, '.');
    if dot <= 0 || name == seq!['.', '.'] {
        None
    } else {
        Some(name.subrange(dot + 1, name.len() as int))
    }
}

/// The extension of the file that `path` names.
pub fn extension_of(path: &str) -> (found: Option<String>)
    ensures
        optional_text(found) == extension(path@),
{
    let owned = chars_of(path);
    let chars = owned.as_slice();
    let length = chars.len();
    let start: usize = match find_last(chars, '/') {
        Some(slash) => slash + 1,
        None => 0,
    };
    let name = vstd::slice::slice_subrange(chars, start, length);
    assert(name@ == file_name(path@));
    let size = name.len();
    if size == 2 && name[0] == '.' && name[1] == '.' {
        assert(name@ =~= seq!['.', '.']);
        return None;
    }
    match find_last(name, '.') {
        Some(dot) => {
            if dot == 0 {
                None
            } else {
                assert(name@ != seq!['.', '.']) by {
                    if name@ == seq!['.', '.'] {
                        assert(name@.len() == 2);
                        assert(name@[0] == '.');
                        assert(name@[1] == '.');
                    }
                }
                Some(sub_text(name, dot + 1, size))
            }
        },
        None => None,
    }
}

/// The format that input is decoded in: the one that is configured; else
/// the one that the extension of the file stands for, `Raw` for any other
/// extension; `HeadlessCsv` for a file without extension and for standard
/// input.
pub open spec fn format_for(explicit: Option<IOFormat>, file: Option<Seq<char>>) -> IOFormat {
    match explicit {
        Some(format) => format,
        None => match file {
            None => IOFormat::HeadlessCsv,
            Some(path) => match extension(path) {
                None => IOFormat::HeadlessCsv,
                Some(ext) => if ext == "csv"@ {
                    IOFormat::Csv
                } else if ext == "json"@ {
                    IOFormat::Json
                } else if ext == "jsonl"@ {
                    IOFormat::JsonLines
                } else {
                    IOFormat::Raw
                },
            },
        },
    }
}

/// Decides the format that input is decoded in.
pub fn detect_format(explicit: Option<IOFormat>, file: Option<&str>) -> (format: IOFormat)
    ensures
        format == format_for(
            explicit,
            match file {
                Some(path) => Some(path@),
                None => None,
            },
        ),
{
    if let Some(format) = explicit {
        return format;
    }
    match file {
        None => IOFormat::HeadlessCsv,
        Some(path) => match extension_of(path) {
            None => IOFormat::HeadlessCsv,
            Some(ext) => {
                if text_eq(ext.as_str(), "csv") {
                    IOFormat::Csv
                } else if text_eq(ext.as_str(), "json") {
                    IOFormat::Json
                } else if text_eq(ext.as_str(), "jsonl") {
                    IOFormat::JsonLines
                } else {
                    IOFormat::Raw
                }
            },
        },
    }
}

impl DataParser {
    /// Where the input is read from.
    pub closed spec fn kind(&self) -> DataSourceKind {
        self.kind
    }

    /// The format that the input is decoded in.
    pub closed spec fn format(&self) -> IOFormat {
        self.format
    }

    /// The names of the columns, where they are given.
    pub closed spec fn headers(&self) -> Option<Vec<String>> {
        self.headers
    }

    /// A parser of `kind` in `format`.
    pub fn new(kind: DataSourceKind, format: IOFormat, headers: Option<Vec<String>>) -> (parser:
        Self)
        ensures
            parser.kind() == kind,
            parser.format() == format,
            parser.headers() == headers,
    {
        DataParser { kind, format, headers }
    }

    /// The parser of the configured input: the file where one is
    /// configured, else standard input, in the format that
    /// [`format_for`] gives.
    pub fn from_config(config: &Config) -> (parser: Self)
        ensures
            parser.format() == format_for(config.format, optional_text(config.file)),
            match config.file {
                Some(path) => parser.kind() matches DataSourceKind::File(p) && p == path,
                None => parser.kind() is StdIn,
            },
            optional_texts(parser.headers()) == optional_texts(config.headers),
    {
        let format = match &config.file {
            Some(path) => detect_format(config.format, Some(path.as_str())),
            None => detect_format(config.format, None),
        };
        let kind = match &config.file {
            Some(path) => DataSourceKind::File(path.clone()),
            None => DataSourceKind::StdIn,
        };
        DataParser { kind, format, headers: copy_optional_texts(&config.headers) }
    }

    /// Decodes `source` in the format of this parser.
    pub fn decode(&self, source: &[u8]) -> (outcome: Result<StructuredValue, ParseError>)
        ensures
            is_decoding(outcome, self.format(), optional_texts(self.headers()), source@),
    {
        match self.format {
            IOFormat::HeadlessCsv => read_csv(source, false, copy_optional_texts(&self.headers)),
            IOFormat::Csv => read_csv(source, true, copy_optional_texts(&self.headers)),
            IOFormat::Json => read_json(source),
            IOFormat::JsonLines => read_jsonlines(source),
            IOFormat::Raw => read_raw(source),
        }
    }

    /// Whether `outcome` is what has to be read for this parser.
    pub open spec fn requests(
        &self,
        outcome: Result<ReadRequest, DataError>,
        args: Map<Seq<char>, String>,
        stdin: Option<Seq<char>>,
        context: ExpansionContext,
    ) -> bool {
        match self.kind() {
            DataSourceKind::StdIn => outcome matches Ok(ReadRequest::StdIn),
            DataSourceKind::File(path) => match path_expansion(
                path@,
                home_view(context.home_dir),
                variables(Map::empty(), context.environment@),
            ) {
                Ok(text) => outcome matches Ok(ReadRequest::File(p)) && p@ == text,
                Err(name) => outcome matches Err(DataError::Expansion(e)) && is_failure_of(
                    e,
                    name,
                    context.environment@,
                ),
            },
            DataSourceKind::Command(command) => match outcome {
                Ok(ReadRequest::Run(invocation)) => command.prepares(
                    Ok(invocation),
                    args,
                    stdin,
                    context.environment@,
                ),
                Err(DataError::Command(e)) => command.prepares(
                    Err(e),
                    args,
                    stdin,
                    context.environment@,
                ),
                _ => false,
            },
        }
    }

    /// Says what has to be read: standard input, the file at the expanded
    /// path, or the output of the prepared command. `args` and
    /// `stdin_lines` bear on a command only.
    pub fn request(
        &self,
        args: Option<&ArgumentMap>,
        stdin_lines: Option<Vec<String>>,
        line_ending: &str,
        context: &ExpansionContext,
    ) -> (outcome: Result<ReadRequest, DataError>)
        ensures
            self.requests(
                outcome,
                bound_arguments(args),
                crate::command::stdin_text(stdin_lines, line_ending@),
                *context,
            ),
    {
        match &self.kind {
            DataSourceKind::StdIn => Ok(ReadRequest::StdIn),
            DataSourceKind::File(path) => match expand_path(path.as_str(), context) {
                Ok(expanded) => Ok(ReadRequest::File(expanded)),
                Err(e) => Err(DataError::Expansion(e)),
            },
            DataSourceKind::Command(command) => match command.prepare(
                args,
                stdin_lines,
                line_ending,
                context,
            ) {
                Ok(invocation) => Ok(ReadRequest::Run(invocation)),
                Err(e) => Err(DataError::Command(e)),
            },
        }
    }

    /// Whether `outcome` is the value that `read` amounts to.
    pub open spec fn parses(&self, outcome: Result<StructuredValue, DataError>, read: ReadOutcome) -> bool {
        match read {
            ReadOutcome::Content(bytes) => is_parsed(
                outcome,
                self.format(),
                optional_texts(self.headers()),
                bytes@,
            ),
            ReadOutcome::Failed(reason) => outcome matches Err(DataError::Read(r)) && r == reason,
            ReadOutcome::Process(ended) => match ended {
                ProcessOutcome::Exited { stdout, status } => if status == Some(0i32) {
                    is_parsed(outcome, self.format(), optional_texts(self.headers()), stdout@)
                } else {
                    outcome matches Err(DataError::Command(e)) && is_verdict(Err(e), ended)
                },
                _ => outcome matches Err(DataError::Command(e)) && is_verdict(Err(e), ended),
            },
        }
    }

    /// Parses what was read: the content of a file or of standard input,
    /// or the output of a process that ended with status zero. A failed
    /// read and a failed process are errors of their own.
    pub fn parse(&self, read: ReadOutcome) -> (outcome: Result<StructuredValue, DataError>)
        ensures
            self.parses(outcome, read),
    {
        let bytes = match read {
            ReadOutcome::Content(bytes) => bytes,
            ReadOutcome::Failed(reason) => {
                return Err(DataError::Read(reason));
            },
            ReadOutcome::Process(ended) => match Command::complete(ended) {
                Ok(result) => result.stdout,
                Err(e) => {
                    return Err(DataError::Command(e));
                },
            },
        };
        match self.decode(bytes.as_slice()) {
            Ok(value) => Ok(value),
            Err(e) => Err(DataError::Parse(e)),
        }
    }
}

impl From<Config> for DataParser {
    /// The parser of the configured input, as [`DataParser::from_config`]
    /// makes it.
    fn from(value: Config) -> (parser: DataParser) {
        let format = match &value.file {
            Some(path) => detect_format(value.format, Some(path.as_str())),
            None => detect_format(value.format, None),
        };
        let kind = match value.file {
            Some(path) => DataSourceKind::File(path),
            None => DataSourceKind::StdIn,
        };
        DataParser { kind, format, headers: value.headers }
    }
}

impl vstd::std_specs::convert::FromSpecImpl<Config> for DataParser {
    open spec fn obeys_from_spec() -> bool {
        true
    }

    closed spec fn from_spec(value: Config) -> DataParser {
        DataParser {
            kind: match value.file {
                Some(path) => DataSourceKind::File(path),
                None => DataSourceKind::StdIn,
            },
            format: format_for(value.format, optional_text(value.file)),
            headers: value.headers,
        }
    }
}

/// What converting a configuration into a parser gives: the file where
/// one is configured, else standard input; the format that [`format_for`]
/// gives; the configured names of the columns.
pub proof fn lemma_parser_from_config(value: Config)
    ensures
        <DataParser as vstd::std_specs::convert::FromSpec<Config>>::from_spec(value).format()
            == format_for(value.format, optional_text(value.file)),
        <DataParser as vstd::std_specs::convert::FromSpec<Config>>::from_spec(value).headers()
            == value.headers,
        <DataParser as vstd::std_specs::convert::FromSpec<Config>>::from_spec(value).kind() == (
        match value.file {
            Some(path) => DataSourceKind::File(path),
            None => DataSourceKind::StdIn,
        }),
{
}

} // verus!
