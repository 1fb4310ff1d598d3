//! The source of the items of the menu: standard input, a file, or a
//! callback that is run anew for each query.

use vstd::prelude::*;
use crate::callback::{with_query, Callback};
use crate::command::Invocation;
use crate::io::{extension, extension_of, is_csv_reading, is_jsonlines_reading, ParseError};
use crate::menu::{holds_members, DataError, Item, ItemData};
use crate::text::{copy_optional_texts, optional_texts, text_eq};
use crate::value::StructuredValue;

verus! {

/// The format that the items of the menu come in.
#[derive(Debug, Clone, Copy, PartialEq, Eq, Structural)]
pub enum ItemFormat {
    /// Comma-separated rows without a header row.
    HeadlessCsv,
    /// Comma-separated rows below a header row.
    Csv,
    /// One JSON object on each line.
    Json,
}

impl Default for ItemFormat {
    fn default() -> (format: Self)
        ensures
            format == ItemFormat::HeadlessCsv,
    {
        ItemFormat::HeadlessCsv
    }
}

/// Where the items come from.
#[derive(Debug)]
pub enum InputSource {
    /// Standard input.
    StdIn,
    /// The file at this path.
    File(String),
    /// The output of this callback.
    Callback(Callback),
}

/// What has to be read for the items.
#[derive(Debug, Clone, PartialEq, Eq)]
pub enum ItemsRequest {
    /// Standard input.
    StdIn,
    /// The file at this path.
    File(String),
    /// The output of this process.
    Run(Invocation),
}

/// Why no items came.
#[derive(Debug, Clone, PartialEq, Eq)]
pub enum ItemsError {
    /// The input could not be decoded.
    Parse(ParseError),
    /// The record at this position holds no item data.
    Data(usize, DataError),
}

/// A source of items.
#[derive(Debug)]
pub struct ItemSource {
    input: InputSource,
    format: ItemFormat,
    headers: Option<Vec<String>>,
}

/// The format of the items: the one that is configured; else the one that
/// the extension of the file stands for; else the default.
pub open spec fn menu_format_for(explicit: Option<ItemFormat>, file: Option<Seq<char>>) -> ItemFormat {
    match explicit {
        Some(format) => format,
        None => match file {
            None => ItemFormat::HeadlessCsv,
            Some(path) => match extension(path) {
                None => ItemFormat::HeadlessCsv,
                Some(ext) => if ext == "csv"@ {
                    ItemFormat::Csv
                } else if ext == "json"@ {
                    ItemFormat::Json
                } else {
                    ItemFormat::HeadlessCsv
                },
            },
        },
    }
}

/// Whether `items` are the items that `values` make: for each value an
/// unselected, unmatched item with its position as the id.
pub open spec fn are_menu_items(items: Seq<Item>, values: Seq<StructuredValue>) -> bool {
    &&& items.len() == values.len()
    &&& forall|i: int|
        0 <= i < values.len() ==> {
            &&& (#[trigger] items[i]).id == i
            &&& !items[i].selected
            &&& items[i].score is None
            &&& items[i].match_indices is None
            &&& values[i] matches StructuredValue::Object(props)
            &&& holds_members(items[i].data, props@)
        }
}

/// Whether `outcome` is the reading of `source` in `format`.
pub open spec fn is_reading(
    outcome: Result<StructuredValue, ParseError>,
    format: ItemFormat,
    headers: Option<Seq<Seq<char>>>,
    source: Seq<u8>,
) -> bool {
    match format {
        ItemFormat::HeadlessCsv => is_csv_reading(outcome, source, false, headers),
        ItemFormat::Csv => is_csv_reading(outcome, source, true, headers),
        ItemFormat::Json => is_jsonlines_reading(outcome, source),
    }
}

/// Whether `outcome` is what the records read from `source` make: an item
/// of each record, or the position of the first record that holds no item
/// data, or the error of the reading.
pub open spec fn are_items_read(
    outcome: Result<Vec<Item>, ItemsError>,
    format: ItemFormat,
    headers: Option<Seq<Seq<char>>>,
    source: Seq<u8>,
) -> bool {
    match outcome {
        Ok(items) => exists|values: Vec<StructuredValue>| #[trigger]
            is_reading(Ok(StructuredValue::Array(values)), format, headers, source)
                && are_menu_items(items@, values@),
        Err(ItemsError::Parse(e)) => is_reading(Err(e), format, headers, source),
        Err(ItemsError::Data(at, _)) => exists|values: Vec<StructuredValue>| #[trigger]
            is_reading(Ok(StructuredValue::Array(values)), format, headers, source) && at
                < values@.len(),
    }
}

/// Makes an item of every value and stops at the first that holds no item
/// data.
pub fn menu_items_of(values: &Vec<StructuredValue>) -> (outcome: Result<Vec<Item>, ItemsError>)
    ensures
        match outcome {
            Ok(items) => are_menu_items(items@, values@),
            Err(ItemsError::Data(at, _)) => at < values@.len(),
            Err(ItemsError::Parse(_)) => false,
        },
{
    let mut items: Vec<Item> = Vec::new();
    let mut i: usize = 0;
    while i < values.len()
        invariant
            0 <= i <= values@.len(),
            are_menu_items(items@, values@.subrange(0, i as int)),
        decreases values@.len() - i,
    {
        match ItemData::try_from_json(&values[i]) {
            Ok(data) => {
                items.push(Item::new(i, data));
            },
            Err(e) => {
                return Err(ItemsError::Data(i, e));
            },
        }
        i += 1;
    }
    assert(values@.subrange(0, values@.len() as int) =~= values@);
    Ok(items)
}

/// Makes items of a reading.
fn items_of_reading(reading: Result<StructuredValue, ParseError>) -> (outcome: Result<
    Vec<Item>,
    ItemsError,
>)
    requires
        reading matches Ok(value) ==> value is Array,
    ensures
        match (reading, outcome) {
            (Ok(StructuredValue::Array(values)), Ok(items)) => are_menu_items(items@, values@),
            (Ok(StructuredValue::Array(values)), Err(ItemsError::Data(at, _))) => at
                < values@.len(),
            (Err(e), Err(ItemsError::Parse(f))) => f == e,
            _ => false,
        },
{
    match reading {
        Err(e) => Err(ItemsError::Parse(e)),
        Ok(StructuredValue::Array(values)) => menu_items_of(&values),
        Ok(_) => Err(ItemsError::Parse(ParseError::InvalidJson)),
    }
}

/// Reads `source` in `format` and makes an item of each record.
fn read_items(source: &[u8], format: ItemFormat, headers: Option<Vec<String>>) -> (outcome: Result<
    Vec<Item>,
    ItemsError,
>)
    ensures
        are_items_read(outcome, format, optional_texts(headers), source@),
{
    let reading = match format {
        ItemFormat::HeadlessCsv => crate::io::read_csv(source, false, headers),
        ItemFormat::Csv => crate::io::read_csv(source, true, headers),
        ItemFormat::Json => crate::io::read_jsonlines(source),
    };
    let ghost seen = reading;
    let outcome = items_of_reading(reading);
    proof {
        if let Ok(StructuredValue::Array(values)) = seen {
            assert(is_reading(
                Ok(StructuredValue::Array(values)),
                format,
                optional_texts(headers),
                source@,
            ));
        }
    }
    outcome
}

/// Reads `source` as comma-separated rows and makes an item of each
/// record.
pub fn read_csv(source: &[u8], has_headers: bool, user_headers: Option<Vec<String>>) -> (outcome:
    Result<Vec<Item>, ItemsError>)
    ensures
        are_items_read(
            outcome,
            if has_headers {
                ItemFormat::Csv
            } else {
                ItemFormat::HeadlessCsv
            },
            optional_texts(user_headers),
            source@,
        ),
{
    if has_headers {
        read_items(source, ItemFormat::Csv, user_headers)
    } else {
        read_items(source, ItemFormat::HeadlessCsv, user_headers)
    }
}

/// Reads `source` as one JSON object on each line and makes an item of
/// each.
pub fn read_json(source: &[u8]) -> (outcome: Result<Vec<Item>, ItemsError>)
    ensures
        are_items_read(outcome, ItemFormat::Json, None, source@),
{
    read_items(source, ItemFormat::Json, None)
}

impl ItemSource {
    /// Where the items come from.
    pub closed spec fn input(&self) -> InputSource {
        self.input
    }

    /// The format of the items.
    pub closed spec fn format(&self) -> ItemFormat {
        self.format
    }

    /// The names of the columns, where they are given.
    pub closed spec fn headers(&self) -> Option<Vec<String>> {
        self.headers
    }

    /// The source that the configuration asks for: the file where one is
    /// configured, else the callback where one is given, else standard
    /// input.
    pub fn new(
        file: Option<&str>,
        format: Option<ItemFormat>,
        callback: Option<Vec<String>>,
        columns: &Option<Vec<String>>,
    ) -> (source: Self)
        requires
            file is None ==> (callback matches Some(command) ==> command@.len() > 0),
        ensures
            source.format() == menu_format_for(
                format,
                match file {
                    Some(path) => Some(path@),
                    None => None,
                },
            ),
            optional_texts(source.headers()) == optional_texts(*columns),
            match (file, callback) {
                (Some(path), _) => source.input() matches InputSource::File(p) && p@ == path@,
                (None, Some(command)) => source.input() matches InputSource::Callback(c)
                    && c.program() == command@[0]@ && c.arguments() == crate::text::texts(
                    command@,
                ).drop_first(),
                (None, None) => source.input() is StdIn,
            },
    {
        let detected = match format {
            Some(format) => format,
            None => match file {
                None => ItemFormat::HeadlessCsv,
                Some(path) => match extension_of(path) {
                    None => ItemFormat::HeadlessCsv,
                    Some(ext) => {
                        if text_eq(ext.as_str(), "csv") {
                            ItemFormat::Csv
                        } else if text_eq(ext.as_str(), "json") {
                            ItemFormat::Json
                        } else {
                            ItemFormat::HeadlessCsv
                        }
                    },
                },
            },
        };
        let input = match (file, callback) {
            (Some(path), _) => InputSource::File(String::from_str(path)),
            (None, Some(command)) => InputSource::Callback(Callback::new(command)),
            (None, None) => InputSource::StdIn,
        };
        ItemSource { input, format: detected, headers: copy_optional_texts(columns) }
    }

    /// Says what has to be read for `query`: the query bears on a callback
    /// only.
    pub fn request(&self, query: &str) -> (request: ItemsRequest)
        ensures
            match self.input() {
                InputSource::StdIn => request is StdIn,
                InputSource::File(path) => request matches ItemsRequest::File(p) && p == path,
                InputSource::Callback(callback) => request matches ItemsRequest::Run(invocation)
                    && invocation.runs(
                    callback.program(),
                    with_query(callback.arguments(), query@),
                    None,
                ),
            },
    {
        match &self.input {
            InputSource::StdIn => ItemsRequest::StdIn,
            InputSource::File(path) => ItemsRequest::File(path.clone()),
            InputSource::Callback(callback) => ItemsRequest::Run(callback.prepare(query)),
        }
    }

    /// Makes items of what was read from the source. Rows without a
    /// header and without given names have the columns `key` and `value`.
    pub fn get_items(&self, source: &[u8]) -> (outcome: Result<Vec<Item>, ItemsError>)
        ensures
            are_items_read(outcome, self.format(), optional_texts(self.headers()), source@),
    {
        read_items(source, self.format, copy_optional_texts(&self.headers))
    }
}

} // verus!
