//! The source of the items: where they are read from, in which format,
//! and how what was read becomes items.

use vstd::prelude::*;
use crate::command::Command;
use crate::config::Config;
use crate::dictionary::Dictionary;
use crate::io::{
    extension, extension_of, is_csv_reading, is_jsonlines_reading, is_raw_reading, IOFormat,
    ParseError,
};
use crate::item::{is_item, item_fault, item_faults, items_of, Item, ItemError};
use crate::text::{
    copy_optional_texts, copy_texts, first_error, optional_text, optional_texts, text_eq,
};
use crate::value::StructuredValue;

verus! {

/// Where the items come from.
#[derive(Debug, Clone, PartialEq, Eq)]
pub enum InputSource {
    /// Standard input.
    StdIn,
    /// The file at this path.
    File(String),
    /// The output of this command.
    Callback(Command),
}

/// Why no items came.
#[derive(Debug, Clone, PartialEq, Eq)]
pub enum ItemsError {
    /// The input could not be decoded.
    Parse(ParseError),
    /// A value of the input is no item.
    Item(ItemError),
}

/// A source of items.
#[derive(Debug)]
pub struct ItemSource {
    input: InputSource,
    format: IOFormat,
    headers: Option<Vec<String>>,
}

/// The format of the items: the one that is configured; else the one that
/// the extension of the file stands for, `HeadlessCsv` for any other
/// extension; `Raw` for a file without extension and for other sources.
pub open spec fn item_format_for(explicit: Option<IOFormat>, file: Option<Seq<char>>) -> IOFormat {
    match explicit {
        Some(format) => format,
        None => match file {
            None => IOFormat::Raw,
            Some(path) => match extension(path) {
                None => IOFormat::Raw,
                Some(ext) => if ext == "csv"@ {
                    IOFormat::Csv
                } else if ext == "json"@ {
                    IOFormat::Json
                } else if ext == "raw"@ {
                    IOFormat::Raw
                } else {
                    IOFormat::HeadlessCsv
                },
            },
        },
    }
}

/// Whether `outcome` is what making items of `values` gives: an item of
/// each, or the fault of the first value that is none.
pub open spec fn are_items(outcome: Result<Vec<Item>, ItemsError>, values: Seq<StructuredValue>) -> bool {
    match outcome {
        Ok(items) => {
            &&& first_error(item_faults(values)) == values.len()
            &&& items@.len() == values.len()
            &&& forall|i: int|
                0 <= i < values.len() ==> is_item(#[trigger] items@[i], i as usize, values[i])
        },
        Err(ItemsError::Item(e)) => {
            &&& first_error(item_faults(values)) < values.len()
            &&& item_fault(values[first_error(item_faults(values))]) == Some(e)
        },
        Err(ItemsError::Parse(_)) => false,
    }
}

/// Whether `outcome` is what the reading `value` of some input gives:
/// the items of the array that was read.
pub open spec fn are_items_of_reading(
    outcome: Result<Vec<Item>, ItemsError>,
    value: StructuredValue,
) -> bool {
    value matches StructuredValue::Array(values) && are_items(outcome, values@)
}

/// Makes items of a reading.
fn items_of_reading(reading: Result<StructuredValue, ParseError>) -> (outcome: Result<
    Vec<Item>,
    ItemsError,
>)
    requires
        reading matches Ok(value) ==> value is Array,
    ensures
        match reading {
            Ok(value) => are_items_of_reading(outcome, value),
            Err(e) => outcome matches Err(ItemsError::Parse(f)) && f == e,
        },
{
    match reading {
        Err(e) => Err(ItemsError::Parse(e)),
        Ok(StructuredValue::Array(values)) => match items_of(values) {
            Ok(items) => Ok(items),
            Err(e) => Err(ItemsError::Item(e)),
        },
        Ok(_) => Err(ItemsError::Item(ItemError::NotAnObject)),
    }
}

/// Reads `source` as comma-separated rows and makes an item of each
/// record; the id of an item is the position of its row among the data.
pub fn read_csv(source: &[u8], has_headers: bool, user_headers: Option<Vec<String>>) -> (outcome:
    Result<Vec<Item>, ItemsError>)
    ensures
        match outcome {
            Err(ItemsError::Parse(e)) => is_csv_reading(
                Err(e),
                source@,
                has_headers,
                optional_texts(user_headers),
            ),
            _ => exists|value: StructuredValue| #[trigger]
                is_csv_reading(Ok(value), source@, has_headers, optional_texts(user_headers))
                    && are_items_of_reading(outcome, value),
        },
{
    let reading = crate::io::read_csv(source, has_headers, user_headers);
    let ghost seen = reading;
    let outcome = items_of_reading(reading);
    proof {
        if let Ok(value) = seen {
            assert(is_csv_reading(Ok(value), source@, has_headers, optional_texts(user_headers)));
        }
    }
    outcome
}

/// Reads `source` as one JSON object on each line and makes an item of
/// each; the id of an item is the number of its line, from zero.
pub fn read_json(source: &[u8]) -> (outcome: Result<Vec<Item>, ItemsError>)
    ensures
        match outcome {
            Err(ItemsError::Parse(e)) => is_jsonlines_reading(Err(e), source@),
            _ => exists|value: StructuredValue| #[trigger]
                is_jsonlines_reading(Ok(value), source@) && are_items_of_reading(outcome, value),
        },
{
    let reading = crate::io::read_jsonlines(source);
    let ghost seen = reading;
    let outcome = items_of_reading(reading);
    proof {
        if let Ok(value) = seen {
            assert(is_jsonlines_reading(Ok(value), source@));
        }
    }
    outcome
}

impl ItemSource {
    /// Where the items come from.
    pub closed spec fn input(&self) -> InputSource {
        self.input
    }

    /// The format of the items.
    pub closed spec fn format(&self) -> IOFormat {
        self.format
    }

    /// The names of the columns, where they are given.
    pub closed spec fn headers(&self) -> Option<Vec<String>> {
        self.headers
    }

    /// The source that the configuration asks for: the file where one is
    /// configured, else the script where one is given, else standard
    /// input.
    pub fn new(cli_args: &Config, input_script: Option<&Vec<String>>) -> (source: Self)
        ensures
            source.format() == item_format_for(cli_args.format, optional_text(cli_args.file)),
            optional_texts(source.headers()) == optional_texts(cli_args.headers),
            match (cli_args.file, input_script) {
                (Some(path), _) => source.input() matches InputSource::File(p) && p == path,
                (None, Some(script)) => source.input() matches InputSource::Callback(c)
                    && c.command@ == script@ && c.output_format == source.format(),
                (None, None) => source.input() is StdIn,
            },
    {
        let format = match cli_args.format {
            Some(format) => format,
            None => match &cli_args.file {
                None => IOFormat::Raw,
                Some(path) => match extension_of(path.as_str()) {
                    None => IOFormat::Raw,
                    Some(ext) => {
                        if text_eq(ext.as_str(), "csv") {
                            IOFormat::Csv
                        } else if text_eq(ext.as_str(), "json") {
                            IOFormat::Json
                        } else if text_eq(ext.as_str(), "raw") {
                            IOFormat::Raw
                        } else {
                            IOFormat::HeadlessCsv
                        }
                    },
                },
            },
        };
        let input = match (&cli_args.file, input_script) {
            (Some(path), _) => InputSource::File(path.clone()),
            (None, Some(script)) => InputSource::Callback(
                Command { command: copy_texts(script), output_format: format },
            ),
            (None, None) => InputSource::StdIn,
        };
        ItemSource { input, format, headers: copy_optional_texts(&cli_args.headers) }
    }

    /// Makes items of what was read from the source. Rows without a
    /// header and without given names have the columns `key` and `value`;
    /// JSON comes as one object on each line; raw input is one item whose
    /// key is the whole text.
    pub fn get_items(&self, source: &[u8]) -> (outcome: Result<Vec<Item>, ItemsError>)
        ensures
            match self.format() {
                IOFormat::HeadlessCsv => match outcome {
                    Err(ItemsError::Parse(e)) => is_csv_reading(
                        Err(e),
                        source@,
                        false,
                        optional_texts(self.headers()),
                    ),
                    _ => exists|value: StructuredValue| #[trigger]
                        is_csv_reading(Ok(value), source@, false, optional_texts(self.headers()))
                            && are_items_of_reading(outcome, value),
                },
                IOFormat::Csv => match outcome {
                    Err(ItemsError::Parse(e)) => is_csv_reading(
                        Err(e),
                        source@,
                        true,
                        optional_texts(self.headers()),
                    ),
                    _ => exists|value: StructuredValue| #[trigger]
                        is_csv_reading(Ok(value), source@, true, optional_texts(self.headers()))
                            && are_items_of_reading(outcome, value),
                },
                IOFormat::Json | IOFormat::JsonLines => match outcome {
                    Err(ItemsError::Parse(e)) => is_jsonlines_reading(Err(e), source@),
                    _ => exists|value: StructuredValue| #[trigger]
                        is_jsonlines_reading(Ok(value), source@) && are_items_of_reading(
                            outcome,
                            value,
                        ),
                },
                IOFormat::Raw => match outcome {
                    Ok(items) => {
                        &&& items@.len() == 1
                        &&& items@[0].id == 0
                        &&& is_raw_reading(Ok(StructuredValue::Text(items@[0].key)), source@)
                        &&& items@[0].fields.pairs().len() == 0
                        &&& items@[0].score is None
                        &&& items@[0].match_indices is None
                    },
                    Err(ItemsError::Parse(e)) => is_raw_reading(Err(e), source@),
                    Err(_) => false,
                },
            },
    {
        match self.format {
            IOFormat::HeadlessCsv => read_csv(source, false, copy_optional_texts(&self.headers)),
            IOFormat::Csv => read_csv(source, true, copy_optional_texts(&self.headers)),
            IOFormat::Json => read_json(source),
            IOFormat::JsonLines => read_json(source),
            IOFormat::Raw => match crate::io::read_raw(source) {
                Ok(StructuredValue::Text(text)) => {
                    let mut items: Vec<Item> = Vec::new();
                    items.push(Item::new(0, text, Dictionary::new()));
                    Ok(items)
                },
                Ok(_) => Err(ItemsError::Parse(ParseError::InvalidUtf8)),
                Err(e) => Err(ItemsError::Parse(e)),
            },
        }
    }
}

} // verus!
