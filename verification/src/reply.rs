//! Reading the structures of the service out of field values, with the
//! tolerance that lets a newer host add fields.

use crate::error::ProtocolError;
use crate::primitive::text_from_utf8;
use crate::schema::{
    rows_model, Column, ExtensionResponse, ExtensionStatus, ResponseModel, Row, RowModel,
    StatusModel,
};
use crate::value::{
    view_of_entries, view_of_fields, view_of_items, Entry, Field, FieldValue, Value,
};
use vstd::prelude::*;
use vstd::slice::slice_to_vec;
use vstd::utf8::{decode_utf8, valid_utf8};

verus! {

/// What the host sends in place of a reply when the call itself failed.
#[derive(Clone, Debug, PartialEq, Eq)]
pub struct ApplicationException {
    /// What the host says went wrong; empty when it says nothing.
    pub message: String,
    /// The host's code for the kind of failure; 0 when it gives none.
    pub kind: i32,
}

/// The model of an `ApplicationException`.
pub struct ExceptionModel {
    pub message: Seq<char>,
    pub kind: i32,
}

impl View for ApplicationException {
    type V = ExceptionModel;

    open spec fn view(&self) -> ExceptionModel {
        ExceptionModel { message: self.message@, kind: self.kind }
    }
}

/// The value of the last field with identifier `id`, if there is one.
/// Fields with other identifiers play no part.
pub open spec fn find_field(fields: Seq<(i16, Value)>, id: i16) -> Option<Value>
    decreases fields.len(),
{
    if fields.len() == 0 {
        None
    } else if fields.last().0 == id {
        Some(fields.last().1)
    } else {
        find_field(fields.drop_last(), id)
    }
}

/// The text that a value holds: it must be a byte string of valid UTF-8.
pub open spec fn text_of(v: Value) -> Result<Seq<char>, ProtocolError> {
    match v {
        Value::Binary(raw) => if valid_utf8(raw) {
            Ok(decode_utf8(raw))
        } else {
            Err(ProtocolError::InvalidUtf8)
        },
        _ => Err(ProtocolError::TypeMismatch),
    }
}

/// The text of a field that may be absent.
pub open spec fn optional_text(field: Option<Value>) -> Result<Option<Seq<char>>, ProtocolError> {
    match field {
        None => Ok(None),
        Some(v) => match text_of(v) {
            Ok(text) => Ok(Some(text)),
            Err(e) => Err(e),
        },
    }
}

/// The status that a value holds: a structure with the code in field 1, and
/// optionally a message in field 2 and the identity in field 3.
pub open spec fn status_of(v: Value) -> Result<StatusModel, ProtocolError> {
    match v {
        Value::Struct(fields) => match find_field(fields, 1) {
            None => Err(ProtocolError::MissingField),
            Some(Value::I32(code)) => match optional_text(find_field(fields, 2)) {
                Err(e) => Err(e),
                Ok(message) => match find_field(fields, 3) {
                    None => Ok(StatusModel { code, message, uuid: None }),
                    Some(Value::I64(uuid)) => Ok(StatusModel { code, message, uuid: Some(uuid) }),
                    Some(_) => Err(ProtocolError::TypeMismatch),
                },
            },
            Some(_) => Err(ProtocolError::TypeMismatch),
        },
        _ => Err(ProtocolError::TypeMismatch),
    }
}

/// The columns that the pairs from `at` on hold, after the columns `done`.
pub open spec fn columns_from(entries: Seq<(Value, Value)>, at: int, done: RowModel) -> Result<
    RowModel,
    ProtocolError,
>
    decreases entries.len() - at,
{
    if at < 0 || at >= entries.len() {
        Ok(done)
    } else {
        match text_of(entries[at].0) {
            Err(e) => Err(e),
            Ok(name) => match text_of(entries[at].1) {
                Err(e) => Err(e),
                Ok(value) => columns_from(entries, at + 1, done.push((name, value))),
            },
        }
    }
}

/// The row that a value holds: a mapping from text to text.
pub open spec fn row_of(v: Value) -> Result<RowModel, ProtocolError> {
    match v {
        Value::MapOf(_, _, entries) => columns_from(entries, 0, Seq::empty()),
        _ => Err(ProtocolError::TypeMismatch),
    }
}

/// The rows that the items from `at` on hold, after the rows `done`.
pub open spec fn rows_from(items: Seq<Value>, at: int, done: Seq<RowModel>) -> Result<
    Seq<RowModel>,
    ProtocolError,
>
    decreases items.len() - at,
{
    if at < 0 || at >= items.len() {
        Ok(done)
    } else {
        match row_of(items[at]) {
            Err(e) => Err(e),
            Ok(row) => rows_from(items, at + 1, done.push(row)),
        }
    }
}

/// The rows that a value holds: a list of mappings from text to text.
pub open spec fn rows_of(v: Value) -> Result<Seq<RowModel>, ProtocolError> {
    match v {
        Value::ListOf(_, items) => rows_from(items, 0, Seq::empty()),
        _ => Err(ProtocolError::TypeMismatch),
    }
}

/// The response that a value holds: a structure with the status in field 1
/// and the rows in field 2.
pub open spec fn response_of(v: Value) -> Result<ResponseModel, ProtocolError> {
    match v {
        Value::Struct(fields) => match find_field(fields, 1) {
            None => Err(ProtocolError::MissingField),
            Some(s) => match status_of(s) {
                Err(e) => Err(e),
                Ok(status) => match find_field(fields, 2) {
                    None => Err(ProtocolError::MissingField),
                    Some(r) => match rows_of(r) {
                        Err(e) => Err(e),
                        Ok(rows) => Ok(ResponseModel { status, rows }),
                    },
                },
            },
        },
        _ => Err(ProtocolError::TypeMismatch),
    }
}

/// The exception that a value holds: a structure with, optionally, the
/// message in field 1 and the kind in field 2.
pub open spec fn exception_of(v: Value) -> Result<ExceptionModel, ProtocolError> {
    match v {
        Value::Struct(fields) => match optional_text(find_field(fields, 1)) {
            Err(e) => Err(e),
            Ok(message) => match find_field(fields, 2) {
                None => Ok(
                    ExceptionModel {
                        message: if message is Some {
                            message.unwrap()
                        } else {
                            Seq::empty()
                        },
                        kind: 0,
                    },
                ),
                Some(Value::I32(kind)) => Ok(
                    ExceptionModel {
                        message: if message is Some {
                            message.unwrap()
                        } else {
                            Seq::empty()
                        },
                        kind,
                    },
                ),
                Some(_) => Err(ProtocolError::TypeMismatch),
            },
        },
        _ => Err(ProtocolError::TypeMismatch),
    }
}

/// Finds the last field with identifier `id`.
pub fn field_by_id(fields: &Vec<Field>, id: i16) -> (r: Option<&FieldValue>)
    ensures
        match r {
            Some(v) => find_field(view_of_fields(fields@), id) == Some(v@),
            None => find_field(view_of_fields(fields@), id) is None,
        },
{
    let ghost models = view_of_fields(fields@);
    let mut i: usize = fields.len();
    assert(models.take(i as int) =~= models);
    while i > 0
        invariant
            i <= fields@.len(),
            models == view_of_fields(fields@),
            find_field(models, id) == find_field(models.take(i as int), id),
        decreases i,
    {
        i -= 1;
        assert(models.take(i + 1).drop_last() =~= models.take(i as int));
        assert(models.take(i + 1).last() == (fields@[i as int].id, fields@[i as int].value@));
        if fields[i].id == id {
            return Some(&fields[i].value);
        }
    }
    None
}

/// Reads text out of a value.
pub fn text_from_value(v: &FieldValue) -> (r: Result<String, ProtocolError>)
    ensures
        match r {
            Ok(text) => text_of(v@) == Ok::<Seq<char>, ProtocolError>(text@),
            Err(e) => text_of(v@) == Err::<Seq<char>, ProtocolError>(e),
        },
{
    match v {
        FieldValue::Binary(raw) => match text_from_utf8(slice_to_vec(raw.as_slice())) {
            Some(text) => Ok(text),
            None => Err(ProtocolError::InvalidUtf8),
        },
        _ => Err(ProtocolError::TypeMismatch),
    }
}

/// Reads the text of a field that may be absent.
fn optional_text_from(field: Option<&FieldValue>) -> (r: Result<Option<String>, ProtocolError>)
    ensures
        match r {
            Ok(Some(text)) => optional_text(
                match field {
                    Some(v) => Some(v@),
                    None => None,
                },
            ) == Ok::<Option<Seq<char>>, ProtocolError>(Some(text@)),
            Ok(None) => field is None,
            Err(e) => field is Some && text_of(field.unwrap()@) == Err::<Seq<char>, ProtocolError>(
                e,
            ),
        },
{
    match field {
        None => Ok(None),
        Some(v) => match text_from_value(v) {
            Ok(text) => Ok(Some(text)),
            Err(e) => Err(e),
        },
    }
}

impl ExtensionStatus {
    /// Reads a status out of a value.
    pub fn from_value(v: &FieldValue) -> (r: Result<ExtensionStatus, ProtocolError>)
        ensures
            match r {
                Ok(status) => status_of(v@) == Ok::<StatusModel, ProtocolError>(status@),
                Err(e) => status_of(v@) == Err::<StatusModel, ProtocolError>(e),
            },
    {
        let fields: &Vec<Field> = match v {
            FieldValue::Struct(fields) => fields,
            _ => {
                return Err(ProtocolError::TypeMismatch);
            },
        };
        let code: i32 = match field_by_id(fields, 1) {
            None => {
                return Err(ProtocolError::MissingField);
            },
            Some(FieldValue::I32(code)) => *code,
            Some(_) => {
                return Err(ProtocolError::TypeMismatch);
            },
        };
        let message: Option<String> = match optional_text_from(field_by_id(fields, 2)) {
            Err(e) => {
                return Err(e);
            },
            Ok(message) => message,
        };
        let uuid: Option<i64> = match field_by_id(fields, 3) {
            None => None,
            Some(FieldValue::I64(uuid)) => Some(*uuid),
            Some(_) => {
                return Err(ProtocolError::TypeMismatch);
            },
        };
        Ok(ExtensionStatus { code, message, uuid })
    }
}

impl Row {
    /// Reads a row out of a value.
    pub fn from_value(v: &FieldValue) -> (r: Result<Row, ProtocolError>)
        ensures
            match r {
                Ok(row) => row_of(v@) == Ok::<RowModel, ProtocolError>(row@),
                Err(e) => row_of(v@) == Err::<RowModel, ProtocolError>(e),
            },
    {
        let entries: &Vec<Entry> = match v {
            FieldValue::MapOf(_, _, entries) => entries,
            _ => {
                return Err(ProtocolError::TypeMismatch);
            },
        };
        let ghost models = view_of_entries(entries@);
        let mut columns: Vec<Column> = Vec::new();
        let mut i: usize = 0;
        assert(columns@.map_values(|c: Column| c@) =~= Seq::empty());
        while i < entries.len()
            invariant
                i <= entries@.len(),
                models == view_of_entries(entries@),
                row_of(v@) == columns_from(models, 0, Seq::empty()),
                columns_from(models, 0, Seq::empty()) == columns_from(
                    models,
                    i as int,
                    columns@.map_values(|c: Column| c@),
                ),
            decreases entries@.len() - i,
        {
            assert(models[i as int] == (entries@[i as int].key@, entries@[i as int].value@));
            let name: String = match text_from_value(&entries[i].key) {
                Err(e) => {
                    return Err(e);
                },
                Ok(name) => name,
            };
            let value: String = match text_from_value(&entries[i].value) {
                Err(e) => {
                    return Err(e);
                },
                Ok(value) => value,
            };
            assert(columns@.push(Column { name, value }).map_values(|c: Column| c@)
                =~= columns@.map_values(|c: Column| c@).push((name@, value@)));
            columns.push(Column { name, value });
            i += 1;
        }
        Ok(Row { columns })
    }
}

/// Reads rows out of a value.
pub fn rows_from_value(v: &FieldValue) -> (r: Result<Vec<Row>, ProtocolError>)
    ensures
        match r {
            Ok(rows) => rows_of(v@) == Ok::<Seq<RowModel>, ProtocolError>(rows_model(rows@)),
            Err(e) => rows_of(v@) == Err::<Seq<RowModel>, ProtocolError>(e),
        },
{
    let items: &Vec<FieldValue> = match v {
        FieldValue::ListOf(_, items) => items,
        _ => {
            return Err(ProtocolError::TypeMismatch);
        },
    };
    let ghost models = view_of_items(items@);
    let mut rows: Vec<Row> = Vec::new();
    let mut i: usize = 0;
    assert(rows_model(rows@) =~= Seq::empty());
    while i < items.len()
        invariant
            i <= items@.len(),
            models == view_of_items(items@),
            rows_of(v@) == rows_from(models, 0, Seq::empty()),
            rows_from(models, 0, Seq::empty()) == rows_from(models, i as int, rows_model(rows@)),
        decreases items@.len() - i,
    {
        assert(models[i as int] == items@[i as int]@);
        let row: Row = match Row::from_value(&items[i]) {
            Err(e) => {
                return Err(e);
            },
            Ok(row) => row,
        };
        assert(rows_model(rows@.push(row)) =~= rows_model(rows@).push(row@));
        rows.push(row);
        i += 1;
    }
    Ok(rows)
}

impl ExtensionResponse {
    /// Reads a response out of a value.
    pub fn from_value(v: &FieldValue) -> (r: Result<ExtensionResponse, ProtocolError>)
        ensures
            match r {
                Ok(response) => response_of(v@) == Ok::<ResponseModel, ProtocolError>(response@),
                Err(e) => response_of(v@) == Err::<ResponseModel, ProtocolError>(e),
            },
    {
        let fields: &Vec<Field> = match v {
            FieldValue::Struct(fields) => fields,
            _ => {
                return Err(ProtocolError::TypeMismatch);
            },
        };
        let status: ExtensionStatus = match field_by_id(fields, 1) {
            None => {
                return Err(ProtocolError::MissingField);
            },
            Some(s) => match ExtensionStatus::from_value(s) {
                Err(e) => {
                    return Err(e);
                },
                Ok(status) => status,
            },
        };
        let response: Vec<Row> = match field_by_id(fields, 2) {
            None => {
                return Err(ProtocolError::MissingField);
            },
            Some(r) => match rows_from_value(r) {
                Err(e) => {
                    return Err(e);
                },
                Ok(rows) => rows,
            },
        };
        Ok(ExtensionResponse { status, response })
    }
}

impl ApplicationException {
    /// Reads an exception out of a value.
    pub fn from_value(v: &FieldValue) -> (r: Result<ApplicationException, ProtocolError>)
        ensures
            match r {
                Ok(exception) => exception_of(v@) == Ok::<ExceptionModel, ProtocolError>(
                    exception@,
                ),
                Err(e) => exception_of(v@) == Err::<ExceptionModel, ProtocolError>(e),
            },
    {
        let fields: &Vec<Field> = match v {
            FieldValue::Struct(fields) => fields,
            _ => {
                return Err(ProtocolError::TypeMismatch);
            },
        };
        let message: String = match optional_text_from(field_by_id(fields, 1)) {
            Err(e) => {
                return Err(e);
            },
            Ok(Some(message)) => message,
            Ok(None) => String::new(),
        };
        let kind: i32 = match field_by_id(fields, 2) {
            None => 0,
            Some(FieldValue::I32(kind)) => *kind,
            Some(_) => {
                return Err(ProtocolError::TypeMismatch);
            },
        };
        Ok(ApplicationException { message, kind })
    }
}

} // verus!
