//! The structures of the extension-manager service and the field values
//! that stand for them.

use crate::value::{
    view_of_entries, view_of_fields, view_of_items, Entry, Field, FieldValue, Value, WireType,
};
use vstd::prelude::*;
use vstd::slice::slice_to_vec;
use vstd::utf8::encode_utf8;

verus! {

/// The identity that an extension advertises when it registers.
#[derive(Clone, Debug, PartialEq, Eq)]
pub struct ExtensionInfo {
    pub name: String,
    pub version: String,
    pub sdk_version: String,
    pub min_sdk_version: String,
}

/// The model of an `ExtensionInfo`.
pub struct InfoModel {
    pub name: Seq<char>,
    pub version: Seq<char>,
    pub sdk_version: Seq<char>,
    pub min_sdk_version: Seq<char>,
}

impl View for ExtensionInfo {
    type V = InfoModel;

    open spec fn view(&self) -> InfoModel {
        InfoModel {
            name: self.name@,
            version: self.version@,
            sdk_version: self.sdk_version@,
            min_sdk_version: self.min_sdk_version@,
        }
    }
}

/// One column of a row: its name and its value, both as text.
#[derive(Clone, Debug, PartialEq, Eq)]
pub struct Column {
    pub name: String,
    pub value: String,
}

/// One row: its columns in the order of the wire.
#[derive(Clone, Debug, PartialEq, Eq)]
pub struct Row {
    pub columns: Vec<Column>,
}

/// The model of a row: pairs of column name and value, in order.
pub type RowModel = Seq<(Seq<char>, Seq<char>)>;

impl View for Column {
    type V = (Seq<char>, Seq<char>);

    open spec fn view(&self) -> (Seq<char>, Seq<char>) {
        (self.name@, self.value@)
    }
}

impl View for Row {
    type V = RowModel;

    open spec fn view(&self) -> RowModel {
        self.columns@.map_values(|c: Column| c@)
    }
}

/// The value of the last column called `name`, if the row has one: a row
/// is read as a mapping, in which a later pair replaces an earlier one.
pub open spec fn lookup(row: RowModel, name: Seq<char>) -> Option<Seq<char>>
    decreases row.len(),
{
    if row.len() == 0 {
        None
    } else if row.last().0 == name {
        Some(row.last().1)
    } else {
        lookup(row.drop_last(), name)
    }
}

/// The models of rows, in order.
pub open spec fn rows_model(rows: Seq<Row>) -> Seq<RowModel> {
    rows.map_values(|r: Row| r@)
}

/// One item of a registry category: its name and its metadata.
#[derive(Clone, Debug, PartialEq, Eq)]
pub struct RegistryItem {
    pub name: String,
    pub metadata: Vec<Row>,
}

/// One category of the registry: its name and its items.
#[derive(Clone, Debug, PartialEq, Eq)]
pub struct RegistryCategory {
    pub name: String,
    pub items: Vec<RegistryItem>,
}

/// The plugins that an extension brings, by category and item name. A
/// client that brings none sends it empty.
#[derive(Clone, Debug, PartialEq, Eq)]
pub struct ExtensionRegistry {
    pub categories: Vec<RegistryCategory>,
}

/// The model of a registry item.
pub type ItemModel = (Seq<char>, Seq<RowModel>);

/// The model of a registry category.
pub type CategoryModel = (Seq<char>, Seq<ItemModel>);

impl View for RegistryItem {
    type V = ItemModel;

    open spec fn view(&self) -> ItemModel {
        (self.name@, rows_model(self.metadata@))
    }
}

impl View for RegistryCategory {
    type V = CategoryModel;

    open spec fn view(&self) -> CategoryModel {
        (self.name@, self.items@.map_values(|i: RegistryItem| i@))
    }
}

impl View for ExtensionRegistry {
    type V = Seq<CategoryModel>;

    open spec fn view(&self) -> Seq<CategoryModel> {
        self.categories@.map_values(|c: RegistryCategory| c@)
    }
}

/// What the host answers to register, ping and deregister.
#[derive(Clone, Debug, PartialEq, Eq)]
pub struct ExtensionStatus {
    /// 0 for success, anything else for failure.
    pub code: i32,
    pub message: Option<String>,
    /// The identity that the host gives the session.
    pub uuid: Option<i64>,
}

/// The model of an `ExtensionStatus`.
pub struct StatusModel {
    pub code: i32,
    pub message: Option<Seq<char>>,
    pub uuid: Option<i64>,
}

impl View for ExtensionStatus {
    type V = StatusModel;

    open spec fn view(&self) -> StatusModel {
        StatusModel {
            code: self.code,
            message: match self.message {
                Some(m) => Some(m@),
                None => None,
            },
            uuid: self.uuid,
        }
    }
}

/// What the host answers to a query: a status and the rows, in the order in
/// which the host sent them.
#[derive(Clone, Debug, PartialEq, Eq)]
pub struct ExtensionResponse {
    pub status: ExtensionStatus,
    pub response: Vec<Row>,
}

/// The model of an `ExtensionResponse`.
pub struct ResponseModel {
    pub status: StatusModel,
    pub rows: Seq<RowModel>,
}

impl View for ExtensionResponse {
    type V = ResponseModel;

    open spec fn view(&self) -> ResponseModel {
        ResponseModel { status: self.status@, rows: rows_model(self.response@) }
    }
}

/// Text as a field value: its UTF-8 bytes.
pub open spec fn text_value(text: Seq<char>) -> Value {
    Value::Binary(encode_utf8(text))
}

/// A column as a pair of a mapping.
pub open spec fn column_entry(column: (Seq<char>, Seq<char>)) -> (Value, Value) {
    (text_value(column.0), text_value(column.1))
}

/// A row as a field value: a mapping from text to text.
pub open spec fn row_value(row: RowModel) -> Value {
    Value::MapOf(
        WireType::Binary,
        WireType::Binary,
        row.map_values(|c: (Seq<char>, Seq<char>)| column_entry(c)),
    )
}

/// Rows as a field value: a list of mappings.
pub open spec fn rows_value(rows: Seq<RowModel>) -> Value {
    Value::ListOf(WireType::MapOf, rows.map_values(|r: RowModel| row_value(r)))
}

/// A registry item as a pair of a mapping.
pub open spec fn item_entry(item: ItemModel) -> (Value, Value) {
    (text_value(item.0), rows_value(item.1))
}

/// A registry category as a pair of a mapping.
pub open spec fn category_entry(category: CategoryModel) -> (Value, Value) {
    (
        text_value(category.0),
        Value::MapOf(
            WireType::Binary,
            WireType::ListOf,
            category.1.map_values(|i: ItemModel| item_entry(i)),
        ),
    )
}

/// A registry as a field value: by category, by item, the metadata rows.
pub open spec fn registry_value(registry: Seq<CategoryModel>) -> Value {
    Value::MapOf(
        WireType::Binary,
        WireType::MapOf,
        registry.map_values(|c: CategoryModel| category_entry(c)),
    )
}

/// An `ExtensionInfo` as a field value: a structure of four texts.
pub open spec fn info_value(info: InfoModel) -> Value {
    Value::Struct(
        seq![
            (1i16, text_value(info.name)),
            (2i16, text_value(info.version)),
            (3i16, text_value(info.sdk_version)),
            (4i16, text_value(info.min_sdk_version)),
        ],
    )
}

/// Text as a field value.
pub fn text_to_value(text: &str) -> (v: FieldValue)
    ensures
        v@ == text_value(text@),
{
    FieldValue::Binary(slice_to_vec(text.as_bytes()))
}

impl Row {
    /// The value of the column called `name`; the last one, where several
    /// columns have that name.
    pub fn get(&self, name: &str) -> (r: Option<&String>)
        ensures
            match r {
                Some(value) => lookup(self@, name@) == Some(value@),
                None => lookup(self@, name@) is None,
            },
    {
        let wanted: String = name.to_owned();
        let mut i: usize = self.columns.len();
        assert(self@.take(i as int) =~= self@);
        while i > 0
            invariant
                i <= self.columns@.len(),
                wanted@ == name@,
                lookup(self@, name@) == lookup(self@.take(i as int), name@),
            decreases i,
        {
            i -= 1;
            assert(self@.take(i + 1).drop_last() =~= self@.take(i as int));
            assert(self@.take(i + 1).last() == self.columns@[i as int]@);
            if self.columns[i].name == wanted {
                return Some(&self.columns[i].value);
            }
        }
        None
    }

    /// This row as a field value.
    pub fn to_value(&self) -> (v: FieldValue)
        ensures
            v@ == row_value(self@),
    {
        let mut entries: Vec<Entry> = Vec::new();
        let mut i: usize = 0;
        while i < self.columns.len()
            invariant
                i <= self.columns@.len(),
                entries@.len() == i,
                forall|j: int|
                    0 <= j < i ==> (#[trigger] entries@[j])@ == column_entry(self.columns@[j]@),
            decreases self.columns@.len() - i,
        {
            let column = &self.columns[i];
            entries.push(
                Entry {
                    key: text_to_value(column.name.as_str()),
                    value: text_to_value(column.value.as_str()),
                },
            );
            i += 1;
        }
        assert(view_of_entries(entries@) =~= self@.map_values(
            |c: (Seq<char>, Seq<char>)| column_entry(c),
        ));
        FieldValue::MapOf(WireType::Binary, WireType::Binary, entries)
    }
}

/// Rows as a field value.
pub fn rows_to_value(rows: &Vec<Row>) -> (v: FieldValue)
    ensures
        v@ == rows_value(rows_model(rows@)),
{
    let mut items: Vec<FieldValue> = Vec::new();
    let mut i: usize = 0;
    while i < rows.len()
        invariant
            i <= rows@.len(),
            items@.len() == i,
            forall|j: int| 0 <= j < i ==> (#[trigger] items@[j])@ == row_value(rows@[j]@),
        decreases rows@.len() - i,
    {
        items.push(rows[i].to_value());
        i += 1;
    }
    assert(view_of_items(items@) =~= rows_model(rows@).map_values(|r: RowModel| row_value(r)));
    FieldValue::ListOf(WireType::MapOf, items)
}

impl RegistryCategory {
    /// The items of this category as a field value.
    fn items_to_value(&self) -> (v: FieldValue)
        ensures
            v@ == category_entry(self@).1,
    {
        let mut entries: Vec<Entry> = Vec::new();
        let mut i: usize = 0;
        while i < self.items.len()
            invariant
                i <= self.items@.len(),
                entries@.len() == i,
                forall|j: int|
                    0 <= j < i ==> (#[trigger] entries@[j])@ == item_entry(self.items@[j]@),
            decreases self.items@.len() - i,
        {
            let item = &self.items[i];
            entries.push(
                Entry {
                    key: text_to_value(item.name.as_str()),
                    value: rows_to_value(&item.metadata),
                },
            );
            i += 1;
        }
        assert(view_of_entries(entries@) =~= self@.1.map_values(|i: ItemModel| item_entry(i)));
        FieldValue::MapOf(WireType::Binary, WireType::ListOf, entries)
    }
}

impl ExtensionRegistry {
    /// A registry without plugins.
    pub fn empty() -> (registry: ExtensionRegistry)
        ensures
            registry@ == Seq::<CategoryModel>::empty(),
    {
        let registry = ExtensionRegistry { categories: Vec::new() };
        assert(registry@ =~= Seq::<CategoryModel>::empty());
        registry
    }

    /// This registry as a field value.
    pub fn to_value(&self) -> (v: FieldValue)
        ensures
            v@ == registry_value(self@),
    {
        let mut entries: Vec<Entry> = Vec::new();
        let mut i: usize = 0;
        while i < self.categories.len()
            invariant
                i <= self.categories@.len(),
                entries@.len() == i,
                forall|j: int|
                    0 <= j < i ==> (#[trigger] entries@[j])@ == category_entry(
                        self.categories@[j]@,
                    ),
            decreases self.categories@.len() - i,
        {
            let category = &self.categories[i];
            entries.push(
                Entry {
                    key: text_to_value(category.name.as_str()),
                    value: category.items_to_value(),
                },
            );
            i += 1;
        }
        assert(view_of_entries(entries@) =~= self@.map_values(
            |c: CategoryModel| category_entry(c),
        ));
        FieldValue::MapOf(WireType::Binary, WireType::MapOf, entries)
    }
}

impl ExtensionInfo {
    /// This identity as a field value.
    pub fn to_value(&self) -> (v: FieldValue)
        ensures
            v@ == info_value(self@),
    {
        let mut fields: Vec<Field> = Vec::new();
        fields.push(Field { id: 1, value: text_to_value(self.name.as_str()) });
        fields.push(Field { id: 2, value: text_to_value(self.version.as_str()) });
        fields.push(Field { id: 3, value: text_to_value(self.sdk_version.as_str()) });
        fields.push(Field { id: 4, value: text_to_value(self.min_sdk_version.as_str()) });
        assert(view_of_fields(fields@) =~= info_value(self@)->Struct_0);
        FieldValue::Struct(fields)
    }
}

} // verus!
