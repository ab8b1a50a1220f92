//! The value: one datum of any type, with what the structured kinds hold.

use vstd::prelude::*;
use vstd::string::*;
use crate::errors::JobError;
use crate::glob::Glob;
use crate::time::{Duration, Instant, Time};
use crate::types::{
    lemma_schema_materialized_twice, lemma_type_materialized_twice, materialized_schema,
    schema_model, ColumnModel, ColumnType, TypeModel, ValueType,
};

verus! {

/// `regex::Regex`, a compiled regular expression. Nothing is known of what
/// is inside one.
#[verifier::external_type_specification]
#[verifier::external_body]
pub struct ExRegex(regex::Regex);

/// `Clone::clone` of `regex::Regex`: another handle on the compiled
/// expression. Nothing is claimed of it.
#[verifier::external_body]
fn clone_regex(compiled: &regex::Regex) -> regex::Regex {
    compiled.clone()
}

/// The name of a file, as the bytes it is made of. It need not be text.
#[derive(Debug)]
pub struct FilePath {
    pub bytes: Vec<u8>,
}

/// A floating-point number, kept as its bits and as the text it is shown
/// as. The library moves it and shows it; it does not compute with it.
#[derive(Debug)]
pub struct Float {
    pub bits: u64,
    pub text: String,
}

/// A command, known to the library by its name alone.
#[derive(Debug)]
pub struct Command {
    pub name: String,
}

/// A closure, known to the library by its source text alone.
#[derive(Debug)]
pub struct Closure {
    pub source: String,
}

/// A namespace, known to the library by its description alone.
#[derive(Debug)]
pub struct Env {
    pub description: String,
}

/// Binary content that has been read, as the text it is shown as.
#[derive(Debug)]
pub struct BinaryReader {
    pub content: String,
}

/// The cells of one row of a table, in the order of its columns.
#[derive(Debug)]
pub struct Row {
    pub cells: Vec<Value>,
}

/// A table that is held in memory: a schema and the rows under it.
#[derive(Debug)]
pub struct Rows {
    pub types: Vec<ColumnType>,
    pub rows: Vec<Row>,
}

/// One row together with its schema.
#[derive(Debug)]
pub struct Struct {
    pub types: Vec<ColumnType>,
    pub cells: Vec<Value>,
}

/// A list of values of one type.
#[derive(Debug)]
pub struct List {
    pub cell_type: ValueType,
    pub cells: Vec<Value>,
}

/// A dictionary: pairs of a key and what it stands for.
#[derive(Debug)]
pub struct Dict {
    pub key_type: ValueType,
    pub value_type: ValueType,
    pub entries: Vec<(Value, Value)>,
}

/// The reading end of a stream of rows: a schema, fixed when the stream was
/// made, and the rows that have not been read yet. A stream has one reader,
/// and reading takes the row out of it.
#[derive(Debug)]
pub struct Stream {
    types: Vec<ColumnType>,
    /// The rows still to come, the next one last.
    pending: Vec<Row>,
    /// Whether the stream ends in a failure of its source.
    broken: bool,
}

/// One datum of any type. A regular expression is held as the text it was
/// written as together with what the compiler made of that text.
#[derive(Debug)]
pub enum Value {
    Text(String),
    Integer(i128),
    Time(Time),
    Duration(Duration),
    Field(Vec<String>),
    Glob(Glob),
    Regex(String, regex::Regex),
    Op(String),
    Command(Command),
    Closure(Closure),
    Stream(Stream),
    File(FilePath),
    Rows(Rows),
    Struct(Struct),
    List(List),
    Dict(Dict),
    Env(Env),
    Bool(bool),
    Float(Float),
    Empty,
    BinaryReader(BinaryReader),
    Type(ValueType),
}

/// On which side of its column a cell is set.
#[derive(Clone, Copy, Debug, PartialEq, Eq, Structural)]
pub enum Alignment {
    Left,
    Right,
}

/// What a table or a stream holds: its schema and its rows, each row as its
/// cells. Of a stream, the rows are those still to be read, the next one
/// first.
pub ghost struct TableModel {
    pub types: Seq<ColumnModel>,
    pub rows: Seq<Seq<ValueModel>>,
}

/// What a `Value` stands for.
pub ghost enum ValueModel {
    Text(Seq<char>),
    Integer(int),
    Time(Instant),
    Duration(nat),
    Field(Seq<Seq<char>>),
    Glob(Seq<char>),
    Regex(Seq<char>),
    Op(Seq<char>),
    Command(Seq<char>),
    Closure(Seq<char>),
    Stream(TableModel),
    File(Seq<u8>),
    Rows(TableModel),
    Struct { types: Seq<ColumnModel>, cells: Seq<ValueModel> },
    List { cell_type: TypeModel, cells: Seq<ValueModel> },
    Dict { key_type: TypeModel, value_type: TypeModel, entries: Seq<(ValueModel, ValueModel)> },
    Env(Seq<char>),
    Bool(bool),
    Float { bits: int, text: Seq<char> },
    Empty,
    Binary(Seq<char>),
    Type(TypeModel),
}

/// The texts of a vector of strings.
pub open spec fn texts_model(parts: Vec<String>) -> Seq<Seq<char>> {
    Seq::new(parts.len() as nat, |i: int| parts[i]@)
}

/// What a vector of values stands for, value by value.
pub open spec fn cells_model(cells: Vec<Value>) -> Seq<ValueModel>
    decreases cells,
{
    Seq::new(
        cells.len() as nat,
        |i: int|
            if 0 <= i < cells.len() {
                cells[i].model()
            } else {
                arbitrary()
            },
    )
}

/// What a vector of rows stands for, row by row.
pub open spec fn rows_model(rows: Vec<Row>) -> Seq<Seq<ValueModel>>
    decreases rows,
{
    Seq::new(
        rows.len() as nat,
        |i: int|
            if 0 <= i < rows.len() {
                cells_model(rows[i].cells)
            } else {
                arbitrary()
            },
    )
}

/// What a vector of pairs stands for, pair by pair.
pub open spec fn entries_model(entries: Vec<(Value, Value)>) -> Seq<(ValueModel, ValueModel)>
    decreases entries,
{
    Seq::new(
        entries.len() as nat,
        |i: int|
            if 0 <= i < entries.len() {
                (entries[i].0.model(), entries[i].1.model())
            } else {
                arbitrary()
            },
    )
}

impl Stream {
    /// What the stream holds: its schema and the rows still to be read, the
    /// next one first.
    pub closed spec fn model(self) -> TableModel
        decreases self,
    {
        TableModel { types: schema_model(self.types), rows: rows_model(self.pending).reverse() }
    }

    /// Whether the stream ends in a failure of its source rather than in
    /// its end.
    pub closed spec fn is_broken(self) -> bool {
        self.broken
    }
}

impl Value {
    /// What this value stands for.
    pub open spec fn model(self) -> ValueModel
        decreases self,
    {
        match self {
            Value::Text(s) => ValueModel::Text(s@),
            Value::Integer(i) => ValueModel::Integer(i as int),
            Value::Time(t) => ValueModel::Time(t@),
            Value::Duration(d) => ValueModel::Duration(d@),
            Value::Field(parts) => ValueModel::Field(texts_model(parts)),
            Value::Glob(g) => ValueModel::Glob(g@),
            Value::Regex(s, _) => ValueModel::Regex(s@),
            Value::Op(s) => ValueModel::Op(s@),
            Value::Command(c) => ValueModel::Command(c.name@),
            Value::Closure(c) => ValueModel::Closure(c.source@),
            Value::Stream(s) => ValueModel::Stream(s.model()),
            Value::File(f) => ValueModel::File(f.bytes@),
            Value::Rows(r) => ValueModel::Rows(
                TableModel { types: schema_model(r.types), rows: rows_model(r.rows) },
            ),
            Value::Struct(s) => ValueModel::Struct {
                types: schema_model(s.types),
                cells: cells_model(s.cells),
            },
            Value::List(l) => ValueModel::List {
                cell_type: l.cell_type@,
                cells: cells_model(l.cells),
            },
            Value::Dict(d) => ValueModel::Dict {
                key_type: d.key_type@,
                value_type: d.value_type@,
                entries: entries_model(d.entries),
            },
            Value::Env(e) => ValueModel::Env(e.description@),
            Value::Bool(b) => ValueModel::Bool(b),
            Value::Float(f) => ValueModel::Float { bits: f.bits as int, text: f.text@ },
            Value::Empty => ValueModel::Empty,
            Value::BinaryReader(b) => ValueModel::Binary(b.content@),
            Value::Type(t) => ValueModel::Type(t@),
        }
    }
}

impl View for Value {
    type V = ValueModel;

    open spec fn view(&self) -> ValueModel {
        self.model()
    }
}

impl View for Row {
    type V = Seq<ValueModel>;

    open spec fn view(&self) -> Seq<ValueModel> {
        cells_model(self.cells)
    }
}

impl View for Stream {
    type V = TableModel;

    open spec fn view(&self) -> TableModel {
        self.model()
    }
}

impl View for Rows {
    type V = TableModel;

    open spec fn view(&self) -> TableModel {
        TableModel { types: schema_model(self.types), rows: rows_model(self.rows) }
    }
}

impl ValueModel {
    /// The type of the value. For a structured value the type holds the
    /// schema of what the value holds.
    pub open spec fn value_type(self) -> TypeModel {
        match self {
            ValueModel::Text(_) => TypeModel::Text,
            ValueModel::Integer(_) => TypeModel::Integer,
            ValueModel::Time(_) => TypeModel::Time,
            ValueModel::Duration(_) => TypeModel::Duration,
            ValueModel::Field(_) => TypeModel::Field,
            ValueModel::Glob(_) => TypeModel::Glob,
            ValueModel::Regex(_) => TypeModel::Regex,
            ValueModel::Op(_) => TypeModel::Op,
            ValueModel::Command(_) => TypeModel::Command,
            ValueModel::Closure(_) => TypeModel::Closure,
            ValueModel::Stream(t) => TypeModel::Stream(t.types),
            ValueModel::File(_) => TypeModel::File,
            ValueModel::Rows(t) => TypeModel::Rows(t.types),
            ValueModel::Struct { types, .. } => TypeModel::Row(types),
            ValueModel::List { cell_type, .. } => TypeModel::List(Box::new(cell_type)),
            ValueModel::Dict { key_type, value_type, .. } => TypeModel::Dict(
                Box::new(key_type),
                Box::new(value_type),
            ),
            ValueModel::Env(_) => TypeModel::Env,
            ValueModel::Bool(_) => TypeModel::Bool,
            ValueModel::Float { .. } => TypeModel::Float,
            ValueModel::Empty => TypeModel::Empty,
            ValueModel::Binary(_) => TypeModel::Binary,
            ValueModel::Type(_) => TypeModel::Type,
        }
    }

    /// On which side of its column a cell with this value is set: numbers,
    /// whole or floating, times and durations on the right, everything else
    /// on the left.
    pub open spec fn alignment(self) -> Alignment {
        match self {
            ValueModel::Time(_) => Alignment::Right,
            ValueModel::Duration(_) => Alignment::Right,
            ValueModel::Integer(_) => Alignment::Right,
            ValueModel::Float { .. } => Alignment::Right,
            _ => Alignment::Left,
        }
    }
}

/// What reading a stream gives: the next row, the end of the stream, or the
/// failure of its source.
#[derive(Debug)]
pub enum ReadOutcome {
    Row(Row),
    Ended,
    Failed,
}

impl Stream {
    /// A stream with the schema `types` that gives the rows of `rows` in
    /// their order and then ends.
    pub fn new(types: Vec<ColumnType>, rows: Vec<Row>) -> (s: Stream)
        ensures
            s@.types == schema_model(types),
            s@.rows == rows_model(rows),
            !s.is_broken(),
    {
        Stream::with_ending(types, rows, false)
    }

    /// A stream with the schema `types` that gives the rows of `rows` in
    /// their order and then fails.
    pub fn failing(types: Vec<ColumnType>, rows: Vec<Row>) -> (s: Stream)
        ensures
            s@.types == schema_model(types),
            s@.rows == rows_model(rows),
            s.is_broken(),
    {
        Stream::with_ending(types, rows, true)
    }

    fn with_ending(types: Vec<ColumnType>, rows: Vec<Row>, broken: bool) -> (s: Stream)
        ensures
            s@.types == schema_model(types),
            s@.rows == rows_model(rows),
            s.is_broken() == broken,
    {
        let ghost all = rows_model(rows);
        let mut rows = rows;
        let mut pending: Vec<Row> = Vec::new();
        while rows.len() > 0
            invariant
                rows.len() + pending.len() == all.len(),
                forall|i: int| 0 <= i < rows.len() ==> (#[trigger] rows[i])@ == all[i],
                forall|i: int|
                    0 <= i < pending.len() ==> (#[trigger] pending[i])@ == all[all.len() - 1 - i],
            decreases rows.len(),
        {
            match rows.pop() {
                Some(row) => pending.push(row),
                None => {},
            }
        }
        Stream { types, pending, broken }
    }

    /// The schema of the stream.
    pub fn get_type(&self) -> (t: &Vec<ColumnType>)
        ensures
            schema_model(*t) == self@.types,
    {
        &self.types
    }

    /// Takes the next row out of the stream. Where no row is left, says
    /// whether the stream has ended or its source has failed.
    pub fn read(&mut self) -> (r: ReadOutcome)
        ensures
            final(self)@.types == old(self)@.types,
            final(self).is_broken() == old(self).is_broken(),
            match r {
                ReadOutcome::Row(row) => old(self)@.rows.len() > 0 && row@ == old(self)@.rows[0]
                    && final(self)@.rows == old(self)@.rows.subrange(
                    1,
                    old(self)@.rows.len() as int,
                ),
                ReadOutcome::Ended => old(self)@.rows.len() == 0 && !old(self).is_broken()
                    && final(self)@.rows == old(self)@.rows,
                ReadOutcome::Failed => old(self)@.rows.len() == 0 && old(self).is_broken()
                    && final(self)@.rows == old(self)@.rows,
            },
    {
        let ghost before = rows_model(self.pending);
        match self.pending.pop() {
            Some(row) => {
                assert(rows_model(self.pending).reverse() =~= before.reverse().subrange(
                    1,
                    before.len() as int,
                ));
                ReadOutcome::Row(row)
            },
            None => {
                if self.broken {
                    ReadOutcome::Failed
                } else {
                    ReadOutcome::Ended
                }
            },
        }
    }
}

impl Value {
    /// On which side of its column a cell with this value is set.
    pub fn alignment(&self) -> (a: Alignment)
        ensures
            a == self@.alignment(),
    {
        match self {
            Value::Time(_) => Alignment::Right,
            Value::Duration(_) => Alignment::Right,
            Value::Integer(_) => Alignment::Right,
            Value::Float(_) => Alignment::Right,
            _ => Alignment::Left,
        }
    }

    /// A stream without columns that has ended.
    pub fn empty_stream() -> (v: Value)
        ensures
            v@ == ValueModel::Stream(
                TableModel { types: Seq::<ColumnModel>::empty(), rows: Seq::<Seq<ValueModel>>::empty() },
            ),
    {
        let s = Stream::new(Vec::new(), Vec::new());
        assert(s@.types =~= Seq::<ColumnModel>::empty());
        assert(s@.rows =~= Seq::<Seq<ValueModel>>::empty());
        Value::Stream(s)
    }

    /// The text `s` as a value.
    pub fn text(s: &str) -> (v: Value)
        ensures
            v@ == ValueModel::Text(s@),
    {
        Value::Text(String::from_str(s))
    }

    /// The operator written as `s`, as a value.
    pub fn op(s: &str) -> (v: Value)
        ensures
            v@ == ValueModel::Op(s@),
    {
        Value::Op(String::from_str(s))
    }

    /// The type of the value. For a structured value the schema is read from
    /// what the value holds.
    pub fn value_type(&self) -> (t: ValueType)
        ensures
            t@ == self@.value_type(),
    {
        match self {
            Value::Text(_) => ValueType::Text,
            Value::Integer(_) => ValueType::Integer,
            Value::Time(_) => ValueType::Time,
            Value::Field(_) => ValueType::Field,
            Value::Glob(_) => ValueType::Glob,
            Value::Regex(_, _) => ValueType::Regex,
            Value::Op(_) => ValueType::Op,
            Value::Command(_) => ValueType::Command,
            Value::File(_) => ValueType::File,
            Value::Stream(o) => ValueType::Stream(clone_columns(o.get_type())),
            Value::Rows(r) => ValueType::Rows(clone_columns(&r.types)),
            Value::Struct(r) => ValueType::Row(clone_columns(&r.types)),
            Value::Closure(_) => ValueType::Closure,
            Value::List(l) => ValueType::List(Box::new(l.cell_type.clone())),
            Value::Duration(_) => ValueType::Duration,
            Value::Env(_) => ValueType::Env,
            Value::Bool(_) => ValueType::Bool,
            Value::Dict(d) => ValueType::Dict(
                Box::new(d.key_type.clone()),
                Box::new(d.value_type.clone()),
            ),
            Value::Float(_) => ValueType::Float,
            Value::Empty => ValueType::Empty,
            Value::BinaryReader(_) => ValueType::Binary,
            Value::Type(_) => ValueType::Type,
        }
    }
}

/// A copy of a schema.
pub fn clone_columns(columns: &Vec<ColumnType>) -> (r: Vec<ColumnType>)
    ensures
        schema_model(r) == schema_model(*columns),
{
    let mut out: Vec<ColumnType> = Vec::new();
    let mut i: usize = 0;
    while i < columns.len()
        invariant
            i <= columns.len(),
            out.len() == i,
            forall|j: int| 0 <= j < i ==> (#[trigger] out[j])@ == columns[j]@,
        decreases columns.len() - i,
    {
        out.push(columns[i].clone());
        i = i + 1;
    }
    out
}

/// Whether one of `cells` holds a stream.
pub open spec fn any_holds_stream(cells: Seq<ValueModel>) -> bool
    decreases cells,
{
    exists|i: int| 0 <= i < cells.len() && (#[trigger] cells[i]).holds_stream()
}

/// Whether a cell of one of `rows` holds a stream.
pub open spec fn any_row_holds_stream(rows: Seq<Seq<ValueModel>>) -> bool
    decreases rows,
{
    exists|i: int| 0 <= i < rows.len() && any_holds_stream(#[trigger] rows[i])
}

/// Whether a key of `entries`, or what one stands for, holds a stream.
pub open spec fn any_entry_holds_stream(entries: Seq<(ValueModel, ValueModel)>) -> bool
    decreases entries,
{
    exists|i: int|
        0 <= i < entries.len() && ((#[trigger] entries[i]).0.holds_stream()
            || entries[i].1.holds_stream())
}

impl ValueModel {
    /// Whether the value is a stream or holds one, at any depth.
    pub open spec fn holds_stream(self) -> bool
        decreases self,
    {
        match self {
            ValueModel::Stream(_) => true,
            ValueModel::Rows(t) => any_row_holds_stream(t.rows),
            ValueModel::Struct { cells, .. } => any_holds_stream(cells),
            ValueModel::List { cells, .. } => any_holds_stream(cells),
            ValueModel::Dict { entries, .. } => any_entry_holds_stream(entries),
            _ => false,
        }
    }
}

fn clone_texts(parts: &Vec<String>) -> (r: Vec<String>)
    ensures
        texts_model(r) == texts_model(*parts),
{
    let mut out: Vec<String> = Vec::new();
    let mut i: usize = 0;
    while i < parts.len()
        invariant
            i <= parts.len(),
            out.len() == i,
            forall|j: int| 0 <= j < i ==> (#[trigger] out[j])@ == parts[j]@,
        decreases parts.len() - i,
    {
        out.push(parts[i].clone());
        i = i + 1;
    }
    out
}

fn clone_bytes(bytes: &Vec<u8>) -> (r: Vec<u8>)
    ensures
        r@ == bytes@,
{
    let mut out: Vec<u8> = Vec::new();
    let mut i: usize = 0;
    while i < bytes.len()
        invariant
            i <= bytes.len(),
            out@ == bytes@.subrange(0, i as int),
        decreases bytes.len() - i,
    {
        out.push(bytes[i]);
        i = i + 1;
    }
    out
}

/// A copy of the cells of a row. It fails where one of them holds a stream.
pub fn clone_cells(cells: &Vec<Value>) -> (r: Result<Vec<Value>, JobError>)
    ensures
        match r {
            Ok(c) => cells_model(c) == cells_model(*cells) && !any_holds_stream(
                cells_model(*cells),
            ),
            Err(e) => e == JobError::InvalidStreamUse && any_holds_stream(cells_model(*cells)),
        },
    decreases cells,
{
    let ghost model = cells_model(*cells);
    let mut out: Vec<Value> = Vec::new();
    let mut i: usize = 0;
    while i < cells.len()
        invariant
            i <= cells.len(),
            out.len() == i,
            model == cells_model(*cells),
            forall|j: int| 0 <= j < i ==> (#[trigger] out[j])@ == model[j],
            forall|j: int| 0 <= j < i ==> !(#[trigger] model[j]).holds_stream(),
        decreases cells.len() - i,
    {
        match cells[i].partial_clone() {
            Ok(v) => out.push(v),
            Err(e) => {
                assert(model[i as int].holds_stream());
                return Err(e);
            },
        }
        i = i + 1;
    }
    Ok(out)
}

fn clone_rows(rows: &Vec<Row>) -> (r: Result<Vec<Row>, JobError>)
    ensures
        match r {
            Ok(c) => rows_model(c) == rows_model(*rows) && !any_row_holds_stream(
                rows_model(*rows),
            ),
            Err(e) => e == JobError::InvalidStreamUse && any_row_holds_stream(rows_model(*rows)),
        },
    decreases rows,
{
    let ghost model = rows_model(*rows);
    let mut out: Vec<Row> = Vec::new();
    let mut i: usize = 0;
    while i < rows.len()
        invariant
            i <= rows.len(),
            out.len() == i,
            model == rows_model(*rows),
            forall|j: int| 0 <= j < i ==> (#[trigger] out[j])@ == model[j],
            forall|j: int| 0 <= j < i ==> !any_holds_stream(#[trigger] model[j]),
        decreases rows.len() - i,
    {
        match clone_cells(&rows[i].cells) {
            Ok(cells) => out.push(Row { cells }),
            Err(e) => {
                assert(any_holds_stream(model[i as int]));
                return Err(e);
            },
        }
        i = i + 1;
    }
    Ok(out)
}

fn clone_entries(entries: &Vec<(Value, Value)>) -> (r: Result<Vec<(Value, Value)>, JobError>)
    ensures
        match r {
            Ok(c) => entries_model(c) == entries_model(*entries) && !any_entry_holds_stream(
                entries_model(*entries),
            ),
            Err(e) => e == JobError::InvalidStreamUse && any_entry_holds_stream(
                entries_model(*entries),
            ),
        },
    decreases entries,
{
    let ghost model = entries_model(*entries);
    let mut out: Vec<(Value, Value)> = Vec::new();
    let mut i: usize = 0;
    while i < entries.len()
        invariant
            i <= entries.len(),
            out.len() == i,
            model == entries_model(*entries),
            forall|j: int|
                0 <= j < i ==> ((#[trigger] out[j]).0@, out[j].1@) == model[j],
            forall|j: int|
                0 <= j < i ==> !(#[trigger] model[j]).0.holds_stream()
                    && !model[j].1.holds_stream(),
        decreases entries.len() - i,
    {
        let key = match entries[i].0.partial_clone() {
            Ok(v) => v,
            Err(e) => {
                assert(model[i as int].0.holds_stream());
                return Err(e);
            },
        };
        let value = match entries[i].1.partial_clone() {
            Ok(v) => v,
            Err(e) => {
                assert(model[i as int].1.holds_stream());
                return Err(e);
            },
        };
        out.push((key, value));
        i = i + 1;
    }
    Ok(out)
}

impl Value {
    /// A copy of the value. A stream cannot be copied: where the value is
    /// one or holds one, the copy fails.
    pub fn partial_clone(&self) -> (r: Result<Value, JobError>)
        ensures
            match r {
                Ok(v) => v@ == self@ && !self@.holds_stream(),
                Err(e) => e == JobError::InvalidStreamUse && self@.holds_stream(),
            },
        decreases self,
    {
        match self {
            Value::Text(v) => Ok(Value::Text(v.clone())),
            Value::Integer(v) => Ok(Value::Integer(*v)),
            Value::Time(v) => Ok(Value::Time(*v)),
            Value::Field(v) => Ok(Value::Field(clone_texts(v))),
            Value::Glob(v) => Ok(Value::Glob(v.clone())),
            Value::Regex(v, r) => Ok(Value::Regex(v.clone(), clone_regex(r))),
            Value::Op(v) => Ok(Value::Op(v.clone())),
            Value::Command(v) => Ok(Value::Command(Command { name: v.name.clone() })),
            Value::File(v) => Ok(Value::File(FilePath { bytes: clone_bytes(&v.bytes) })),
            Value::Rows(r) => match clone_rows(&r.rows) {
                Ok(rows) => Ok(Value::Rows(Rows { types: clone_columns(&r.types), rows })),
                Err(e) => Err(e),
            },
            Value::Struct(r) => match clone_cells(&r.cells) {
                Ok(cells) => Ok(Value::Struct(Struct { types: clone_columns(&r.types), cells })),
                Err(e) => Err(e),
            },
            Value::Closure(c) => Ok(Value::Closure(Closure { source: c.source.clone() })),
            Value::Stream(_) => Err(JobError::InvalidStreamUse),
            Value::List(l) => match clone_cells(&l.cells) {
                Ok(cells) => Ok(Value::List(List { cell_type: l.cell_type.clone(), cells })),
                Err(e) => Err(e),
            },
            Value::Duration(d) => Ok(Value::Duration(*d)),
            Value::Env(e) => Ok(Value::Env(Env { description: e.description.clone() })),
            Value::Bool(v) => Ok(Value::Bool(*v)),
            Value::Dict(d) => match clone_entries(&d.entries) {
                Ok(entries) => Ok(
                    Value::Dict(
                        Dict {
                            key_type: d.key_type.clone(),
                            value_type: d.value_type.clone(),
                            entries,
                        },
                    ),
                ),
                Err(e) => Err(e),
            },
            Value::Float(f) => Ok(Value::Float(Float { bits: f.bits, text: f.text.clone() })),
            Value::Empty => Ok(Value::Empty),
            Value::BinaryReader(v) => Ok(
                Value::BinaryReader(BinaryReader { content: v.content.clone() }),
            ),
            Value::Type(t) => Ok(Value::Type(t.clone())),
        }
    }
}

/// The cells of a row with every stream among them drained into a table.
pub open spec fn materialized_cells(cells: Seq<ValueModel>) -> Seq<ValueModel>
    decreases cells,
{
    Seq::new(
        cells.len(),
        |i: int|
            if 0 <= i < cells.len() {
                cells[i].materialized()
            } else {
                arbitrary()
            },
    )
}

/// The rows of a table with every stream in them drained into a table.
pub open spec fn materialized_rows(rows: Seq<Seq<ValueModel>>) -> Seq<Seq<ValueModel>>
    decreases rows,
{
    Seq::new(
        rows.len(),
        |i: int|
            if 0 <= i < rows.len() {
                materialized_cells(rows[i])
            } else {
                arbitrary()
            },
    )
}

/// The pairs of a dictionary with every stream in them drained into a
/// table.
pub open spec fn materialized_entries(entries: Seq<(ValueModel, ValueModel)>) -> Seq<
    (ValueModel, ValueModel),
>
    decreases entries,
{
    Seq::new(
        entries.len(),
        |i: int|
            if 0 <= i < entries.len() {
                (entries[i].0.materialized(), entries[i].1.materialized())
            } else {
                arbitrary()
            },
    )
}

impl ValueModel {
    /// The value with every stream in it drained into a table: a stream
    /// becomes the table of the rows it had left, and what a table, a row, a
    /// list or a dictionary holds is treated in the same way. Every other
    /// value stays as it is.
    pub open spec fn materialized(self) -> ValueModel
        decreases self,
    {
        match self {
            ValueModel::Stream(t) => ValueModel::Rows(
                TableModel { types: materialized_schema(t.types), rows: materialized_rows(t.rows) },
            ),
            ValueModel::Rows(t) => ValueModel::Rows(
                TableModel { types: materialized_schema(t.types), rows: materialized_rows(t.rows) },
            ),
            ValueModel::Struct { types, cells } => ValueModel::Struct {
                types: materialized_schema(types),
                cells: materialized_cells(cells),
            },
            ValueModel::List { cell_type, cells } => ValueModel::List {
                cell_type: cell_type.materialized(),
                cells: materialized_cells(cells),
            },
            ValueModel::Dict { key_type, value_type, entries } => ValueModel::Dict {
                key_type: key_type.materialized(),
                value_type: value_type.materialized(),
                entries: materialized_entries(entries),
            },
            _ => self,
        }
    }
}

/// Materializing is idempotent: what `materialized` gives is a fixed point
/// of it, so that materializing a value a second time changes nothing.
pub proof fn lemma_materialized_twice(v: ValueModel)
    ensures
        v.materialized().materialized() == v.materialized(),
        !v.materialized().holds_stream(),
    decreases v,
{
    match v {
        ValueModel::Stream(t) => {
            lemma_schema_materialized_twice(t.types);
            lemma_rows_materialized_twice(t.rows);
        },
        ValueModel::Rows(t) => {
            lemma_schema_materialized_twice(t.types);
            lemma_rows_materialized_twice(t.rows);
        },
        ValueModel::Struct { types, cells } => {
            lemma_schema_materialized_twice(types);
            lemma_cells_materialized_twice(cells);
        },
        ValueModel::List { cell_type, cells } => {
            lemma_type_materialized_twice(cell_type);
            lemma_cells_materialized_twice(cells);
        },
        ValueModel::Dict { key_type, value_type, entries } => {
            lemma_type_materialized_twice(key_type);
            lemma_type_materialized_twice(value_type);
            let once = materialized_entries(entries);
            assert forall|i: int| 0 <= i < entries.len() implies #[trigger] materialized_entries(
                once,
            )[i] == once[i] && !once[i].0.holds_stream() && !once[i].1.holds_stream() by {
                lemma_materialized_twice(entries[i].0);
                lemma_materialized_twice(entries[i].1);
            }
            assert(materialized_entries(once) =~= once);
        },
        _ => {},
    }
}

/// What `materialized_cells` gives is a fixed point of it and holds no
/// stream.
pub proof fn lemma_cells_materialized_twice(cells: Seq<ValueModel>)
    ensures
        materialized_cells(materialized_cells(cells)) == materialized_cells(cells),
        !any_holds_stream(materialized_cells(cells)),
    decreases cells,
{
    let once = materialized_cells(cells);
    assert forall|i: int| 0 <= i < cells.len() implies #[trigger] materialized_cells(once)[i]
        == once[i] && !once[i].holds_stream() by {
        lemma_materialized_twice(cells[i]);
    }
}

/// What `materialized_rows` gives is a fixed point of it and holds no
/// stream.
pub proof fn lemma_rows_materialized_twice(rows: Seq<Seq<ValueModel>>)
    ensures
        materialized_rows(materialized_rows(rows)) == materialized_rows(rows),
        !any_row_holds_stream(materialized_rows(rows)),
    decreases rows,
{
    let once = materialized_rows(rows);
    assert forall|i: int| 0 <= i < rows.len() implies #[trigger] materialized_rows(once)[i]
        == once[i] && !any_holds_stream(once[i]) by {
        lemma_cells_materialized_twice(rows[i]);
    }
}

fn materialize_cells(cells: Vec<Value>) -> (r: Vec<Value>)
    ensures
        cells_model(r) == materialized_cells(cells_model(cells)),
    decreases cells,
{
    let ghost model = cells_model(cells);
    let mut out: Vec<Value> = Vec::new();
    for v in it: cells.into_iter()
        invariant
            it.seq() == cells@,
            model == cells_model(cells),
            out.len() == it.index(),
            forall|j: int| 0 <= j < out.len() ==> (#[trigger] out[j])@ == model[j].materialized(),
    {
        out.push(v.materialize());
    }
    out
}

fn materialize_rows(rows: Vec<Row>) -> (r: Vec<Row>)
    ensures
        rows_model(r) == materialized_rows(rows_model(rows)),
    decreases rows,
{
    let ghost model = rows_model(rows);
    let mut out: Vec<Row> = Vec::new();
    for row in it: rows.into_iter()
        invariant
            it.seq() == rows@,
            model == rows_model(rows),
            out.len() == it.index(),
            forall|j: int| 0 <= j < out.len() ==> (#[trigger] out[j])@ == materialized_cells(model[j]),
    {
        out.push(Row { cells: materialize_cells(row.cells) });
    }
    out
}

fn materialize_pending(pending: Vec<Row>) -> (r: Vec<Row>)
    ensures
        rows_model(r) == materialized_rows(rows_model(pending).reverse()),
    decreases pending,
{
    let ghost model = rows_model(pending).reverse();
    let mut out: Vec<Row> = Vec::new();
    for row in it: pending.into_iter().rev()
        invariant
            it.seq() == pending@.reverse(),
            model == rows_model(pending).reverse(),
            out.len() == it.index(),
            forall|j: int| 0 <= j < out.len() ==> (#[trigger] out[j])@ == materialized_cells(model[j]),
    {
        out.push(Row { cells: materialize_cells(row.cells) });
    }
    out
}

fn materialize_entries(entries: Vec<(Value, Value)>) -> (r: Vec<(Value, Value)>)
    ensures
        entries_model(r) == materialized_entries(entries_model(entries)),
    decreases entries,
{
    let ghost model = entries_model(entries);
    let mut out: Vec<(Value, Value)> = Vec::new();
    for entry in it: entries.into_iter()
        invariant
            it.seq() == entries@,
            model == entries_model(entries),
            out.len() == it.index(),
            forall|j: int|
                0 <= j < out.len() ==> ((#[trigger] out[j]).0@, out[j].1@) == (
                    model[j].0.materialized(),
                    model[j].1.materialized(),
                ),
    {
        let (key, value) = entry;
        out.push((key.materialize(), value.materialize()));
    }
    out
}

impl Value {
    /// Drains every stream in the value into a table: a stream is read to
    /// its end and becomes the table of its rows, and what a table, a row,
    /// a list or a dictionary holds is treated in the same way. Every other
    /// value comes back as it is.
    pub fn materialize(self) -> (r: Value)
        ensures
            r@ == self@.materialized(),
        decreases self,
    {
        match self {
            Value::Stream(output) => {
                let Stream { types, pending, broken: _ } = output;
                Value::Rows(
                    Rows { types: ColumnType::materialize(&types), rows: materialize_pending(pending) },
                )
            },
            Value::Rows(r) => Value::Rows(
                Rows { types: ColumnType::materialize(&r.types), rows: materialize_rows(r.rows) },
            ),
            Value::Dict(d) => Value::Dict(
                Dict {
                    key_type: d.key_type.materialize(),
                    value_type: d.value_type.materialize(),
                    entries: materialize_entries(d.entries),
                },
            ),
            Value::Struct(r) => Value::Struct(
                Struct { types: ColumnType::materialize(&r.types), cells: materialize_cells(r.cells) },
            ),
            Value::List(l) => Value::List(
                List { cell_type: l.cell_type.materialize(), cells: materialize_cells(l.cells) },
            ),
            other => other,
        }
    }
}

/// Whether the renderer can print the value: a table that it expands has as
/// many cells in each row as it has columns, and so have the tables in its
/// cells.
pub open spec fn printable(v: ValueModel) -> bool
    decreases v,
{
    match v {
        ValueModel::Rows(t) => printable_table(t),
        ValueModel::Stream(t) => printable_table(t),
        _ => true,
    }
}

/// Whether every one of `cells` can be printed.
pub open spec fn printable_cells(cells: Seq<ValueModel>) -> bool
    decreases cells,
{
    forall|j: int| 0 <= j < cells.len() ==> printable(#[trigger] cells[j])
}

/// Whether every row of `rows` has `count` cells that can be printed.
pub open spec fn printable_rows(rows: Seq<Seq<ValueModel>>, count: nat) -> bool
    decreases rows,
{
    forall|i: int|
        0 <= i < rows.len() ==> (#[trigger] rows[i]).len() == count && printable_cells(rows[i])
}

/// Whether the renderer can print the table.
pub open spec fn printable_table(t: TableModel) -> bool
    decreases t,
{
    printable_rows(t.rows, t.types.len())
}


fn printable_cells_of(cells: &Vec<Value>) -> (r: bool)
    ensures
        r == printable_cells(cells_model(*cells)),
    decreases cells,
{
    let ghost model = cells_model(*cells);
    let mut j: usize = 0;
    while j < cells.len()
        invariant
            j <= cells.len(),
            model == cells_model(*cells),
            forall|k: int| 0 <= k < j ==> printable(#[trigger] model[k]),
        decreases cells.len() - j,
    {
        if !cells[j].is_printable() {
            assert(!printable(model[j as int]));
            return false;
        }
        j = j + 1;
    }
    true
}

/// Whether every row of `rows` has `count` cells that can be printed.
pub fn printable_rows_of(rows: &Vec<Row>, count: usize) -> (r: bool)
    ensures
        r == printable_rows(rows_model(*rows), count as nat),
    decreases rows,
{
    let ghost model = rows_model(*rows);
    let mut i: usize = 0;
    while i < rows.len()
        invariant
            i <= rows.len(),
            model == rows_model(*rows),
            forall|k: int|
                0 <= k < i ==> (#[trigger] model[k]).len() == count && printable_cells(model[k]),
        decreases rows.len() - i,
    {
        if rows[i].cells.len() != count || !printable_cells_of(&rows[i].cells) {
            assert(!(model[i as int].len() == count && printable_cells(model[i as int])));
            return false;
        }
        i = i + 1;
    }
    true
}

impl Stream {
    /// Whether the renderer can print the stream.
    pub fn is_printable(&self) -> (r: bool)
        ensures
            r == printable_table(self@),
        decreases self,
    {
        let r = printable_rows_of(&self.pending, self.types.len());
        proof {
            let held = rows_model(self.pending);
            let count = self.types.len() as nat;
            if r {
                assert forall|i: int| 0 <= i < held.len() implies (#[trigger] held.reverse()[i]).len()
                    == count && printable_cells(held.reverse()[i]) by {}
            } else {
                let i = choose|i: int|
                    0 <= i < held.len() && !((#[trigger] held[i]).len() == count && printable_cells(
                        held[i],
                    ));
                assert(held.reverse()[held.len() - 1 - i] == held[i]);
            }
        }
        r
    }
}

impl Value {
    /// Whether the renderer can print the value.
    pub fn is_printable(&self) -> (r: bool)
        ensures
            r == printable(self@),
        decreases self,
    {
        match self {
            Value::Rows(t) => printable_rows_of(&t.rows, t.types.len()),
            Value::Stream(s) => s.is_printable(),
            _ => true,
        }
    }
}

} // verus!
