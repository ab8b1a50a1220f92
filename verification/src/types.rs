//! The closed set of value types, and the typed columns that make up the
//! schema of a table or a stream.

use vstd::prelude::*;
use vstd::string::*;
use crate::errors::JobError;
use crate::text::{
    byte_width, compare_text, lemma_text_order_equal, same_text, text_order, text_width, Comparison,
};

verus! {

/// The type of a value. The structured kinds carry the schema of what they
/// hold.
#[derive(Debug)]
pub enum ValueType {
    Text,
    Integer,
    Time,
    Duration,
    Field,
    Glob,
    Regex,
    Op,
    Command,
    Closure,
    File,
    Stream(Vec<ColumnType>),
    Rows(Vec<ColumnType>),
    Row(Vec<ColumnType>),
    List(Box<ValueType>),
    Dict(Box<ValueType>, Box<ValueType>),
    Env,
    Bool,
    Float,
    Empty,
    Any,
    Binary,
    Type,
}

/// One column of a schema: a name, if it has one, and the type of its cells.
#[derive(Debug)]
pub struct ColumnType {
    pub name: Option<String>,
    pub cell_type: ValueType,
}

/// What a `ValueType` stands for.
pub ghost enum TypeModel {
    Text,
    Integer,
    Time,
    Duration,
    Field,
    Glob,
    Regex,
    Op,
    Command,
    Closure,
    File,
    Stream(Seq<ColumnModel>),
    Rows(Seq<ColumnModel>),
    Row(Seq<ColumnModel>),
    List(Box<TypeModel>),
    Dict(Box<TypeModel>, Box<TypeModel>),
    Env,
    Bool,
    Float,
    Empty,
    Any,
    Binary,
    Type,
}

/// What a `ColumnType` stands for.
pub ghost struct ColumnModel {
    pub name: Option<Seq<char>>,
    pub cell_type: TypeModel,
}

/// What a schema stands for, column by column.
pub open spec fn schema_model(columns: Vec<ColumnType>) -> Seq<ColumnModel>
    decreases columns,
{
    Seq::new(
        columns.len() as nat,
        |i: int|
            if 0 <= i < columns.len() {
                columns[i].model()
            } else {
                arbitrary()
            },
    )
}

impl ValueType {
    /// What this type stands for.
    pub open spec fn model(self) -> TypeModel
        decreases self,
    {
        match self {
            ValueType::Text => TypeModel::Text,
            ValueType::Integer => TypeModel::Integer,
            ValueType::Time => TypeModel::Time,
            ValueType::Duration => TypeModel::Duration,
            ValueType::Field => TypeModel::Field,
            ValueType::Glob => TypeModel::Glob,
            ValueType::Regex => TypeModel::Regex,
            ValueType::Op => TypeModel::Op,
            ValueType::Command => TypeModel::Command,
            ValueType::Closure => TypeModel::Closure,
            ValueType::File => TypeModel::File,
            ValueType::Stream(c) => TypeModel::Stream(schema_model(c)),
            ValueType::Rows(c) => TypeModel::Rows(schema_model(c)),
            ValueType::Row(c) => TypeModel::Row(schema_model(c)),
            ValueType::List(e) => TypeModel::List(Box::new(e.model())),
            ValueType::Dict(k, v) => TypeModel::Dict(Box::new(k.model()), Box::new(v.model())),
            ValueType::Env => TypeModel::Env,
            ValueType::Bool => TypeModel::Bool,
            ValueType::Float => TypeModel::Float,
            ValueType::Empty => TypeModel::Empty,
            ValueType::Any => TypeModel::Any,
            ValueType::Binary => TypeModel::Binary,
            ValueType::Type => TypeModel::Type,
        }
    }
}

impl ColumnType {
    /// What this column stands for.
    pub open spec fn model(self) -> ColumnModel
        decreases self,
    {
        ColumnModel {
            name: match self.name {
                Some(n) => Some(n@),
                None => None,
            },
            cell_type: self.cell_type.model(),
        }
    }
}

impl View for ValueType {
    type V = TypeModel;

    open spec fn view(&self) -> TypeModel {
        self.model()
    }
}

impl View for ColumnType {
    type V = ColumnModel;

    open spec fn view(&self) -> ColumnModel {
        self.model()
    }
}

impl TypeModel {
    /// The place of this type's tag in the canonical order of tags.
    pub open spec fn rank(self) -> int {
        match self {
            TypeModel::Text => 0,
            TypeModel::Integer => 1,
            TypeModel::Time => 2,
            TypeModel::Duration => 3,
            TypeModel::Field => 4,
            TypeModel::Glob => 5,
            TypeModel::Regex => 6,
            TypeModel::Op => 7,
            TypeModel::Command => 8,
            TypeModel::Closure => 9,
            TypeModel::File => 10,
            TypeModel::Stream(_) => 11,
            TypeModel::Rows(_) => 12,
            TypeModel::Row(_) => 13,
            TypeModel::List(_) => 14,
            TypeModel::Dict(_, _) => 15,
            TypeModel::Env => 16,
            TypeModel::Bool => 17,
            TypeModel::Float => 18,
            TypeModel::Empty => 19,
            TypeModel::Any => 20,
            TypeModel::Binary => 21,
            TypeModel::Type => 22,
        }
    }

    /// Whether values of this type may be hashed.
    pub open spec fn is_hashable(self) -> bool {
        match self {
            TypeModel::Text => true,
            TypeModel::Integer => true,
            TypeModel::Time => true,
            TypeModel::Duration => true,
            TypeModel::Field => true,
            TypeModel::Glob => true,
            TypeModel::Regex => true,
            TypeModel::Op => true,
            TypeModel::Command => true,
            TypeModel::File => true,
            TypeModel::Bool => true,
            TypeModel::Empty => true,
            TypeModel::Type => true,
            _ => false,
        }
    }

    /// Whether this type is one of the two kinds of table.
    pub open spec fn is_table(self) -> bool {
        self is Stream || self is Rows
    }

    /// The type of what is left when every stream in a value of this type
    /// has been drained into a table.
    pub open spec fn materialized(self) -> TypeModel
        decreases self,
    {
        match self {
            TypeModel::Stream(c) => TypeModel::Rows(materialized_schema(c)),
            TypeModel::Rows(c) => TypeModel::Rows(materialized_schema(c)),
            TypeModel::Row(c) => TypeModel::Row(materialized_schema(c)),
            TypeModel::List(e) => TypeModel::List(Box::new(e.materialized())),
            TypeModel::Dict(k, v) => TypeModel::Dict(
                Box::new(k.materialized()),
                Box::new(v.materialized()),
            ),
            _ => self,
        }
    }
}

/// The schema of a table whose nested streams have all been drained.
pub open spec fn materialized_schema(columns: Seq<ColumnModel>) -> Seq<ColumnModel>
    decreases columns,
{
    Seq::new(
        columns.len(),
        |i: int|
            if 0 <= i < columns.len() {
                ColumnModel {
                    name: columns[i].name,
                    cell_type: columns[i].cell_type.materialized(),
                }
            } else {
                arbitrary()
            },
    )
}

/// The order of two optional names: no name before any name, two names by
/// their text.
pub open spec fn name_order(a: Option<Seq<char>>, b: Option<Seq<char>>) -> Comparison {
    match (a, b) {
        (None, None) => Comparison::Equal,
        (None, Some(_)) => Comparison::Less,
        (Some(_), None) => Comparison::Greater,
        (Some(x), Some(y)) => text_order(x, y),
    }
}

/// The canonical order of types: by the rank of the tag first; two types of
/// one tag by what they carry.
pub open spec fn type_order(a: TypeModel, b: TypeModel) -> Comparison
    decreases a,
{
    if a.rank() < b.rank() {
        Comparison::Less
    } else if a.rank() > b.rank() {
        Comparison::Greater
    } else {
        match (a, b) {
            (TypeModel::Stream(x), TypeModel::Stream(y)) => schema_order(x, y),
            (TypeModel::Rows(x), TypeModel::Rows(y)) => schema_order(x, y),
            (TypeModel::Row(x), TypeModel::Row(y)) => schema_order(x, y),
            (TypeModel::List(x), TypeModel::List(y)) => type_order(*x, *y),
            (TypeModel::Dict(k1, v1), TypeModel::Dict(k2, v2)) => match type_order(*k1, *k2) {
                Comparison::Equal => type_order(*v1, *v2),
                o => o,
            },
            _ => Comparison::Equal,
        }
    }
}

/// The order of two columns: by name, then by type.
pub open spec fn column_order(a: ColumnModel, b: ColumnModel) -> Comparison
    decreases a,
{
    match name_order(a.name, b.name) {
        Comparison::Equal => type_order(a.cell_type, b.cell_type),
        o => o,
    }
}

/// The order of two schemas: column by column from the front, a proper
/// prefix before what it is a prefix of.
pub open spec fn schema_order(a: Seq<ColumnModel>, b: Seq<ColumnModel>) -> Comparison
    decreases a,
{
    if a.len() == 0 {
        if b.len() == 0 {
            Comparison::Equal
        } else {
            Comparison::Less
        }
    } else if b.len() == 0 {
        Comparison::Greater
    } else {
        match column_order(a[0], b[0]) {
            Comparison::Equal => schema_order(a.subrange(1, a.len() as int), b.subrange(1, b.len() as int)),
            o => o,
        }
    }
}

/// Two types are in the relation `Equal` exactly when they are the same
/// type.
pub proof fn lemma_type_order_equal(a: TypeModel, b: TypeModel)
    ensures
        type_order(a, b) == Comparison::Equal <==> a == b,
    decreases a,
{
    if a.rank() == b.rank() {
        match (a, b) {
            (TypeModel::Stream(x), TypeModel::Stream(y)) => lemma_schema_order_equal(x, y),
            (TypeModel::Rows(x), TypeModel::Rows(y)) => lemma_schema_order_equal(x, y),
            (TypeModel::Row(x), TypeModel::Row(y)) => lemma_schema_order_equal(x, y),
            (TypeModel::List(x), TypeModel::List(y)) => lemma_type_order_equal(*x, *y),
            (TypeModel::Dict(k1, v1), TypeModel::Dict(k2, v2)) => {
                lemma_type_order_equal(*k1, *k2);
                lemma_type_order_equal(*v1, *v2);
            },
            _ => {},
        }
    }
}

/// Two schemas are in the relation `Equal` exactly when they are the same
/// schema.
pub proof fn lemma_schema_order_equal(a: Seq<ColumnModel>, b: Seq<ColumnModel>)
    ensures
        schema_order(a, b) == Comparison::Equal <==> a == b,
    decreases a,
{
    if a.len() > 0 && b.len() > 0 {
        let ra = a.subrange(1, a.len() as int);
        let rb = b.subrange(1, b.len() as int);
        match (a[0].name, b[0].name) {
            (Some(x), Some(y)) => lemma_text_order_equal(x, y),
            _ => {},
        }
        lemma_type_order_equal(a[0].cell_type, b[0].cell_type);
        lemma_schema_order_equal(ra, rb);
        assert(column_order(a[0], b[0]) == Comparison::Equal <==> a[0] == b[0]);
        if a[0] == b[0] && ra == rb {
            assert(a =~= seq![a[0]] + ra);
            assert(b =~= seq![b[0]] + rb);
        }
    } else if a.len() == 0 && b.len() == 0 {
        assert(a =~= b);
    }
}

/// The name of an optional text, as a model.
pub open spec fn name_model(name: Option<String>) -> Option<Seq<char>> {
    match name {
        Some(n) => Some(n@),
        None => None,
    }
}

fn compare_names(a: &Option<String>, b: &Option<String>) -> (r: Comparison)
    ensures
        r == name_order(name_model(*a), name_model(*b)),
{
    match (a, b) {
        (None, None) => Comparison::Equal,
        (None, Some(_)) => Comparison::Less,
        (Some(_), None) => Comparison::Greater,
        (Some(x), Some(y)) => compare_text(x.as_str(), y.as_str()),
    }
}

fn compare_schema(a: &Vec<ColumnType>, b: &Vec<ColumnType>) -> (r: Comparison)
    ensures
        r == schema_order(schema_model(*a), schema_model(*b)),
    decreases a,
{
    let ghost am = schema_model(*a);
    let ghost bm = schema_model(*b);
    let mut i: usize = 0;
    assert(am.subrange(0, am.len() as int) =~= am);
    assert(bm.subrange(0, bm.len() as int) =~= bm);
    while i < a.len() && i < b.len()
        invariant
            i <= a.len(),
            i <= b.len(),
            am == schema_model(*a),
            bm == schema_model(*b),
            schema_order(am, bm) == schema_order(
                am.subrange(i as int, am.len() as int),
                bm.subrange(i as int, bm.len() as int),
            ),
        decreases a.len() - i,
    {
        let ghost ra = am.subrange(i as int, am.len() as int);
        let ghost rb = bm.subrange(i as int, bm.len() as int);
        match a[i].compare(&b[i]) {
            Comparison::Equal => {},
            o => {
                return o;
            },
        }
        assert(ra.subrange(1, ra.len() as int) =~= am.subrange(i + 1, am.len() as int));
        assert(rb.subrange(1, rb.len() as int) =~= bm.subrange(i + 1, bm.len() as int));
        i = i + 1;
    }
    if i < b.len() {
        Comparison::Less
    } else if i < a.len() {
        Comparison::Greater
    } else {
        Comparison::Equal
    }
}

fn clone_schema(a: &Vec<ColumnType>) -> (r: Vec<ColumnType>)
    ensures
        schema_model(r) == schema_model(*a),
    decreases a,
{
    let mut out: Vec<ColumnType> = Vec::new();
    let mut i: usize = 0;
    while i < a.len()
        invariant
            i <= a.len(),
            out.len() == i,
            forall|j: int| 0 <= j < i ==> (#[trigger] out[j])@ == a[j]@,
        decreases a.len() - i,
    {
        out.push(a[i].clone());
        i = i + 1;
    }
    out
}

fn materialize_schema(a: &Vec<ColumnType>) -> (r: Vec<ColumnType>)
    ensures
        schema_model(r) == materialized_schema(schema_model(*a)),
    decreases a,
{
    let mut out: Vec<ColumnType> = Vec::new();
    let mut i: usize = 0;
    while i < a.len()
        invariant
            i <= a.len(),
            out.len() == i,
            forall|j: int|
                0 <= j < i ==> (#[trigger] out[j])@ == (ColumnModel {
                    name: a[j]@.name,
                    cell_type: a[j]@.cell_type.materialized(),
                }),
        decreases a.len() - i,
    {
        let name = match &a[i].name {
            Some(n) => Some(n.clone()),
            None => None,
        };
        out.push(ColumnType { name, cell_type: a[i].cell_type.materialize() });
        i = i + 1;
    }
    out
}

impl ValueType {
    /// The place of this type's tag in the canonical order of tags.
    pub fn rank(&self) -> (r: u8)
        ensures
            r == self@.rank(),
    {
        match self {
            ValueType::Text => 0,
            ValueType::Integer => 1,
            ValueType::Time => 2,
            ValueType::Duration => 3,
            ValueType::Field => 4,
            ValueType::Glob => 5,
            ValueType::Regex => 6,
            ValueType::Op => 7,
            ValueType::Command => 8,
            ValueType::Closure => 9,
            ValueType::File => 10,
            ValueType::Stream(_) => 11,
            ValueType::Rows(_) => 12,
            ValueType::Row(_) => 13,
            ValueType::List(_) => 14,
            ValueType::Dict(_, _) => 15,
            ValueType::Env => 16,
            ValueType::Bool => 17,
            ValueType::Float => 18,
            ValueType::Empty => 19,
            ValueType::Any => 20,
            ValueType::Binary => 21,
            ValueType::Type => 22,
        }
    }

    /// Whether values of this type may be hashed.
    pub fn is_hashable(&self) -> (r: bool)
        ensures
            r == self@.is_hashable(),
    {
        match self {
            ValueType::Text => true,
            ValueType::Integer => true,
            ValueType::Time => true,
            ValueType::Duration => true,
            ValueType::Field => true,
            ValueType::Glob => true,
            ValueType::Regex => true,
            ValueType::Op => true,
            ValueType::Command => true,
            ValueType::File => true,
            ValueType::Bool => true,
            ValueType::Empty => true,
            ValueType::Type => true,
            _ => false,
        }
    }

    /// Whether this type is one of the two kinds of table.
    pub fn is_table(&self) -> (r: bool)
        ensures
            r == self@.is_table(),
    {
        match self {
            ValueType::Stream(_) => true,
            ValueType::Rows(_) => true,
            _ => false,
        }
    }

    /// Compares two types in the canonical order.
    pub fn compare(&self, other: &ValueType) -> (r: Comparison)
        ensures
            r == type_order(self@, other@),
        decreases self,
    {
        let left: u8 = self.rank();
        let right: u8 = other.rank();
        if left < right {
            return Comparison::Less;
        }
        if left > right {
            return Comparison::Greater;
        }
        match (self, other) {
            (ValueType::Stream(x), ValueType::Stream(y)) => compare_schema(x, y),
            (ValueType::Rows(x), ValueType::Rows(y)) => compare_schema(x, y),
            (ValueType::Row(x), ValueType::Row(y)) => compare_schema(x, y),
            (ValueType::List(x), ValueType::List(y)) => x.compare(y),
            (ValueType::Dict(k1, v1), ValueType::Dict(k2, v2)) => match k1.compare(k2) {
                Comparison::Equal => v1.compare(v2),
                o => o,
            },
            _ => Comparison::Equal,
        }
    }

    /// Whether two types are the same type.
    pub fn same(&self, other: &ValueType) -> (r: bool)
        ensures
            r == (self@ == other@),
    {
        proof {
            lemma_type_order_equal(self@, other@);
        }
        match self.compare(other) {
            Comparison::Equal => true,
            _ => false,
        }
    }

    /// The type of what is left when every stream in a value of this type
    /// has been drained into a table.
    pub fn materialize(&self) -> (r: ValueType)
        ensures
            r@ == self@.materialized(),
        decreases self,
    {
        match self {
            ValueType::Stream(c) => ValueType::Rows(materialize_schema(c)),
            ValueType::Rows(c) => ValueType::Rows(materialize_schema(c)),
            ValueType::Row(c) => ValueType::Row(materialize_schema(c)),
            ValueType::List(e) => ValueType::List(Box::new(e.materialize())),
            ValueType::Dict(k, v) => ValueType::Dict(
                Box::new(k.materialize()),
                Box::new(v.materialize()),
            ),
            _ => self.clone(),
        }
    }
}

impl Clone for ValueType {
    fn clone(&self) -> (r: Self)
        ensures
            r@ == self@,
        decreases self,
    {
        match self {
            ValueType::Text => ValueType::Text,
            ValueType::Integer => ValueType::Integer,
            ValueType::Time => ValueType::Time,
            ValueType::Duration => ValueType::Duration,
            ValueType::Field => ValueType::Field,
            ValueType::Glob => ValueType::Glob,
            ValueType::Regex => ValueType::Regex,
            ValueType::Op => ValueType::Op,
            ValueType::Command => ValueType::Command,
            ValueType::Closure => ValueType::Closure,
            ValueType::File => ValueType::File,
            ValueType::Stream(c) => ValueType::Stream(clone_schema(c)),
            ValueType::Rows(c) => ValueType::Rows(clone_schema(c)),
            ValueType::Row(c) => ValueType::Row(clone_schema(c)),
            ValueType::List(e) => ValueType::List(Box::new((**e).clone())),
            ValueType::Dict(k, v) => ValueType::Dict(
                Box::new((**k).clone()),
                Box::new((**v).clone()),
            ),
            ValueType::Env => ValueType::Env,
            ValueType::Bool => ValueType::Bool,
            ValueType::Float => ValueType::Float,
            ValueType::Empty => ValueType::Empty,
            ValueType::Any => ValueType::Any,
            ValueType::Binary => ValueType::Binary,
            ValueType::Type => ValueType::Type,
        }
    }
}

impl ColumnModel {
    /// The width of the column's header label: the length in bytes of its
    /// name, or nothing where it has none.
    pub open spec fn label_width(self) -> nat {
        match self.name {
            Some(n) => byte_width(n),
            None => 0,
        }
    }

    /// The column's header label: its name, or nothing where it has none.
    pub open spec fn label(self) -> Seq<char> {
        match self.name {
            Some(n) => n,
            None => Seq::empty(),
        }
    }
}

impl ColumnType {
    /// A column with a name.
    pub fn named(name: &str, cell_type: ValueType) -> (r: ColumnType)
        ensures
            r@ == (ColumnModel { name: Some(name@), cell_type: cell_type@ }),
    {
        ColumnType { name: Some(String::from_str(name)), cell_type }
    }

    /// A column without a name.
    pub fn unnamed(cell_type: ValueType) -> (r: ColumnType)
        ensures
            r@ == (ColumnModel { name: None, cell_type: cell_type@ }),
    {
        ColumnType { name: None, cell_type }
    }

    /// Compares two columns: by name, then by type.
    pub fn compare(&self, other: &ColumnType) -> (r: Comparison)
        ensures
            r == column_order(self@, other@),
        decreases self,
    {
        match compare_names(&self.name, &other.name) {
            Comparison::Equal => self.cell_type.compare(&other.cell_type),
            o => o,
        }
    }

    /// The width of the header label.
    pub fn len_or_0(&self) -> (r: usize)
        ensures
            r == self@.label_width(),
    {
        match &self.name {
            Some(n) => text_width(n.as_str()),
            None => 0,
        }
    }

    /// The header label.
    pub fn val_or_empty(&self) -> (r: &str)
        ensures
            r@ == self@.label(),
    {
        match &self.name {
            Some(n) => n.as_str(),
            None => {
                proof {
                    reveal_strlit("");
                }
                ""
            },
        }
    }

    /// The schema of a table whose nested streams have all been drained.
    pub fn materialize(types: &Vec<ColumnType>) -> (r: Vec<ColumnType>)
        ensures
            schema_model(r) == materialized_schema(schema_model(*types)),
    {
        materialize_schema(types)
    }

    /// The position of the first column called `name`.
    pub fn find(types: &Vec<ColumnType>, name: &str) -> (r: Result<usize, JobError>)
        ensures
            match r {
                Ok(i) => i < types.len() && first_named(schema_model(*types), name@) == Some(
                    i as int,
                ),
                Err(e) => e == JobError::UnknownColumn && first_named(
                    schema_model(*types),
                    name@,
                ) is None,
            },
    {
        let ghost schema = schema_model(*types);
        let mut i: usize = 0;
        while i < types.len()
            invariant
                i <= types.len(),
                schema == schema_model(*types),
                forall|j: int| 0 <= j < i ==> (#[trigger] schema[j]).name != Some(name@),
            decreases types.len() - i,
        {
            let hit = match &types[i].name {
                Some(n) => same_text(n.as_str(), name),
                None => false,
            };
            if hit {
                assert(schema[i as int].name == Some(name@));
                return Ok(i);
            }
            i = i + 1;
        }
        Err(JobError::UnknownColumn)
    }
}

/// The position of the first column of `schema` that is called `name`, if
/// there is one.
pub open spec fn first_named(schema: Seq<ColumnModel>, name: Seq<char>) -> Option<int> {
    if exists|i: int| 0 <= i < schema.len() && (#[trigger] schema[i]).name == Some(name) {
        Some(
            choose|i: int|
                0 <= i < schema.len() && (#[trigger] schema[i]).name == Some(name) && forall|j: int|
                    0 <= j < i ==> (#[trigger] schema[j]).name != Some(name),
        )
    } else {
        None
    }
}

impl Clone for ColumnType {
    fn clone(&self) -> (r: Self)
        ensures
            r@ == self@,
        decreases self,
    {
        let name = match &self.name {
            Some(n) => Some(n.clone()),
            None => None,
        };
        ColumnType { name, cell_type: self.cell_type.clone() }
    }
}

/// Draining the streams out of a type that holds none changes nothing:
/// what `materialized` gives is a fixed point of it.
pub proof fn lemma_type_materialized_twice(t: TypeModel)
    ensures
        t.materialized().materialized() == t.materialized(),
    decreases t,
{
    match t {
        TypeModel::Stream(c) => lemma_schema_materialized_twice(c),
        TypeModel::Rows(c) => lemma_schema_materialized_twice(c),
        TypeModel::Row(c) => lemma_schema_materialized_twice(c),
        TypeModel::List(e) => lemma_type_materialized_twice(*e),
        TypeModel::Dict(k, v) => {
            lemma_type_materialized_twice(*k);
            lemma_type_materialized_twice(*v);
        },
        _ => {},
    }
}

/// What `materialized_schema` gives is a fixed point of it.
pub proof fn lemma_schema_materialized_twice(c: Seq<ColumnModel>)
    ensures
        materialized_schema(materialized_schema(c)) == materialized_schema(c),
    decreases c,
{
    let once = materialized_schema(c);
    assert forall|i: int| 0 <= i < c.len() implies #[trigger] materialized_schema(once)[i]
        == once[i] by {
        lemma_type_materialized_twice(c[i].cell_type);
    }
}

/// Whether `i` is the place of the first column of `schema` called `name`.
pub open spec fn is_first_named(schema: Seq<ColumnModel>, name: Seq<char>, i: int) -> bool {
    0 <= i < schema.len() && schema[i].name == Some(name) && forall|j: int|
        0 <= j < i ==> (#[trigger] schema[j]).name != Some(name)
}

proof fn lemma_some_column_is_first(schema: Seq<ColumnModel>, name: Seq<char>, k: int)
    requires
        0 <= k < schema.len(),
        schema[k].name == Some(name),
    ensures
        exists|i: int| 0 <= i <= k && is_first_named(schema, name, i),
    decreases k,
{
    if exists|j: int| 0 <= j < k && (#[trigger] schema[j]).name == Some(name) {
        let j = choose|j: int| 0 <= j < k && (#[trigger] schema[j]).name == Some(name);
        lemma_some_column_is_first(schema, name, j);
    } else {
        assert(is_first_named(schema, name, k));
    }
}

/// What `first_named` finds is the first column of that name: the column at
/// the place found has the name and no column before it has. Where nothing
/// is found, no column has the name.
pub proof fn lemma_first_named(schema: Seq<ColumnModel>, name: Seq<char>)
    ensures
        match first_named(schema, name) {
            Some(i) => is_first_named(schema, name, i),
            None => forall|i: int| 0 <= i < schema.len() ==> (#[trigger] schema[i]).name != Some(name),
        },
{
    if exists|i: int| 0 <= i < schema.len() && (#[trigger] schema[i]).name == Some(name) {
        let k = choose|i: int| 0 <= i < schema.len() && (#[trigger] schema[i]).name == Some(name);
        lemma_some_column_is_first(schema, name, k);
        let i = choose|i: int| 0 <= i <= k && is_first_named(schema, name, i);
        assert(0 <= i < schema.len() && (#[trigger] schema[i]).name == Some(name) && forall|j: int|
            0 <= j < i ==> (#[trigger] schema[j]).name != Some(name));
    }
}

} // verus!
