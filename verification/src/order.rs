//! Equality and order of values.
//!
//! Two values of different types are ordered as their types are. Two values
//! of one type are ordered by what they hold, where that kind of value has
//! an order; commands, closures and streams have none.
//!
//! Equality is per kind, with two exceptions across kinds: a glob equals the
//! texts it matches, and a file equals the texts and files that name the
//! same file. What names the same file is for the file system to say; the
//! library is told by a `Paths`.

use vstd::prelude::*;
use vstd::string::*;
use vstd::utf8::encode_utf8;
use crate::glob::glob_matches;
use crate::text::{
    compare_bytes, compare_text, same_text, text_order, Comparison,
};
use crate::time::{instant_order, int_order};
use crate::types::{lemma_type_order_equal, type_order};
use crate::path_order::{compare_paths, path_order};
use crate::value::{
    cells_model, entries_model, rows_model, texts_model, Row, Value, ValueModel,
};

verus! {

/// What is known of the file system: for each path that names a file, the
/// canonical form of the path. A path that is not listed names no file.
#[derive(Debug)]
pub struct Paths {
    pub known: Vec<(Vec<u8>, Vec<u8>)>,
}

/// What a `Paths` stands for: pairs of a path and its canonical form.
pub type PathsModel = Seq<(Seq<u8>, Seq<u8>)>;

impl View for Paths {
    type V = PathsModel;

    open spec fn view(&self) -> PathsModel {
        Seq::new(self.known.len() as nat, |i: int| (self.known[i].0@, self.known[i].1@))
    }
}

/// The canonical form of `path`, if it names a file: that of the first pair
/// that lists it.
pub open spec fn canonical_from(known: PathsModel, path: Seq<u8>, from: int) -> Option<Seq<u8>>
    decreases known.len() - from,
{
    if from < 0 || from >= known.len() {
        None
    } else if known[from].0 == path {
        Some(known[from].1)
    } else {
        canonical_from(known, path, from + 1)
    }
}

/// Whether two paths name the same file: both name a file, and their
/// canonical forms are the same.
pub open spec fn same_file(known: PathsModel, a: Seq<u8>, b: Seq<u8>) -> bool {
    match (canonical_from(known, a, 0), canonical_from(known, b, 0)) {
        (Some(x), Some(y)) => x == y,
        _ => false,
    }
}

fn same_bytes(a: &[u8], b: &[u8]) -> (r: bool)
    ensures
        r == (a@ == b@),
{
    proof {
        crate::text::lemma_byte_order_equal(a@, b@);
    }
    match compare_bytes(a, b) {
        Comparison::Equal => true,
        _ => false,
    }
}

impl Paths {
    /// A file system of which nothing is known: no path names a file.
    pub fn new() -> (p: Paths)
        ensures
            p@ == Seq::<(Seq<u8>, Seq<u8>)>::empty(),
    {
        let p = Paths { known: Vec::new() };
        p
    }

    /// Notes that `path` names a file whose canonical path is `canonical`.
    /// What was known before stays.
    pub fn add(&mut self, path: Vec<u8>, canonical: Vec<u8>)
        ensures
            final(self)@ == old(self)@.push((path@, canonical@)),
    {
        self.known.push((path, canonical));
    }

    /// The canonical form of `path`, if it names a file.
    pub fn canonical(&self, path: &[u8]) -> (r: Option<&Vec<u8>>)
        ensures
            match r {
                Some(c) => canonical_from(self@, path@, 0) == Some(c@),
                None => canonical_from(self@, path@, 0) is None,
            },
    {
        let mut i: usize = 0;
        while i < self.known.len()
            invariant
                i <= self.known.len(),
                canonical_from(self@, path@, 0) == canonical_from(self@, path@, i as int),
            decreases self.known.len() - i,
        {
            if same_bytes(self.known[i].0.as_slice(), path) {
                return Some(&self.known[i].1);
            }
            i = i + 1;
        }
        None
    }
}

/// Whether two paths name the same file.
pub fn file_result_compare(paths: &Paths, f1: &[u8], f2: &[u8]) -> (r: bool)
    ensures
        r == same_file(paths@, f1@, f2@),
{
    match (paths.canonical(f1), paths.canonical(f2)) {
        (Some(one), Some(other)) => same_bytes(one.as_slice(), other.as_slice()),
        _ => false,
    }
}

/// The order of two fields: part by part from the front, each two parts by
/// their text, a proper prefix before what it is a prefix of.
pub open spec fn parts_order(a: Seq<Seq<char>>, b: Seq<Seq<char>>) -> Comparison
    decreases a.len(),
{
    if a.len() == 0 {
        if b.len() == 0 {
            Comparison::Equal
        } else {
            Comparison::Less
        }
    } else if b.len() == 0 {
        Comparison::Greater
    } else {
        match text_order(a[0], b[0]) {
            Comparison::Equal => parts_order(a.skip(1), b.skip(1)),
            o => o,
        }
    }
}

/// The order of two truth values: false before true.
pub open spec fn bool_order(a: bool, b: bool) -> Comparison {
    if a == b {
        Comparison::Equal
    } else if b {
        Comparison::Less
    } else {
        Comparison::Greater
    }
}

/// The order of two rows of cells: cell by cell from the front, a proper
/// prefix before what it is a prefix of. Where the first two cells that are
/// not equal have no order, the rows have none.
pub open spec fn cells_order(a: Seq<ValueModel>, b: Seq<ValueModel>) -> Option<Comparison>
    decreases a,
{
    if a.len() == 0 {
        if b.len() == 0 {
            Some(Comparison::Equal)
        } else {
            Some(Comparison::Less)
        }
    } else if b.len() == 0 {
        Some(Comparison::Greater)
    } else {
        match value_order(a[0], b[0]) {
            Some(Comparison::Equal) => cells_order(
                a.subrange(1, a.len() as int),
                b.subrange(1, b.len() as int),
            ),
            o => o,
        }
    }
}

/// The order of the rows of two tables: row by row from the front, as
/// `cells_order` orders cells.
pub open spec fn rows_order(a: Seq<Seq<ValueModel>>, b: Seq<Seq<ValueModel>>) -> Option<
    Comparison,
>
    decreases a,
{
    if a.len() == 0 {
        if b.len() == 0 {
            Some(Comparison::Equal)
        } else {
            Some(Comparison::Less)
        }
    } else if b.len() == 0 {
        Some(Comparison::Greater)
    } else {
        match cells_order(a[0], b[0]) {
            Some(Comparison::Equal) => rows_order(
                a.subrange(1, a.len() as int),
                b.subrange(1, b.len() as int),
            ),
            o => o,
        }
    }
}

/// The order of two values, where they have one. Two values of different
/// types are ordered as their types are, whatever they hold.
pub open spec fn value_order(a: ValueModel, b: ValueModel) -> Option<Comparison>
    decreases a,
{
    if a.value_type() != b.value_type() {
        Some(type_order(a.value_type(), b.value_type()))
    } else {
        match (a, b) {
            (ValueModel::Text(x), ValueModel::Text(y)) => Some(text_order(x, y)),
            (ValueModel::Field(x), ValueModel::Field(y)) => Some(parts_order(x, y)),
            (ValueModel::Glob(x), ValueModel::Glob(y)) => Some(text_order(x, y)),
            (ValueModel::Regex(x), ValueModel::Regex(y)) => Some(text_order(x, y)),
            (ValueModel::Integer(x), ValueModel::Integer(y)) => Some(int_order(x, y)),
            (ValueModel::Time(x), ValueModel::Time(y)) => Some(instant_order(x, y)),
            (ValueModel::Op(x), ValueModel::Op(y)) => Some(text_order(x, y)),
            (ValueModel::File(x), ValueModel::File(y)) => Some(path_order(x, y)),
            (ValueModel::Duration(x), ValueModel::Duration(y)) => Some(
                int_order(x as int, y as int),
            ),
            (ValueModel::Rows(x), ValueModel::Rows(y)) => rows_order(x.rows, y.rows),
            (
                ValueModel::Struct { cells: x, .. },
                ValueModel::Struct { cells: y, .. },
            ) => cells_order(x, y),
            (ValueModel::List { cells: x, .. }, ValueModel::List { cells: y, .. }) => cells_order(
                x,
                y,
            ),
            (ValueModel::Bool(x), ValueModel::Bool(y)) => Some(bool_order(x, y)),
            _ => None,
        }
    }
}

/// Whether the cells of two lists are equal, cell by cell.
pub open spec fn cells_equal(a: Seq<ValueModel>, b: Seq<ValueModel>, known: PathsModel) -> bool
    decreases a,
{
    a.len() == b.len() && forall|i: int|
        0 <= i < a.len() ==> value_equal(#[trigger] a[i], b[i], known)
}

/// Whether the pairs of two dictionaries are equal, pair by pair: key to
/// key and what it stands for to what the other stands for.
pub open spec fn entries_equal(
    a: Seq<(ValueModel, ValueModel)>,
    b: Seq<(ValueModel, ValueModel)>,
    known: PathsModel,
) -> bool
    decreases a,
{
    a.len() == b.len() && forall|i: int|
        0 <= i < a.len() ==> value_equal((#[trigger] a[i]).0, b[i].0, known) && value_equal(
            a[i].1,
            b[i].1,
            known,
        )
}

/// Whether two values are equal. `known` says which paths name the same
/// file. Two values of one kind are equal when they hold the same; tables
/// and rows when they are in the order `Equal`; floating-point numbers when
/// their bits are the same. Across kinds, a glob equals the texts that it
/// matches, and a file equals the texts that name the same file. Streams,
/// closures and binary content are equal to nothing.
pub open spec fn value_equal(a: ValueModel, b: ValueModel, known: PathsModel) -> bool
    decreases a,
{
    match (a, b) {
        (ValueModel::Text(x), ValueModel::Text(y)) => x == y,
        (ValueModel::Glob(g), ValueModel::Text(t)) => glob_matches(g, t),
        (ValueModel::Text(t), ValueModel::Glob(g)) => glob_matches(g, t),
        (ValueModel::Integer(x), ValueModel::Integer(y)) => x == y,
        (ValueModel::Time(x), ValueModel::Time(y)) => x.secs == y.secs && x.nanos == y.nanos,
        (ValueModel::Duration(x), ValueModel::Duration(y)) => x == y,
        (ValueModel::Field(x), ValueModel::Field(y)) => x == y,
        (ValueModel::Glob(x), ValueModel::Glob(y)) => x == y,
        (ValueModel::Regex(x), ValueModel::Regex(y)) => x == y,
        (ValueModel::Op(x), ValueModel::Op(y)) => x == y,
        (ValueModel::Command(x), ValueModel::Command(y)) => x == y,
        (
            ValueModel::List { cell_type: s, cells: x },
            ValueModel::List { cell_type: t, cells: y },
        ) => s == t && cells_equal(x, y, known),
        (ValueModel::Rows(_), ValueModel::Rows(_)) => value_order(a, b) == Some(Comparison::Equal),
        (ValueModel::Struct { .. }, ValueModel::Struct { .. }) => value_order(a, b) == Some(
            Comparison::Equal,
        ),
        (ValueModel::File(x), ValueModel::File(y)) => same_file(known, x, y),
        (ValueModel::Text(t), ValueModel::File(f)) => same_file(known, encode_utf8(t), f),
        (ValueModel::File(f), ValueModel::Text(t)) => same_file(known, encode_utf8(t), f),
        (ValueModel::Bool(x), ValueModel::Bool(y)) => x == y,
        (ValueModel::Empty, ValueModel::Empty) => true,
        (ValueModel::Type(x), ValueModel::Type(y)) => x == y,
        (ValueModel::Env(x), ValueModel::Env(y)) => x == y,
        (ValueModel::Float { bits: x, .. }, ValueModel::Float { bits: y, .. }) => x == y,
        (
            ValueModel::Dict { key_type: k1, value_type: v1, entries: x },
            ValueModel::Dict { key_type: k2, value_type: v2, entries: y },
        ) => k1 == k2 && v1 == v2 && entries_equal(x, y, known),
        _ => false,
    }
}

/// Two values of different types are ordered as their types are, whatever
/// the values hold: each of the two can be replaced by any value of its type
/// and the outcome stays.
pub proof fn lemma_order_across_types(
    a: ValueModel,
    b: ValueModel,
    a2: ValueModel,
    b2: ValueModel,
)
    requires
        a.value_type() != b.value_type(),
        a2.value_type() == a.value_type(),
        b2.value_type() == b.value_type(),
    ensures
        value_order(a, b) == Some(type_order(a.value_type(), b.value_type())),
        value_order(a2, b2) == value_order(a, b),
        value_order(a, b) != Some(Comparison::Equal),
{
    lemma_type_order_equal(a.value_type(), b.value_type());
}

fn compare_parts(a: &Vec<String>, b: &Vec<String>) -> (r: Comparison)
    ensures
        r == parts_order(texts_model(*a), texts_model(*b)),
{
    let ghost am = texts_model(*a);
    let ghost bm = texts_model(*b);
    let mut i: usize = 0;
    assert(am.skip(0) =~= am);
    assert(bm.skip(0) =~= bm);
    while i < a.len() && i < b.len()
        invariant
            i <= a.len(),
            i <= b.len(),
            am == texts_model(*a),
            bm == texts_model(*b),
            parts_order(am, bm) == parts_order(am.skip(i as int), bm.skip(i as int)),
        decreases a.len() - i,
    {
        match compare_text(a[i].as_str(), b[i].as_str()) {
            Comparison::Equal => {},
            o => {
                return o;
            },
        }
        assert(am.skip(i as int).skip(1) =~= am.skip(i + 1));
        assert(bm.skip(i as int).skip(1) =~= bm.skip(i + 1));
        i = i + 1;
    }
    if i < b.len() {
        Comparison::Less
    } else if i < a.len() {
        Comparison::Greater
    } else {
        Comparison::Equal
    }
}

fn same_parts(a: &Vec<String>, b: &Vec<String>) -> (r: bool)
    ensures
        r == (texts_model(*a) == texts_model(*b)),
{
    let ghost am = texts_model(*a);
    let ghost bm = texts_model(*b);
    if a.len() != b.len() {
        return false;
    }
    let mut i: usize = 0;
    while i < a.len()
        invariant
            i <= a.len(),
            a.len() == b.len(),
            am == texts_model(*a),
            bm == texts_model(*b),
            forall|j: int| 0 <= j < i ==> am[j] == bm[j],
        decreases a.len() - i,
    {
        if !same_text(a[i].as_str(), b[i].as_str()) {
            assert(am[i as int] != bm[i as int]);
            return false;
        }
        i = i + 1;
    }
    assert(am =~= bm);
    true
}

fn compare_cells(a: &Vec<Value>, b: &Vec<Value>) -> (r: Option<Comparison>)
    ensures
        r == cells_order(cells_model(*a), cells_model(*b)),
    decreases a,
{
    let ghost am = cells_model(*a);
    let ghost bm = cells_model(*b);
    let mut i: usize = 0;
    assert(am.subrange(0, am.len() as int) =~= am);
    assert(bm.subrange(0, bm.len() as int) =~= bm);
    while i < a.len() && i < b.len()
        invariant
            i <= a.len(),
            i <= b.len(),
            am == cells_model(*a),
            bm == cells_model(*b),
            cells_order(am, bm) == cells_order(
                am.subrange(i as int, am.len() as int),
                bm.subrange(i as int, bm.len() as int),
            ),
        decreases a.len() - i,
    {
        let ghost ra = am.subrange(i as int, am.len() as int);
        let ghost rb = bm.subrange(i as int, bm.len() as int);
        match a[i].compare(&b[i]) {
            Some(Comparison::Equal) => {},
            o => {
                return o;
            },
        }
        assert(ra.subrange(1, ra.len() as int) =~= am.subrange(i + 1, am.len() as int));
        assert(rb.subrange(1, rb.len() as int) =~= bm.subrange(i + 1, bm.len() as int));
        i = i + 1;
    }
    if i < b.len() {
        Some(Comparison::Less)
    } else if i < a.len() {
        Some(Comparison::Greater)
    } else {
        Some(Comparison::Equal)
    }
}

fn compare_rows(a: &Vec<Row>, b: &Vec<Row>) -> (r: Option<Comparison>)
    ensures
        r == rows_order(rows_model(*a), rows_model(*b)),
    decreases a,
{
    let ghost am = rows_model(*a);
    let ghost bm = rows_model(*b);
    let mut i: usize = 0;
    assert(am.subrange(0, am.len() as int) =~= am);
    assert(bm.subrange(0, bm.len() as int) =~= bm);
    while i < a.len() && i < b.len()
        invariant
            i <= a.len(),
            i <= b.len(),
            am == rows_model(*a),
            bm == rows_model(*b),
            rows_order(am, bm) == rows_order(
                am.subrange(i as int, am.len() as int),
                bm.subrange(i as int, bm.len() as int),
            ),
        decreases a.len() - i,
    {
        let ghost ra = am.subrange(i as int, am.len() as int);
        let ghost rb = bm.subrange(i as int, bm.len() as int);
        match compare_cells(&a[i].cells, &b[i].cells) {
            Some(Comparison::Equal) => {},
            o => {
                return o;
            },
        }
        assert(ra.subrange(1, ra.len() as int) =~= am.subrange(i + 1, am.len() as int));
        assert(rb.subrange(1, rb.len() as int) =~= bm.subrange(i + 1, bm.len() as int));
        i = i + 1;
    }
    if i < b.len() {
        Some(Comparison::Less)
    } else if i < a.len() {
        Some(Comparison::Greater)
    } else {
        Some(Comparison::Equal)
    }
}

fn equal_cells(a: &Vec<Value>, b: &Vec<Value>, paths: &Paths) -> (r: bool)
    ensures
        r == cells_equal(cells_model(*a), cells_model(*b), paths@),
    decreases a,
{
    let ghost am = cells_model(*a);
    let ghost bm = cells_model(*b);
    if a.len() != b.len() {
        return false;
    }
    let mut i: usize = 0;
    while i < a.len()
        invariant
            i <= a.len(),
            a.len() == b.len(),
            am == cells_model(*a),
            bm == cells_model(*b),
            forall|j: int| 0 <= j < i ==> value_equal(#[trigger] am[j], bm[j], paths@),
        decreases a.len() - i,
    {
        if !a[i].eq(&b[i], paths) {
            assert(!value_equal(am[i as int], bm[i as int], paths@));
            return false;
        }
        i = i + 1;
    }
    true
}

fn equal_entries(a: &Vec<(Value, Value)>, b: &Vec<(Value, Value)>, paths: &Paths) -> (r: bool)
    ensures
        r == entries_equal(entries_model(*a), entries_model(*b), paths@),
    decreases a,
{
    let ghost am = entries_model(*a);
    let ghost bm = entries_model(*b);
    if a.len() != b.len() {
        return false;
    }
    let mut i: usize = 0;
    while i < a.len()
        invariant
            i <= a.len(),
            a.len() == b.len(),
            am == entries_model(*a),
            bm == entries_model(*b),
            forall|j: int|
                0 <= j < i ==> value_equal((#[trigger] am[j]).0, bm[j].0, paths@) && value_equal(
                    am[j].1,
                    bm[j].1,
                    paths@,
                ),
        decreases a.len() - i,
    {
        if !a[i].0.eq(&b[i].0, paths) || !a[i].1.eq(&b[i].1, paths) {
            assert(!(value_equal(am[i as int].0, bm[i as int].0, paths@) && value_equal(
                am[i as int].1,
                bm[i as int].1,
                paths@,
            )));
            return false;
        }
        i = i + 1;
    }
    true
}

impl Value {
    /// Compares two values. Gives nothing where they have no order.
    pub fn compare(&self, other: &Value) -> (r: Option<Comparison>)
        ensures
            r == value_order(self@, other@),
        decreases self,
    {
        let t1 = self.value_type();
        let t2 = other.value_type();
        if !t1.same(&t2) {
            return Some(t1.compare(&t2));
        }
        match (self, other) {
            (Value::Text(val1), Value::Text(val2)) => Some(
                compare_text(val1.as_str(), val2.as_str()),
            ),
            (Value::Field(val1), Value::Field(val2)) => Some(compare_parts(val1, val2)),
            (Value::Glob(val1), Value::Glob(val2)) => Some(
                compare_text(val1.original.as_str(), val2.original.as_str()),
            ),
            (Value::Regex(val1, _), Value::Regex(val2, _)) => Some(
                compare_text(val1.as_str(), val2.as_str()),
            ),
            (Value::Integer(val1), Value::Integer(val2)) => Some(
                if *val1 < *val2 {
                    Comparison::Less
                } else if *val1 > *val2 {
                    Comparison::Greater
                } else {
                    Comparison::Equal
                },
            ),
            (Value::Time(val1), Value::Time(val2)) => Some(val1.compare(val2)),
            (Value::Op(val1), Value::Op(val2)) => Some(compare_text(val1.as_str(), val2.as_str())),
            (Value::File(val1), Value::File(val2)) => Some(
                compare_paths(val1.bytes.as_slice(), val2.bytes.as_slice()),
            ),
            (Value::Duration(val1), Value::Duration(val2)) => Some(val1.compare(val2)),
            (Value::Rows(val1), Value::Rows(val2)) => compare_rows(&val1.rows, &val2.rows),
            (Value::Struct(val1), Value::Struct(val2)) => compare_cells(&val1.cells, &val2.cells),
            (Value::List(val1), Value::List(val2)) => compare_cells(&val1.cells, &val2.cells),
            (Value::Bool(val1), Value::Bool(val2)) => Some(
                if *val1 == *val2 {
                    Comparison::Equal
                } else if *val2 {
                    Comparison::Less
                } else {
                    Comparison::Greater
                },
            ),
            _ => None,
        }
    }

    /// Whether two values are equal, given which paths name the same file.
    pub fn eq(&self, other: &Value, paths: &Paths) -> (r: bool)
        ensures
            r == value_equal(self@, other@, paths@),
        decreases self,
    {
        match (self, other) {
            (Value::Text(val1), Value::Text(val2)) => same_text(val1.as_str(), val2.as_str()),
            (Value::Glob(glb), Value::Text(val)) => glb.matches(val.as_str()),
            (Value::Text(val), Value::Glob(glb)) => glb.matches(val.as_str()),
            (Value::Integer(val1), Value::Integer(val2)) => *val1 == *val2,
            (Value::Time(val1), Value::Time(val2)) => match val1.compare(val2) {
                Comparison::Equal => true,
                _ => false,
            },
            (Value::Duration(val1), Value::Duration(val2)) => match val1.compare(val2) {
                Comparison::Equal => true,
                _ => false,
            },
            (Value::Field(val1), Value::Field(val2)) => same_parts(val1, val2),
            (Value::Glob(val1), Value::Glob(val2)) => same_text(
                val1.original.as_str(),
                val2.original.as_str(),
            ),
            (Value::Regex(val1, _), Value::Regex(val2, _)) => same_text(
                val1.as_str(),
                val2.as_str(),
            ),
            (Value::Op(val1), Value::Op(val2)) => same_text(val1.as_str(), val2.as_str()),
            (Value::Command(val1), Value::Command(val2)) => same_text(
                val1.name.as_str(),
                val2.name.as_str(),
            ),
            (Value::List(val1), Value::List(val2)) => val1.cell_type.same(&val2.cell_type)
                && equal_cells(&val1.cells, &val2.cells, paths),
            (Value::Rows(_), Value::Rows(_)) => match self.compare(other) {
                None => false,
                Some(o) => match o {
                    Comparison::Equal => true,
                    _ => false,
                },
            },
            (Value::Struct(_), Value::Struct(_)) => match self.compare(other) {
                None => false,
                Some(o) => match o {
                    Comparison::Equal => true,
                    _ => false,
                },
            },
            (Value::File(val1), Value::File(val2)) => file_result_compare(
                paths,
                val1.bytes.as_slice(),
                val2.bytes.as_slice(),
            ),
            (Value::Text(val1), Value::File(val2)) => file_result_compare(
                paths,
                val1.as_str().as_bytes(),
                val2.bytes.as_slice(),
            ),
            (Value::File(val1), Value::Text(val2)) => file_result_compare(
                paths,
                val2.as_str().as_bytes(),
                val1.bytes.as_slice(),
            ),
            (Value::Bool(val1), Value::Bool(val2)) => *val1 == *val2,
            (Value::Empty, Value::Empty) => true,
            (Value::Type(val1), Value::Type(val2)) => val1.same(val2),
            (Value::Env(val1), Value::Env(val2)) => same_text(
                val1.description.as_str(),
                val2.description.as_str(),
            ),
            (Value::Float(val1), Value::Float(val2)) => val1.bits == val2.bits,
            (Value::Dict(val1), Value::Dict(val2)) => val1.key_type.same(&val2.key_type)
                && val1.value_type.same(&val2.value_type) && equal_entries(
                &val1.entries,
                &val2.entries,
                paths,
            ),
            _ => false,
        }
    }
}

} // verus!
