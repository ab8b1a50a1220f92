//! Hashing of values.
//!
//! A value is hashed by feeding bytes to a hasher, write by write. Only the
//! kinds of `TypeModel::is_hashable` may be hashed.
//!
//! Values that are equal hash alike. A glob equals every text that it
//! matches and a file equals every text that names it, so texts, globs and
//! files all feed the hasher the same: nothing.

use std::collections::hash_map::DefaultHasher;
use std::hash::Hasher;
use vstd::prelude::*;
use vstd::std_specs::hash::DefaultHasherAdditionalSpecFns;
use vstd::string::*;
use vstd::utf8::encode_utf8;
use crate::glob::lemma_matches_itself_from;
use crate::order::{cells_equal, value_equal, PathsModel};
use crate::type_syntax::type_text;
use crate::value::{cells_model, texts_model, Value, ValueModel};

verus! {

/// The `n` low bytes of `x`, the lowest first.
pub open spec fn le_bytes(x: nat, n: nat) -> Seq<u8>
    decreases n,
{
    if n == 0 {
        Seq::empty()
    } else {
        seq![(x % 256) as u8] + le_bytes(x / 256, (n - 1) as nat)
    }
}

/// The number that stands for `i` in two's complement of 128 bits.
pub open spec fn twos_complement(i: int) -> nat {
    if i >= 0 {
        i as nat
    } else {
        (i + 0x1_0000_0000_0000_0000_0000_0000_0000_0000) as nat
    }
}

/// The bytes of each part of a field, part by part.
pub open spec fn parts_writes(parts: Seq<Seq<char>>) -> Seq<Seq<u8>> {
    Seq::new(parts.len(), |i: int| encode_utf8(parts[i]))
}

/// What hashing a value feeds to the hasher, write by write. A text, a
/// glob, a file, a command and the empty value feed nothing.
pub open spec fn hash_writes(v: ValueModel) -> Seq<Seq<u8>> {
    match v {
        ValueModel::Integer(i) => seq![le_bytes(twos_complement(i), 16)],
        ValueModel::Time(t) => seq![le_bytes(twos_complement(t.secs), 16), le_bytes(t.nanos as nat, 4)],
        ValueModel::Field(parts) => seq![le_bytes(parts.len(), 8)] + parts_writes(parts),
        ValueModel::Regex(s) => seq![encode_utf8(s)],
        ValueModel::Op(s) => seq![encode_utf8(s)],
        ValueModel::Duration(d) => seq![
            le_bytes(d / 1_000_000_000, 8),
            le_bytes(d % 1_000_000_000, 4),
        ],
        ValueModel::Bool(b) => seq![seq![if b {
            1u8
        } else {
            0u8
        }]],
        ValueModel::Type(t) => seq![encode_utf8(type_text(t))],
        _ => Seq::empty(),
    }
}

/// What hashing the cells of a row feeds to the hasher: what each cell
/// feeds, cell by cell.
pub open spec fn row_writes(cells: Seq<ValueModel>) -> Seq<Seq<u8>>
    decreases cells.len(),
{
    if cells.len() == 0 {
        Seq::empty()
    } else {
        row_writes(cells.drop_last()) + hash_writes(cells.last())
    }
}

/// Whether every one of `cells` may be hashed.
pub open spec fn all_hashable(cells: Seq<ValueModel>) -> bool {
    forall|i: int| 0 <= i < cells.len() ==> (#[trigger] cells[i]).value_type().is_hashable()
}

/// Two values that are equal feed the same bytes to the hasher, and so hash
/// alike. This holds of a glob and a text that it matches, and of a file and
/// a text or file that names the same file, as of any other two.
pub proof fn lemma_equal_values_hash_alike(a: ValueModel, b: ValueModel, known: PathsModel)
    requires
        a.value_type().is_hashable(),
        b.value_type().is_hashable(),
        value_equal(a, b, known),
    ensures
        hash_writes(a) == hash_writes(b),
        DefaultHasher::spec_finish(hash_writes(a)) == DefaultHasher::spec_finish(hash_writes(b)),
{
}

/// Two rows whose cells are equal, cell by cell, feed the same bytes to the
/// hasher, and so hash alike.
pub proof fn lemma_equal_rows_hash_alike(
    a: Seq<ValueModel>,
    b: Seq<ValueModel>,
    known: PathsModel,
)
    requires
        all_hashable(a),
        all_hashable(b),
        cells_equal(a, b, known),
    ensures
        row_writes(a) == row_writes(b),
        DefaultHasher::spec_finish(row_writes(a)) == DefaultHasher::spec_finish(row_writes(b)),
    decreases a.len(),
{
    if a.len() > 0 {
        let front_a = a.drop_last();
        let front_b = b.drop_last();
        assert forall|i: int| 0 <= i < front_a.len() implies value_equal(
            #[trigger] front_a[i],
            front_b[i],
            known,
        ) by {
            assert(value_equal(a[i], b[i], known));
        }
        assert(all_hashable(front_a)) by {
            assert forall|i: int| 0 <= i < front_a.len() implies (
            #[trigger] front_a[i]).value_type().is_hashable() by {
                assert(a[i].value_type().is_hashable());
            }
        }
        assert(all_hashable(front_b)) by {
            assert forall|i: int| 0 <= i < front_b.len() implies (
            #[trigger] front_b[i]).value_type().is_hashable() by {
                assert(b[i].value_type().is_hashable());
            }
        }
        lemma_equal_rows_hash_alike(front_a, front_b, known);
        assert(value_equal(a[a.len() - 1], b[a.len() - 1], known));
        lemma_equal_values_hash_alike(a.last(), b.last(), known);
    }
}

/// A glob equals the text that spells its pattern.
pub proof fn lemma_glob_equals_its_pattern(p: Seq<char>, known: PathsModel)
    ensures
        value_equal(ValueModel::Glob(p), ValueModel::Text(p), known),
        value_equal(ValueModel::Text(p), ValueModel::Glob(p), known),
{
    lemma_matches_itself_from(p, 0);
}

fn le_bytes_of(x: u128, n: u8) -> (r: Vec<u8>)
    ensures
        r@ == le_bytes(x as nat, n as nat),
{
    let mut out: Vec<u8> = Vec::new();
    let mut rest: u128 = x;
    let mut i: u8 = 0;
    while i < n
        invariant
            i <= n,
            out@ + le_bytes(rest as nat, (n - i) as nat) == le_bytes(x as nat, n as nat),
        decreases n - i,
    {
        out.push((rest % 256) as u8);
        rest = rest / 256;
        i = i + 1;
    }
    out
}

fn unsigned(i: i128) -> (r: u128)
    ensures
        r == twos_complement(i as int),
{
    if i >= 0 {
        i as u128
    } else {
        u128::MAX - ((-(i + 1)) as u128)
    }
}

impl Value {
    /// Whether the value may be hashed.
    pub fn is_hashable(&self) -> (r: bool)
        ensures
            r == self@.value_type().is_hashable(),
    {
        match self {
            Value::Text(_) => true,
            Value::Integer(_) => true,
            Value::Time(_) => true,
            Value::Duration(_) => true,
            Value::Field(_) => true,
            Value::Glob(_) => true,
            Value::Regex(_, _) => true,
            Value::Op(_) => true,
            Value::Command(_) => true,
            Value::File(_) => true,
            Value::Bool(_) => true,
            Value::Empty => true,
            Value::Type(_) => true,
            _ => false,
        }
    }

    /// Feeds the value to a hasher.
    pub fn hash(&self, state: &mut DefaultHasher)
        requires
            self@.value_type().is_hashable(),
        ensures
            final(state)@ == old(state)@ + hash_writes(self@),
    {
        match self {
            Value::Text(_) => {},
            Value::Glob(_) => {},
            Value::File(_) => {},
            Value::Integer(v) => {
                let bytes = le_bytes_of(unsigned(*v), 16);
                state.write(bytes.as_slice());
            },
            Value::Time(v) => {
                let secs = le_bytes_of(unsigned(v.timestamp() as i128), 16);
                state.write(secs.as_slice());
                let nanos = le_bytes_of(v.subsec_nanos() as u128, 4);
                state.write(nanos.as_slice());
            },
            Value::Field(v) => {
                let count = le_bytes_of(v.len() as u128, 8);
                state.write(count.as_slice());
                let ghost parts = texts_model(*v);
                let mut i: usize = 0;
                while i < v.len()
                    invariant
                        i <= v.len(),
                        parts == texts_model(*v),
                        state@ == old(state)@ + seq![le_bytes(parts.len(), 8)] + parts_writes(
                            parts,
                        ).subrange(0, i as int),
                    decreases v.len() - i,
                {
                    state.write(v[i].as_str().as_bytes());
                    i = i + 1;
                }
            },
            Value::Regex(v, _) => {
                state.write(v.as_str().as_bytes());
            },
            Value::Op(v) => {
                state.write(v.as_str().as_bytes());
            },
            Value::Command(_) => {},
            Value::Duration(d) => {
                let secs = le_bytes_of(d.as_secs() as u128, 8);
                state.write(secs.as_slice());
                let nanos = le_bytes_of(d.subsec_nanos() as u128, 4);
                state.write(nanos.as_slice());
            },
            Value::Bool(v) => {
                let mut bytes: Vec<u8> = Vec::new();
                bytes.push(if *v {
                    1u8
                } else {
                    0u8
                });
                state.write(bytes.as_slice());
            },
            Value::Empty => {},
            Value::Type(v) => {
                let s = v.to_string();
                state.write(s.as_str().as_bytes());
            },
            _ => {},
        }
    }
}

/// Feeds the cells of a row to a hasher, cell by cell.
pub fn hash_cells(cells: &Vec<Value>, state: &mut DefaultHasher)
    requires
        all_hashable(cells_model(*cells)),
    ensures
        final(state)@ == old(state)@ + row_writes(cells_model(*cells)),
{
    let ghost model = cells_model(*cells);
    let mut i: usize = 0;
    while i < cells.len()
        invariant
            i <= cells.len(),
            model == cells_model(*cells),
            all_hashable(model),
            state@ == old(state)@ + row_writes(model.subrange(0, i as int)),
        decreases cells.len() - i,
    {
        let ghost next = model.subrange(0, i + 1);
        assert(next.drop_last() =~= model.subrange(0, i as int));
        assert(model[i as int].value_type().is_hashable());
        cells[i].hash(state);
        i = i + 1;
    }
    assert(model.subrange(0, cells.len() as int) =~= model);
}

/// The hash of a value under the standard hasher, started afresh: what the
/// hasher makes of the bytes that the value feeds it.
pub fn hash_of(value: &Value) -> (h: u64)
    requires
        value@.value_type().is_hashable(),
    ensures
        h == DefaultHasher::spec_finish(hash_writes(value@)),
{
    let mut state = DefaultHasher::new();
    value.hash(&mut state);
    state.finish()
}

} // verus!
