//! The operator that drops the rows whose key has been seen before.
//!
//! The key of a row is the row itself, or the cell of one column. A key has
//! been seen when a key that was kept before it is equal to it. The rows
//! that remain come out in the order in which they came in.
//!
//! Keys are kept with their hashes: equal keys hash alike, so a key whose
//! hash differs need not be compared.

use std::collections::hash_map::DefaultHasher;
use std::hash::Hasher;
use vstd::prelude::*;
use vstd::std_specs::hash::DefaultHasherAdditionalSpecFns;
use vstd::string::*;
use crate::errors::JobError;
use crate::hash::{all_hashable, hash_cells, lemma_equal_rows_hash_alike, row_writes};
use crate::order::{cells_equal, value_equal, Paths, PathsModel};
use crate::stream::{
    lemma_after_after, Argument, ExecutionContext, Finished, OutputModel, OutputStream, Printer,
};
use crate::types::{first_named, schema_model, ColumnModel, ColumnType};
use crate::value::{
    cells_model, clone_cells, clone_columns, ReadOutcome, Row, Stream, Value, ValueModel,
};

verus! {

/// The key of a row: the cell of the selected column, or the whole row
/// where no column is selected.
pub open spec fn key_of(row: Seq<ValueModel>, idx: Option<int>) -> Seq<ValueModel> {
    match idx {
        Some(i) => seq![row[i]],
        None => row,
    }
}

/// The hash of a key.
pub open spec fn key_hash(key: Seq<ValueModel>) -> u64 {
    DefaultHasher::spec_finish(row_writes(key))
}

/// Whether two keys count as one: they are equal, cell by cell.
pub open spec fn same_key(a: Seq<ValueModel>, b: Seq<ValueModel>, known: PathsModel) -> bool {
    cells_equal(a, b, known)
}

/// Whether `key` counts as one of the keys of `seen`.
pub open spec fn is_known(seen: Seq<Seq<ValueModel>>, key: Seq<ValueModel>, known: PathsModel) -> bool {
    exists|j: int| 0 <= j < seen.len() && same_key(#[trigger] seen[j], key, known)
}

/// The keys that have been seen when `rows` have gone by: each key that did
/// not count as one that was seen before it, in the order of the rows.
pub open spec fn seen_after(rows: Seq<Seq<ValueModel>>, idx: Option<int>, known: PathsModel) -> Seq<
    Seq<ValueModel>,
>
    decreases rows.len(),
{
    if rows.len() == 0 {
        Seq::empty()
    } else {
        let before = seen_after(rows.drop_last(), idx, known);
        let key = key_of(rows.last(), idx);
        if is_known(before, key, known) {
            before
        } else {
            before.push(key)
        }
    }
}

/// The rows of `rows` that remain: each row whose key had not been seen when
/// it came, in the order in which the rows came.
pub open spec fn distinct(rows: Seq<Seq<ValueModel>>, idx: Option<int>, known: PathsModel) -> Seq<
    Seq<ValueModel>,
>
    decreases rows.len(),
{
    if rows.len() == 0 {
        Seq::empty()
    } else {
        let before = distinct(rows.drop_last(), idx, known);
        let key = key_of(rows.last(), idx);
        if is_known(seen_after(rows.drop_last(), idx, known), key, known) {
            before
        } else {
            before.push(rows.last())
        }
    }
}

/// Whether the row has the selected cell.
pub open spec fn has_key(row: Seq<ValueModel>, idx: Option<int>) -> bool {
    match idx {
        Some(i) => 0 <= i < row.len(),
        None => true,
    }
}

/// Whether the row has a key and the key may be hashed.
pub open spec fn usable(row: Seq<ValueModel>, idx: Option<int>) -> bool {
    has_key(row, idx) && all_hashable(key_of(row, idx))
}

/// The position from `from` on of the first row that is not usable, or the
/// number of rows where every row from there on is usable.
pub open spec fn first_unusable(rows: Seq<Seq<ValueModel>>, idx: Option<int>, from: int) -> int
    decreases rows.len() - from,
{
    if from < 0 || from >= rows.len() {
        rows.len() as int
    } else if !usable(rows[from], idx) {
        from
    } else {
        first_unusable(rows, idx, from + 1)
    }
}

/// `n` times the failure of a send.
pub open spec fn send_failures(n: int) -> Seq<JobError> {
    Seq::new(
        if n >= 0 {
            n as nat
        } else {
            0
        },
        |i: int| JobError::OutputClosed,
    )
}

/// The selected column as a model.
pub open spec fn selected(idx: Option<usize>) -> Option<int> {
    match idx {
        Some(i) => Some(i as int),
        None => None,
    }
}

/// The column that the arguments select. No argument selects none; one
/// argument must be a field of one part that names a column; more than one
/// argument is a mistake.
pub open spec fn selected_column(
    schema: Seq<ColumnModel>,
    arguments: Seq<ValueModel>,
) -> Result<Option<int>, JobError> {
    if arguments.len() > 1 {
        Err(JobError::TooManyArguments)
    } else if arguments.len() == 0 {
        Ok(None)
    } else {
        match arguments[0] {
            ValueModel::Field(parts) => if parts.len() == 1 {
                match first_named(schema, parts[0]) {
                    Some(i) => Ok(Some(i)),
                    None => Err(JobError::UnknownColumn),
                }
            } else {
                Err(JobError::ExpectedField)
            },
            _ => Err(JobError::ExpectedField),
        }
    }
}

/// The values of the arguments, argument by argument.
pub open spec fn argument_values(arguments: Vec<Argument>) -> Seq<ValueModel> {
    Seq::new(arguments.len() as nat, |i: int| arguments[i].value@)
}

/// Finds the column that the arguments select.
pub fn parse(input_type: &Vec<ColumnType>, arguments: Vec<Argument>) -> (r: Result<
    Option<usize>,
    JobError,
>)
    ensures
        match r {
            Ok(idx) => selected_column(schema_model(*input_type), argument_values(arguments))
                == Ok::<Option<int>, JobError>(selected(idx)) && (idx matches Some(i) ==> i
                < input_type.len()),
            Err(e) => selected_column(schema_model(*input_type), argument_values(arguments))
                == Err::<Option<int>, JobError>(e),
        },
{
    if arguments.len() > 1 {
        return Err(JobError::TooManyArguments);
    }
    if arguments.len() == 0 {
        return Ok(None);
    }
    assert(argument_values(arguments)[0] == arguments[0].value@);
    match &arguments[0].value {
        Value::Field(parts) => {
            if parts.len() != 1 {
                return Err(JobError::ExpectedField);
            }
            match ColumnType::find(input_type, parts[0].as_str()) {
                Ok(i) => Ok(Some(i)),
                Err(e) => Err(e),
            }
        },
        _ => Err(JobError::ExpectedField),
    }
}

/// The keys that have been seen, each with its hash.
#[derive(Debug)]
pub struct Seen {
    keys: Vec<(u64, Vec<Value>)>,
}

impl View for Seen {
    type V = Seq<Seq<ValueModel>>;

    /// The keys, in the order in which they were seen.
    closed spec fn view(&self) -> Seq<Seq<ValueModel>> {
        Seq::new(self.keys.len() as nat, |i: int| cells_model(self.keys[i].1))
    }
}

impl Seen {
    /// Whether each key may be hashed and is kept with its own hash.
    pub closed spec fn well_formed(self) -> bool {
        forall|i: int|
            0 <= i < self.keys.len() ==> (#[trigger] self.keys[i]).0 == key_hash(
                cells_model(self.keys[i].1),
            ) && all_hashable(cells_model(self.keys[i].1))
    }

    /// No key has been seen.
    pub fn new() -> (seen: Seen)
        ensures
            seen.well_formed(),
            seen@ == Seq::<Seq<ValueModel>>::empty(),
    {
        let seen = Seen { keys: Vec::new() };
        seen
    }

    fn contains(&self, hash: u64, key: &Vec<Value>, paths: &Paths) -> (r: bool)
        requires
            self.well_formed(),
            all_hashable(cells_model(*key)),
            hash == key_hash(cells_model(*key)),
        ensures
            r == is_known(self@, cells_model(*key), paths@),
    {
        let mut i: usize = 0;
        while i < self.keys.len()
            invariant
                i <= self.keys.len(),
                self.well_formed(),
                all_hashable(cells_model(*key)),
                hash == key_hash(cells_model(*key)),
                forall|j: int| 0 <= j < i ==> !same_key(#[trigger] self@[j], cells_model(*key), paths@),
            decreases self.keys.len() - i,
        {
            assert(self@[i as int] == cells_model(self.keys[i as int].1));
            if self.keys[i].0 == hash {
                if equal_keys(&self.keys[i].1, key, paths) {
                    return true;
                }
            } else {
                proof {
                    // Equal keys hash alike, so these two are not equal.
                    if cells_equal(self@[i as int], cells_model(*key), paths@) {
                        lemma_equal_rows_hash_alike(self@[i as int], cells_model(*key), paths@);
                    }
                }
            }
            i = i + 1;
        }
        false
    }

    /// Takes note of the key of `row` and says whether the key is new, that
    /// is, whether the row is to be sent on. Nothing is noted, and the call
    /// fails, where the row lacks the selected cell or its key may not be
    /// hashed.
    pub fn note(&mut self, row: &Row, idx: Option<usize>, paths: &Paths) -> (r: Result<
        bool,
        JobError,
    >)
        requires
            old(self).well_formed(),
        ensures
            final(self).well_formed(),
            match r {
                Ok(fresh) => {
                    let key = key_of(row@, selected(idx));
                    &&& usable(row@, selected(idx))
                    &&& fresh == !is_known(old(self)@, key, paths@)
                    &&& final(self)@ == if fresh {
                        old(self)@.push(key)
                    } else {
                        old(self)@
                    }
                },
                Err(e) => !usable(row@, selected(idx)) && final(self)@ == old(self)@ && e == if has_key(
                    row@,
                    selected(idx),
                ) {
                    JobError::NotHashable
                } else {
                    JobError::UnknownColumn
                },
            },
    {
        let key = match copy_key(row, idx) {
            Ok(key) => key,
            Err(e) => {
                return Err(e);
            },
        };
        let mut state = DefaultHasher::new();
        hash_cells(&key, &mut state);
        let hash: u64 = state.finish();
        if self.contains(hash, &key, paths) {
            return Ok(false);
        }
        let ghost keys = self@;
        self.keys.push((hash, key));
        Ok(true)
    }
}

fn equal_keys(a: &Vec<Value>, b: &Vec<Value>, paths: &Paths) -> (r: bool)
    ensures
        r == cells_equal(cells_model(*a), cells_model(*b), paths@),
{
    let ghost am = cells_model(*a);
    let ghost bm = cells_model(*b);
    if a.len() != b.len() {
        return false;
    }
    let mut i: usize = 0;
    while i < a.len()
        invariant
            i <= a.len(),
            a.len() == b.len(),
            am == cells_model(*a),
            bm == cells_model(*b),
            forall|j: int| 0 <= j < i ==> value_equal(#[trigger] am[j], bm[j], paths@),
        decreases a.len() - i,
    {
        if !a[i].eq(&b[i], paths) {
            assert(!value_equal(am[i as int], bm[i as int], paths@));
            return false;
        }
        i = i + 1;
    }
    true
}

fn all_cells_hashable(cells: &Vec<Value>) -> (r: bool)
    ensures
        r == all_hashable(cells_model(*cells)),
{
    let ghost model = cells_model(*cells);
    let mut i: usize = 0;
    while i < cells.len()
        invariant
            i <= cells.len(),
            model == cells_model(*cells),
            forall|j: int| 0 <= j < i ==> (#[trigger] model[j]).value_type().is_hashable(),
        decreases cells.len() - i,
    {
        if !cells[i].is_hashable() {
            assert(!model[i as int].value_type().is_hashable());
            return false;
        }
        i = i + 1;
    }
    true
}

/// A value that may be hashed holds no stream.
pub proof fn lemma_hashable_holds_no_stream(cells: Seq<ValueModel>)
    requires
        all_hashable(cells),
    ensures
        !crate::value::any_holds_stream(cells),
{
    assert forall|i: int| 0 <= i < cells.len() implies !(#[trigger] cells[i]).holds_stream() by {}
}

/// The key of a row, copied out of it, where the row has a key that may be
/// hashed.
fn copy_key(row: &Row, idx: Option<usize>) -> (r: Result<Vec<Value>, JobError>)
    ensures
        match r {
            Ok(key) => usable(row@, selected(idx)) && cells_model(key) == key_of(
                row@,
                selected(idx),
            ),
            Err(e) => !usable(row@, selected(idx)) && e == if has_key(row@, selected(idx)) {
                JobError::NotHashable
            } else {
                JobError::UnknownColumn
            },
        },
{
    match idx {
        None => {
            if !all_cells_hashable(&row.cells) {
                return Err(JobError::NotHashable);
            }
            proof {
                lemma_hashable_holds_no_stream(row@);
            }
            clone_cells(&row.cells)
        },
        Some(i) => {
            if i >= row.cells.len() {
                return Err(JobError::UnknownColumn);
            }
            if !row.cells[i].is_hashable() {
                assert(!key_of(row@, selected(idx))[0].value_type().is_hashable());
                return Err(JobError::NotHashable);
            }
            match row.cells[i].partial_clone() {
                Ok(v) => {
                    let mut key: Vec<Value> = Vec::new();
                    key.push(v);
                    Ok(key)
                },
                Err(e) => Err(JobError::NotHashable),
            }
        },
    }
}

/// Reads `input` to its end and sends on each row whose key has not been
/// seen before, in the order in which the rows come. A send that fails is
/// reported to `printer` and the work goes on. The work stops with a failure
/// at the first row that lacks the selected cell or whose key may not be
/// hashed.
pub fn run(
    idx: Option<usize>,
    input: &mut Stream,
    output: &mut OutputStream,
    printer: &mut Printer,
    paths: &Paths,
) -> (r: Result<(), JobError>)
    ensures
        ({
            let rows = old(input)@.rows;
            let stop = first_unusable(rows, selected(idx), 0);
            let offered = distinct(rows.subrange(0, stop), selected(idx), paths@);
            &&& final(output)@ == old(output)@.after(offered)
            &&& final(printer).errors@ == old(printer).errors@ + send_failures(
                offered.len() - old(output)@.takes(offered.len()),
            )
            &&& final(printer).lines == old(printer).lines
            &&& match r {
                Ok(_) => stop == rows.len() && final(input)@.rows.len() == 0,
                Err(e) => stop < rows.len() && final(input)@.rows == rows.subrange(
                    stop + 1,
                    rows.len() as int,
                ) && e == if has_key(rows[stop], selected(idx)) {
                    JobError::NotHashable
                } else {
                    JobError::UnknownColumn
                },
            }
        }),
{
    let ghost rows = input@.rows;
    let ghost col = selected(idx);
    let ghost known = paths@;
    let ghost out0 = output@;
    let ghost errors0 = printer.errors@;
    let mut seen = Seen::new();
    let ghost mut n: int = 0;
    loop
        invariant
            rows == old(input)@.rows,
            col == selected(idx),
            known == paths@,
            out0 == old(output)@,
            errors0 == old(printer).errors@,
            printer.lines == old(printer).lines,
            0 <= n <= rows.len(),
            input@.rows == rows.subrange(n, rows.len() as int),
            first_unusable(rows, col, 0) == first_unusable(rows, col, n),
            seen.well_formed(),
            seen@ == seen_after(rows.subrange(0, n), col, known),
            output@ == out0.after(distinct(rows.subrange(0, n), col, known)),
            printer.errors@ == errors0 + send_failures(
                distinct(rows.subrange(0, n), col, known).len() - out0.takes(
                    distinct(rows.subrange(0, n), col, known).len(),
                ),
            ),
        decreases rows.len() - n,
    {
        let row = match input.read() {
            ReadOutcome::Row(row) => row,
            _ => {
                return Ok(());
            },
        };
        let ghost before = rows.subrange(0, n);
        let ghost next = rows.subrange(0, n + 1);
        let ghost sent = distinct(before, col, known);
        proof {
            assert(next.drop_last() =~= before);
        }
        let fresh = match seen.note(&row, idx, paths) {
            Ok(fresh) => fresh,
            Err(e) => {
                return Err(e);
            },
        };
        if fresh {
            let result = output.send(row);
            printer.handle_error(result);
            proof {
                assert(sent.push(rows[n]) =~= sent + seq![rows[n]]);
                lemma_after_after(out0, sent, seq![rows[n]]);
            }
        }
        proof {
            n = n + 1;
        }
    }
}

/// Drops the rows of the input whose key has been seen before. The input
/// must be a stream; the arguments select the column that is the key, or
/// none for the whole row; the schema of the output is that of the input.
pub fn uniq(context: ExecutionContext, paths: &Paths) -> (done: Finished)
    ensures
        done.printer.lines == context.printer.lines,
        match context.input {
            Value::Stream(input) => match selected_column(
                input@.types,
                argument_values(context.arguments),
            ) {
                Ok(col) => if context.output.connected {
                    let rows = input@.rows;
                    let stop = first_unusable(rows, col, 0);
                    let offered = distinct(rows.subrange(0, stop), col, paths@);
                    let start = OutputModel {
                        types: input@.types,
                        rows: Seq::empty(),
                        room: match context.output.room {
                            Some(n) => Some(n as nat),
                            None => None,
                        },
                    };
                    &&& done.output matches Some(o) && o@ == start.after(offered)
                    &&& done.printer.errors@ == context.printer.errors@ + send_failures(
                        offered.len() - start.takes(offered.len()),
                    )
                    &&& match done.result {
                        Ok(_) => stop == rows.len(),
                        Err(e) => stop < rows.len() && e == if has_key(rows[stop], col) {
                            JobError::NotHashable
                        } else {
                            JobError::UnknownColumn
                        },
                    }
                } else {
                    done.result == Err::<(), JobError>(JobError::OutputClosed) && done.output is None
                        && done.printer.errors == context.printer.errors
                },
                Err(e) => done.result == Err::<(), JobError>(e) && done.output is None
                    && done.printer.errors == context.printer.errors,
            },
            _ => done.result == Err::<(), JobError>(JobError::ExpectedStream) && done.output is None
                && done.printer.errors == context.printer.errors,
        },
{
    let ExecutionContext { input, arguments, output, printer } = context;
    let mut printer = printer;
    match input {
        Value::Stream(mut input) => {
            let idx = match parse(input.get_type(), arguments) {
                Ok(idx) => idx,
                Err(e) => {
                    return Finished { result: Err(e), output: None, printer };
                },
            };
            let mut output = match output.initialize(clone_columns(input.get_type())) {
                Ok(o) => o,
                Err(e) => {
                    return Finished { result: Err(e), output: None, printer };
                },
            };
            let result = run(idx, &mut input, &mut output, &mut printer, paths);
            Finished { result, output: Some(output), printer }
        },
        _ => Finished { result: Err(JobError::ExpectedStream), output: None, printer },
    }
}

/// The keys of `rows`, row by row.
pub open spec fn keys_of(rows: Seq<Seq<ValueModel>>, idx: Option<int>) -> Seq<Seq<ValueModel>> {
    Seq::new(rows.len(), |k: int| key_of(rows[k], idx))
}

/// Whether no row of `rows` has a key that counts as the key of a row
/// before it.
pub open spec fn all_new(rows: Seq<Seq<ValueModel>>, idx: Option<int>, known: PathsModel) -> bool {
    forall|k: int|
        0 <= k < rows.len() ==> !is_known(
            keys_of(rows, idx).subrange(0, k),
            #[trigger] key_of(rows[k], idx),
            known,
        )
}

/// The keys that have been seen are the keys of the rows that remain.
pub proof fn lemma_seen_are_the_keys_kept(
    rows: Seq<Seq<ValueModel>>,
    idx: Option<int>,
    known: PathsModel,
)
    ensures
        seen_after(rows, idx, known) == keys_of(distinct(rows, idx, known), idx),
    decreases rows.len(),
{
    if rows.len() == 0 {
        assert(seen_after(rows, idx, known) =~= keys_of(distinct(rows, idx, known), idx));
    } else {
        lemma_seen_are_the_keys_kept(rows.drop_last(), idx, known);
        assert(seen_after(rows, idx, known) =~= keys_of(distinct(rows, idx, known), idx));
    }
}

/// Among the rows that remain, no key counts as the key of a row before it.
pub proof fn lemma_distinct_rows_are_new(
    rows: Seq<Seq<ValueModel>>,
    idx: Option<int>,
    known: PathsModel,
)
    ensures
        all_new(distinct(rows, idx, known), idx, known),
    decreases rows.len(),
{
    if rows.len() > 0 {
        let front = rows.drop_last();
        let kept = distinct(front, idx, known);
        let d = distinct(rows, idx, known);
        lemma_distinct_rows_are_new(front, idx, known);
        lemma_seen_are_the_keys_kept(front, idx, known);
        assert forall|k: int| 0 <= k < d.len() implies !is_known(
            keys_of(d, idx).subrange(0, k),
            #[trigger] key_of(d[k], idx),
            known,
        ) by {
            if k < kept.len() {
                assert(keys_of(d, idx).subrange(0, k) =~= keys_of(kept, idx).subrange(0, k));
                assert(d[k] == kept[k]);
            } else {
                assert(keys_of(d, idx).subrange(0, k) =~= keys_of(kept, idx));
            }
        }
    }
}

/// Rows of which none has a key that counts as the key of a row before it
/// all remain.
pub proof fn lemma_new_rows_remain(rows: Seq<Seq<ValueModel>>, idx: Option<int>, known: PathsModel)
    requires
        all_new(rows, idx, known),
    ensures
        distinct(rows, idx, known) == rows,
        seen_after(rows, idx, known) == keys_of(rows, idx),
    decreases rows.len(),
{
    if rows.len() == 0 {
        assert(distinct(rows, idx, known) =~= rows);
        assert(seen_after(rows, idx, known) =~= keys_of(rows, idx));
    } else {
        let front = rows.drop_last();
        let n = front.len() as int;
        assert forall|k: int| 0 <= k < front.len() implies !is_known(
            keys_of(front, idx).subrange(0, k),
            #[trigger] key_of(front[k], idx),
            known,
        ) by {
            assert(keys_of(front, idx).subrange(0, k) =~= keys_of(rows, idx).subrange(0, k));
            assert(front[k] == rows[k]);
            assert(!is_known(keys_of(rows, idx).subrange(0, k), key_of(rows[k], idx), known));
        }
        lemma_new_rows_remain(front, idx, known);
        assert(keys_of(front, idx) =~= keys_of(rows, idx).subrange(0, n));
        assert(!is_known(keys_of(rows, idx).subrange(0, n), key_of(rows[n], idx), known));
        assert(distinct(rows, idx, known) =~= rows);
        assert(seen_after(rows, idx, known) =~= keys_of(rows, idx));
    }
}

/// Dropping the rows whose key has been seen is idempotent: from the rows
/// that remain, nothing more is dropped.
pub proof fn lemma_distinct_twice(rows: Seq<Seq<ValueModel>>, idx: Option<int>, known: PathsModel)
    ensures
        distinct(distinct(rows, idx, known), idx, known) == distinct(rows, idx, known),
{
    lemma_distinct_rows_are_new(rows, idx, known);
    lemma_new_rows_remain(distinct(rows, idx, known), idx, known);
}

/// Whether a row before the end of `rows` has a key that counts as `key`.
pub open spec fn comes_before(
    rows: Seq<Seq<ValueModel>>,
    idx: Option<int>,
    key: Seq<ValueModel>,
    known: PathsModel,
) -> bool {
    exists|j: int| 0 <= j < rows.len() && same_key(#[trigger] key_of(rows[j], idx), key, known)
}

/// Whether counting as one carries over from the keys of `rows` to `key`:
/// where the key of one row counts as the key of another, and that one as
/// `key`, the first counts as `key` too.
pub open spec fn carries_to(
    rows: Seq<Seq<ValueModel>>,
    idx: Option<int>,
    key: Seq<ValueModel>,
    known: PathsModel,
) -> bool {
    forall|a: int, b: int|
        0 <= a < rows.len() && 0 <= b < rows.len() && same_key(
            #[trigger] key_of(rows[a], idx),
            #[trigger] key_of(rows[b], idx),
            known,
        ) && same_key(key_of(rows[b], idx), key, known) ==> same_key(
            key_of(rows[a], idx),
            key,
            known,
        )
}

/// Whether counting as one carries over among the keys of `rows`.
pub open spec fn carries(rows: Seq<Seq<ValueModel>>, idx: Option<int>, known: PathsModel) -> bool {
    forall|c: int| 0 <= c < rows.len() ==> carries_to(rows, idx, #[trigger] key_of(rows[c], idx), known)
}

/// The rows of `rows` that are the first of their kind: each row whose key
/// counts as the key of no row before it, in the order of the rows.
pub open spec fn firsts(rows: Seq<Seq<ValueModel>>, idx: Option<int>, known: PathsModel) -> Seq<
    Seq<ValueModel>,
>
    decreases rows.len(),
{
    if rows.len() == 0 {
        Seq::empty()
    } else if comes_before(rows.drop_last(), idx, key_of(rows.last(), idx), known) {
        firsts(rows.drop_last(), idx, known)
    } else {
        firsts(rows.drop_last(), idx, known).push(rows.last())
    }
}

/// What carries over to `key` from the keys of `rows` carries over from
/// the keys of all but the last of them.
pub proof fn lemma_carries_to_front(
    rows: Seq<Seq<ValueModel>>,
    idx: Option<int>,
    key: Seq<ValueModel>,
    known: PathsModel,
)
    requires
        rows.len() > 0,
        carries_to(rows, idx, key, known),
    ensures
        carries_to(rows.drop_last(), idx, key, known),
{
    let front = rows.drop_last();
    assert forall|a: int, b: int|
        0 <= a < front.len() && 0 <= b < front.len() && same_key(
            #[trigger] key_of(front[a], idx),
            #[trigger] key_of(front[b], idx),
            known,
        ) && same_key(key_of(front[b], idx), key, known) implies same_key(
        key_of(front[a], idx),
        key,
        known,
    ) by {
        assert(front[a] == rows[a] && front[b] == rows[b]);
        assert(same_key(key_of(rows[a], idx), key_of(rows[b], idx), known));
    }
}

/// What carries over among the keys of `rows` carries over among the keys
/// of all but the last of them, and from those to the key of the last.
pub proof fn lemma_carries_front(rows: Seq<Seq<ValueModel>>, idx: Option<int>, known: PathsModel)
    requires
        rows.len() > 0,
        carries(rows, idx, known),
    ensures
        carries(rows.drop_last(), idx, known),
        carries_to(rows.drop_last(), idx, key_of(rows.last(), idx), known),
{
    let front = rows.drop_last();
    let n = front.len() as int;
    assert(carries_to(rows, idx, key_of(rows[n], idx), known));
    lemma_carries_to_front(rows, idx, key_of(rows.last(), idx), known);
    assert forall|c: int| 0 <= c < front.len() implies carries_to(
        front,
        idx,
        #[trigger] key_of(front[c], idx),
        known,
    ) by {
        assert(front[c] == rows[c]);
        assert(carries_to(rows, idx, key_of(rows[c], idx), known));
        lemma_carries_to_front(rows, idx, key_of(rows[c], idx), known);
    }
}

/// Where counting as one carries over, a key has been seen exactly when it
/// counts as the key of a row that has gone by.
pub proof fn lemma_seen_means_gone_by(
    rows: Seq<Seq<ValueModel>>,
    idx: Option<int>,
    key: Seq<ValueModel>,
    known: PathsModel,
)
    requires
        carries(rows, idx, known),
        carries_to(rows, idx, key, known),
    ensures
        is_known(seen_after(rows, idx, known), key, known) == comes_before(rows, idx, key, known),
    decreases rows.len(),
{
    if rows.len() > 0 {
        let front = rows.drop_last();
        let n = front.len() as int;
        let last = key_of(rows.last(), idx);
        let before = seen_after(front, idx, known);
        let after = seen_after(rows, idx, known);
        assert forall|i: int| 0 <= i < front.len() implies key_of(#[trigger] front[i], idx)
            == key_of(rows[i], idx) by {}
        lemma_carries_to_front(rows, idx, key, known);
        lemma_carries_front(rows, idx, known);
        lemma_seen_means_gone_by(front, idx, key, known);
        lemma_seen_means_gone_by(front, idx, last, known);
        if comes_before(rows, idx, key, known) {
            // A row that has gone by counts as the key: a key that has been
            // seen does too.
            let j = choose|j: int|
                0 <= j < rows.len() && same_key(#[trigger] key_of(rows[j], idx), key, known);
            if j < n {
                assert(same_key(key_of(front[j], idx), key, known));
                assert(comes_before(front, idx, key, known));
                let s = choose|s: int|
                    0 <= s < before.len() && same_key(#[trigger] before[s], key, known);
                assert(after[s] == before[s]);
            } else if is_known(before, last, known) {
                let i = choose|i: int|
                    0 <= i < front.len() && same_key(#[trigger] key_of(front[i], idx), last, known);
                assert(same_key(key_of(rows[i], idx), key_of(rows[n], idx), known));
                assert(same_key(key_of(rows[i], idx), key, known));
                assert(same_key(key_of(front[i], idx), key, known));
                assert(comes_before(front, idx, key, known));
                let s = choose|s: int|
                    0 <= s < before.len() && same_key(#[trigger] before[s], key, known);
                assert(after[s] == before[s]);
            } else {
                assert(after[before.len() as int] == last);
            }
            assert(is_known(after, key, known));
        }
        if is_known(after, key, known) {
            // A key that has been seen counts as the key: it is the key of a
            // row that has gone by.
            let s = choose|s: int| 0 <= s < after.len() && same_key(#[trigger] after[s], key, known);
            if s < before.len() {
                assert(after[s] == before[s]);
                assert(is_known(before, key, known));
                let j = choose|j: int|
                    0 <= j < front.len() && same_key(#[trigger] key_of(front[j], idx), key, known);
                assert(same_key(key_of(rows[j], idx), key, known));
            } else {
                assert(after[s] == last);
                assert(same_key(key_of(rows[n], idx), key, known));
            }
            assert(comes_before(rows, idx, key, known));
        }
    }
}

/// Where counting as one carries over among the keys, the rows that remain
/// are the first of each kind: a row is dropped exactly when its key counts
/// as the key of a row before it.
pub proof fn lemma_distinct_are_the_firsts(
    rows: Seq<Seq<ValueModel>>,
    idx: Option<int>,
    known: PathsModel,
)
    requires
        carries(rows, idx, known),
    ensures
        distinct(rows, idx, known) == firsts(rows, idx, known),
    decreases rows.len(),
{
    if rows.len() > 0 {
        lemma_carries_front(rows, idx, known);
        lemma_distinct_are_the_firsts(rows.drop_last(), idx, known);
        lemma_seen_means_gone_by(rows.drop_last(), idx, key_of(rows.last(), idx), known);
    }
}

} // verus!
