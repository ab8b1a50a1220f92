//! The operator that joins two streams row by row.
//!
//! The rows of the output are the rows of the first stream, each with the
//! cells of the row of the second stream at the same place behind its own.
//! The output ends where the shorter of the two streams ends.

use vstd::prelude::*;
use vstd::string::*;
use crate::errors::JobError;
use crate::stream::{
    lemma_after_after, Argument, ExecutionContext, Finished, OutputModel, OutputStream,
};
use crate::text::same_text;
use crate::types::{schema_model, ColumnType};
use crate::value::{clone_columns, ReadOutcome, Row, Stream, Value, ValueModel};

verus! {

/// What `zip` works on: the two streams that it joins.
#[derive(Debug)]
pub struct Zip {
    /// The first stream.
    pub first: Stream,
    /// The second stream.
    pub second: Stream,
}

/// The rows of two tables joined place by place, as far as both reach.
pub open spec fn zipped(a: Seq<Seq<ValueModel>>, b: Seq<Seq<ValueModel>>) -> Seq<Seq<ValueModel>> {
    Seq::new(
        if a.len() <= b.len() {
            a.len()
        } else {
            b.len()
        },
        |i: int| a[i] + b[i],
    )
}

/// Whether `name` is no name or the name `expected`.
pub open spec fn fits(name: Option<Seq<char>>, expected: Seq<char>) -> bool {
    match name {
        Some(n) => n == expected,
        None => true,
    }
}

/// How two arguments with these names are bound to the parameters `first`
/// and `second`: in the order given (`Ok(false)`), or the other way round
/// (`Ok(true)`). An argument without a name is bound by its place.
pub open spec fn binding(n0: Option<Seq<char>>, n1: Option<Seq<char>>) -> Result<bool, JobError> {
    if fits(n0, "first"@) && fits(n1, "second"@) {
        Ok(false)
    } else if n0 == Some("second"@) && n1 == Some("first"@) {
        Ok(true)
    } else {
        Err(JobError::UnknownArgument)
    }
}

/// The name of an argument as a model.
pub open spec fn argument_name(a: Argument) -> Option<Seq<char>> {
    match a.name {
        Some(n) => Some(n@),
        None => None,
    }
}

/// The two streams that the arguments give, the first one first. There must
/// be two arguments, bound to `first` and `second`, and both must be
/// streams.
pub open spec fn zip_arguments(arguments: Seq<Argument>) -> Result<(Stream, Stream), JobError> {
    if arguments.len() > 2 {
        Err(JobError::TooManyArguments)
    } else if arguments.len() < 2 {
        Err(JobError::MissingArgument)
    } else {
        match binding(argument_name(arguments[0]), argument_name(arguments[1])) {
            Err(e) => Err(e),
            Ok(swapped) => match (arguments[0].value, arguments[1].value) {
                (Value::Stream(a), Value::Stream(b)) => if swapped {
                    Ok((b, a))
                } else {
                    Ok((a, b))
                },
                _ => Err(JobError::ExpectedStream),
            },
        }
    }
}

/// The row made of the cells of `first` followed by those of `second`.
pub fn join(first: Row, second: Row) -> (r: Row)
    ensures
        r@ == first@ + second@,
{
    let mut row = first;
    let mut rest = second;
    row.cells.append(&mut rest.cells);
    row
}

fn name_fits(name: &Option<String>, expected: &str) -> (r: bool)
    ensures
        r == fits(
            match *name {
                Some(n) => Some(n@),
                None => None,
            },
            expected@,
        ),
{
    match name {
        Some(n) => same_text(n.as_str(), expected),
        None => true,
    }
}

fn name_is(name: &Option<String>, expected: &str) -> (r: bool)
    ensures
        r == (match *name {
            Some(n) => Some(n@),
            None => None,
        } == Some(expected@)),
{
    match name {
        Some(n) => same_text(n.as_str(), expected),
        None => false,
    }
}

impl Zip {
    /// Binds the arguments of `zip`.
    pub fn parse(arguments: Vec<Argument>) -> (r: Result<Zip, JobError>)
        ensures
            match r {
                Ok(z) => zip_arguments(arguments@) == Ok::<(Stream, Stream), JobError>(
                    (z.first, z.second),
                ),
                Err(e) => zip_arguments(arguments@) == Err::<(Stream, Stream), JobError>(e),
            },
    {
        let mut arguments = arguments;
        if arguments.len() > 2 {
            return Err(JobError::TooManyArguments);
        }
        if arguments.len() < 2 {
            return Err(JobError::MissingArgument);
        }
        let swapped = if name_fits(&arguments[0].name, "first") && name_fits(
            &arguments[1].name,
            "second",
        ) {
            false
        } else if name_is(&arguments[0].name, "second") && name_is(&arguments[1].name, "first") {
            true
        } else {
            return Err(JobError::UnknownArgument);
        };
        let last = arguments.pop();
        let front = arguments.pop();
        match (front, last) {
            (Some(a0), Some(a1)) => {
                match (a0.value, a1.value) {
                    (Value::Stream(a), Value::Stream(b)) => if swapped {
                        Ok(Zip { first: b, second: a })
                    } else {
                        Ok(Zip { first: a, second: b })
                    },
                    _ => Err(JobError::ExpectedStream),
                }
            },
            _ => Err(JobError::MissingArgument),
        }
    }

    /// Joins the two streams into `output`. A send that fails ends the work
    /// with that failure.
    pub fn run(self, output: &mut OutputStream) -> (r: Result<(), JobError>)
        ensures
            ({
                let rows = zipped(self.first@.rows, self.second@.rows);
                &&& final(output)@ == old(output)@.after(rows)
                &&& match r {
                    Ok(_) => old(output)@.takes(rows.len()) == rows.len(),
                    Err(e) => old(output)@.takes(rows.len()) < rows.len() && e
                        == JobError::OutputClosed,
                }
            }),
    {
        let Zip { first, second } = self;
        let mut first = first;
        let mut second = second;
        let ghost a = first@.rows;
        let ghost b = second@.rows;
        let ghost all = zipped(a, b);
        let ghost out0 = output@;
        let ghost mut n: int = 0;
        loop
            invariant
                a == self.first@.rows,
                b == self.second@.rows,
                all == zipped(a, b),
                out0 == old(output)@,
                0 <= n <= all.len(),
                first@.rows == a.subrange(n, a.len() as int),
                second@.rows == b.subrange(n, b.len() as int),
                output@ == out0.after(all.subrange(0, n)),
                out0.takes(n as nat) == n,
            decreases all.len() - n,
        {
            let r1 = first.read();
            let r2 = second.read();
            match (r1, r2) {
                (ReadOutcome::Row(row1), ReadOutcome::Row(row2)) => {
                    let row1 = join(row1, row2);
                    proof {
                        assert(all.subrange(0, n + 1) =~= all.subrange(0, n) + seq![all[n]]);
                        lemma_after_after(out0, all.subrange(0, n), seq![all[n]]);
                    }
                    match output.send(row1) {
                        Ok(_) => {},
                        Err(e) => {
                            proof {
                                assert(output@.rows =~= out0.after(all).rows);
                            }
                            return Err(e);
                        },
                    }
                    proof {
                        n = n + 1;
                    }
                },
                _ => {
                    assert(all.subrange(0, n) =~= all);
                    return Ok(());
                },
            }
        }
    }
}

/// Joins the two streams given as arguments into one. The schema of the
/// output is the schema of the first stream followed by that of the second.
pub fn zip(context: ExecutionContext) -> (done: Finished)
    ensures
        done.printer == context.printer,
        match zip_arguments(context.arguments@) {
            Ok((first, second)) => if context.output.connected {
                let rows = zipped(first@.rows, second@.rows);
                let start = OutputModel {
                    types: first@.types + second@.types,
                    rows: Seq::empty(),
                    room: match context.output.room {
                        Some(n) => Some(n as nat),
                        None => None,
                    },
                };
                &&& done.output matches Some(o) && o@ == start.after(rows)
                &&& match done.result {
                    Ok(_) => start.takes(rows.len()) == rows.len(),
                    Err(e) => start.takes(rows.len()) < rows.len() && e == JobError::OutputClosed,
                }
            } else {
                done.result == Err::<(), JobError>(JobError::OutputClosed) && done.output is None
            },
            Err(e) => done.result == Err::<(), JobError>(e) && done.output is None,
        },
{
    let ExecutionContext { input: _, arguments, output, printer } = context;
    let cfg = match Zip::parse(arguments) {
        Ok(cfg) => cfg,
        Err(e) => {
            return Finished { result: Err(e), output: None, printer };
        },
    };
    let mut output_type: Vec<ColumnType> = Vec::new();
    let mut first_types = clone_columns(cfg.first.get_type());
    let mut second_types = clone_columns(cfg.second.get_type());
    output_type.append(&mut first_types);
    output_type.append(&mut second_types);
    assert(schema_model(output_type) =~= cfg.first@.types + cfg.second@.types);
    let mut output = match output.initialize(output_type) {
        Ok(o) => o,
        Err(e) => {
            return Finished { result: Err(e), output: None, printer };
        },
    };
    let result = cfg.run(&mut output);
    Finished { result, output: Some(output), printer }
}

} // verus!
