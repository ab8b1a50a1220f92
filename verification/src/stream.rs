//! The writing end of a stream, the sink for diagnostics, and what an
//! operator is started with.

use vstd::prelude::*;
use vstd::string::*;
use crate::errors::JobError;
use crate::types::{schema_model, ColumnModel, ColumnType};
use crate::value::{rows_model, Row, Stream, Value, ValueModel};

verus! {

/// The writing end of a stream: the schema that was declared for it, the
/// rows that its consumer has taken, and how many more the consumer will
/// take before it goes away, where it ever does.
#[derive(Debug)]
pub struct OutputStream {
    types: Vec<ColumnType>,
    sent: Vec<Row>,
    room: Option<usize>,
}

/// What an `OutputStream` stands for.
pub ghost struct OutputModel {
    pub types: Seq<ColumnModel>,
    pub rows: Seq<Seq<ValueModel>>,
    pub room: Option<nat>,
}

impl OutputModel {
    /// How many of `offered` rows the consumer takes.
    pub open spec fn takes(self, offered: nat) -> nat {
        match self.room {
            Some(n) => if offered <= n {
                offered
            } else {
                n
            },
            None => offered,
        }
    }

    /// The output after `offered` has been sent to it row by row: the
    /// consumer has taken as many of the rows as it had room for.
    pub open spec fn after(self, offered: Seq<Seq<ValueModel>>) -> OutputModel {
        OutputModel {
            types: self.types,
            rows: self.rows + offered.subrange(0, self.takes(offered.len()) as int),
            room: match self.room {
                Some(n) => Some((n - self.takes(offered.len())) as nat),
                None => None,
            },
        }
    }
}

impl View for OutputStream {
    type V = OutputModel;

    closed spec fn view(&self) -> OutputModel {
        OutputModel {
            types: schema_model(self.types),
            rows: rows_model(self.sent),
            room: match self.room {
                Some(n) => Some(n as nat),
                None => None,
            },
        }
    }
}

/// The output of an operator before its schema has been declared.
#[derive(Debug)]
pub struct Output {
    /// How many rows the consumer will take, where it ever stops.
    pub room: Option<usize>,
    /// Whether there is a consumer at all.
    pub connected: bool,
}

impl Output {
    /// An output whose consumer takes every row.
    pub fn unbounded() -> (o: Output)
        ensures
            o.room is None,
            o.connected,
    {
        Output { room: None, connected: true }
    }

    /// An output whose consumer goes away after `room` rows.
    pub fn closing_after(room: usize) -> (o: Output)
        ensures
            o.room == Some(room),
            o.connected,
    {
        Output { room: Some(room), connected: true }
    }

    /// Declares the schema of the output. This comes before any row is
    /// sent, and it fails where there is no consumer.
    pub fn initialize(self, types: Vec<ColumnType>) -> (r: Result<OutputStream, JobError>)
        ensures
            match r {
                Ok(o) => self.connected && o@ == (OutputModel {
                    types: schema_model(types),
                    rows: Seq::empty(),
                    room: match self.room {
                        Some(n) => Some(n as nat),
                        None => None,
                    },
                }),
                Err(e) => !self.connected && e == JobError::OutputClosed,
            },
    {
        if !self.connected {
            return Err(JobError::OutputClosed);
        }
        let o = OutputStream { types, sent: Vec::new(), room: self.room };
        assert(o@.rows =~= Seq::<Seq<ValueModel>>::empty());
        Ok(o)
    }
}

impl OutputStream {
    /// Sends a row. Where the consumer has gone away the row is lost and
    /// the send fails.
    pub fn send(&mut self, row: Row) -> (r: Result<(), JobError>)
        ensures
            final(self)@ == old(self)@.after(seq![row@]),
            match r {
                Ok(_) => old(self)@.takes(1) == 1,
                Err(e) => old(self)@.takes(1) == 0 && e == JobError::OutputClosed,
            },
    {
        match self.room {
            Some(n) => {
                if n == 0 {
                    return Err(JobError::OutputClosed);
                }
                self.room = Some(n - 1);
            },
            None => {},
        }
        self.sent.push(row);
        assert(self@.rows =~= old(self)@.rows + seq![row@].subrange(0, 1));
        Ok(())
    }

    /// The schema that was declared.
    pub fn get_type(&self) -> (t: &Vec<ColumnType>)
        ensures
            schema_model(*t) == self@.types,
    {
        &self.types
    }

    /// The rows that the consumer has taken.
    pub fn rows(&self) -> (r: &Vec<Row>)
        ensures
            rows_model(*r) == self@.rows,
    {
        &self.sent
    }

    /// The stream that the consumer reads: the rows that were sent, in the
    /// order in which they were sent.
    pub fn into_stream(self) -> (s: Stream)
        ensures
            s@.types == self@.types,
            s@.rows == self@.rows,
            !s.is_broken(),
    {
        Stream::new(self.types, self.sent)
    }
}

/// Sending rows one after the other is sending them at once.
pub proof fn lemma_after_after(o: OutputModel, a: Seq<Seq<ValueModel>>, b: Seq<Seq<ValueModel>>)
    ensures
        o.after(a).after(b) == o.after(a + b),
{
    let left = o.after(a).after(b);
    let right = o.after(a + b);
    assert(left.rows =~= right.rows);
}

/// The sink for what a job tells its user: lines of output, and failures
/// that do not stop the job.
#[derive(Debug)]
pub struct Printer {
    pub lines: Vec<String>,
    pub errors: Vec<JobError>,
}

/// The texts of the lines of a printer.
pub open spec fn lines_model(lines: Vec<String>) -> Seq<Seq<char>> {
    Seq::new(lines.len() as nat, |i: int| lines[i]@)
}

impl Printer {
    /// A printer that has been told nothing.
    pub fn new() -> (p: Printer)
        ensures
            p.lines@.len() == 0,
            p.errors@.len() == 0,
    {
        Printer { lines: Vec::new(), errors: Vec::new() }
    }

    /// Prints one line.
    pub fn line(&mut self, text: &str)
        ensures
            lines_model(final(self).lines) == lines_model(old(self).lines).push(text@),
            final(self).errors == old(self).errors,
    {
        self.lines.push(String::from_str(text));
    }

    /// Reports a failure.
    pub fn job_error(&mut self, error: JobError)
        ensures
            final(self).errors@ == old(self).errors@.push(error),
            final(self).lines == old(self).lines,
    {
        self.errors.push(error);
    }

    /// Reports the failure of `result`, if it is one.
    pub fn handle_error(&mut self, result: Result<(), JobError>)
        ensures
            final(self).errors@ == match result {
                Ok(_) => old(self).errors@,
                Err(e) => old(self).errors@.push(e),
            },
            final(self).lines == old(self).lines,
    {
        match result {
            Ok(_) => {},
            Err(e) => self.errors.push(e),
        }
    }
}

/// One argument of a command: a value, with the name it was given under
/// where it was given under one.
#[derive(Debug)]
pub struct Argument {
    pub name: Option<String>,
    pub value: Value,
}

/// What an operator is started with: the one value that comes from
/// upstream, its arguments, its output and the sink for diagnostics.
#[derive(Debug)]
pub struct ExecutionContext {
    pub input: Value,
    pub arguments: Vec<Argument>,
    pub output: Output,
    pub printer: Printer,
}

/// What an operator leaves behind: how it ended, the output where the
/// schema was declared, and the sink for diagnostics.
#[derive(Debug)]
pub struct Finished {
    pub result: Result<(), JobError>,
    pub output: Option<OutputStream>,
    pub printer: Printer,
}

} // verus!
