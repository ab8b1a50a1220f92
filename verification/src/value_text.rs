//! How a value is written as text.

use vstd::prelude::*;
use vstd::string::*;
use vstd::utf8::{decode_utf8, encode_utf8_decode_utf8, valid_utf8};
use crate::text::{decimal_text, push_char, push_integer, text_of_bytes};
use crate::time::duration_text;
use crate::type_syntax::type_text;
use crate::value::{cells_model, entries_model, texts_model, FilePath, Value, ValueModel};

verus! {

/// The parts of a field, with a dot between each two.
pub open spec fn dotted(parts: Seq<Seq<char>>) -> Seq<char>
    decreases parts.len(),
{
    if parts.len() == 0 {
        Seq::empty()
    } else if parts.len() == 1 {
        parts[0]
    } else {
        dotted(parts.drop_last()) + seq!['.'] + parts.last()
    }
}

/// The name of a file as text, where it is text.
pub open spec fn path_text(bytes: Seq<u8>) -> Option<Seq<char>> {
    if valid_utf8(bytes) {
        Some(decode_utf8(bytes))
    } else {
        None
    }
}

/// The texts of `cells`, with a comma and a space between each two.
pub open spec fn listed(cells: Seq<ValueModel>) -> Seq<char>
    decreases cells,
{
    if cells.len() == 0 {
        Seq::empty()
    } else if cells.len() == 1 {
        value_text(cells[0])
    } else {
        listed(cells.subrange(0, cells.len() - 1)) + seq![',', ' '] + value_text(
            cells[cells.len() - 1],
        )
    }
}

/// The texts of `entries`, each as its key, a colon, a space and what the
/// key stands for, with a comma and a space between each two.
pub open spec fn listed_entries(entries: Seq<(ValueModel, ValueModel)>) -> Seq<char>
    decreases entries,
{
    if entries.len() == 0 {
        Seq::empty()
    } else {
        let last = entries[entries.len() - 1];
        let entry = value_text(last.0) + seq![':', ' '] + value_text(last.1);
        if entries.len() == 1 {
            entry
        } else {
            listed_entries(entries.subrange(0, entries.len() - 1)) + seq![',', ' '] + entry
        }
    }
}

/// The canonical text of a value. A text and an operator are written as
/// they are, an integer in decimal, a time as its date, its time of day and
/// its offset, a field as its parts behind a percent sign, a glob and a
/// regular expression between braces behind `*` and `r`, a file as its name
/// where that is text. A stream, a table and binary content are written as a
/// marker, not as what they hold.
pub open spec fn value_text(v: ValueModel) -> Seq<char>
    decreases v,
{
    match v {
        ValueModel::Text(s) => s,
        ValueModel::Integer(i) => decimal_text(i),
        ValueModel::Time(t) => t.text(),
        ValueModel::Duration(d) => duration_text(d / 1000),
        ValueModel::Field(parts) => seq!['%'] + dotted(parts),
        ValueModel::Glob(p) => seq!['*', '{'] + p + seq!['}'],
        ValueModel::Regex(s) => seq!['r', '{'] + s + seq!['}'],
        ValueModel::Op(s) => s,
        ValueModel::Command(_) => "Command"@,
        ValueModel::Closure(s) => s,
        ValueModel::Stream(_) => "<Output>"@,
        ValueModel::File(bytes) => match path_text(bytes) {
            Some(s) => s,
            None => "<Broken file>"@,
        },
        ValueModel::Rows(_) => "<Rows>"@,
        ValueModel::Struct { cells, .. } => seq!['{'] + listed(cells) + seq!['}'],
        ValueModel::List { cells, .. } => seq!['['] + listed(cells) + seq![']'],
        ValueModel::Dict { entries, .. } => seq!['{'] + listed_entries(entries) + seq!['}'],
        ValueModel::Env(s) => s,
        ValueModel::Bool(b) => if b {
            "true"@
        } else {
            "false"@
        },
        ValueModel::Float { text, .. } => text,
        ValueModel::Empty => "<empty>"@,
        ValueModel::Binary(_) => "<binary>"@,
        ValueModel::Type(t) => type_text(t),
    }
}

fn push_dotted(out: &mut String, parts: &Vec<String>)
    ensures
        final(out)@ == old(out)@ + dotted(texts_model(*parts)),
{
    let ghost model = texts_model(*parts);
    let mut i: usize = 0;
    while i < parts.len()
        invariant
            i <= parts.len(),
            model == texts_model(*parts),
            out@ == old(out)@ + dotted(model.subrange(0, i as int)),
        decreases parts.len() - i,
    {
        let ghost done = model.subrange(0, i as int);
        let ghost next = model.subrange(0, i + 1);
        if i > 0 {
            push_char(out, '.');
        }
        out.append(parts[i].as_str());
        proof {
            assert(next.drop_last() =~= done);
        }
        i = i + 1;
    }
    assert(model.subrange(0, parts.len() as int) =~= model);
}

fn push_listed(out: &mut String, cells: &Vec<Value>)
    ensures
        final(out)@ == old(out)@ + listed(cells_model(*cells)),
    decreases cells,
{
    let ghost model = cells_model(*cells);
    let mut i: usize = 0;
    while i < cells.len()
        invariant
            i <= cells.len(),
            model == cells_model(*cells),
            out@ == old(out)@ + listed(model.subrange(0, i as int)),
        decreases cells.len() - i,
    {
        let ghost done = model.subrange(0, i as int);
        let ghost next = model.subrange(0, i + 1);
        if i > 0 {
            push_char(out, ',');
            push_char(out, ' ');
        }
        cells[i].push_text(out);
        proof {
            assert(next.subrange(0, next.len() - 1) =~= done);
        }
        i = i + 1;
    }
    assert(model.subrange(0, cells.len() as int) =~= model);
}

fn push_listed_entries(out: &mut String, entries: &Vec<(Value, Value)>)
    ensures
        final(out)@ == old(out)@ + listed_entries(entries_model(*entries)),
    decreases entries,
{
    let ghost model = entries_model(*entries);
    let mut i: usize = 0;
    while i < entries.len()
        invariant
            i <= entries.len(),
            model == entries_model(*entries),
            out@ == old(out)@ + listed_entries(model.subrange(0, i as int)),
        decreases entries.len() - i,
    {
        let ghost done = model.subrange(0, i as int);
        let ghost next = model.subrange(0, i + 1);
        if i > 0 {
            push_char(out, ',');
            push_char(out, ' ');
        }
        entries[i].0.push_text(out);
        push_char(out, ':');
        push_char(out, ' ');
        entries[i].1.push_text(out);
        proof {
            let last = next[next.len() - 1];
            assert(next.subrange(0, next.len() - 1) =~= done);
            assert(last == (entries[i as int].0@, entries[i as int].1@));
        }
        i = i + 1;
    }
    assert(model.subrange(0, entries.len() as int) =~= model);
}

impl FilePath {
    /// The name of the file as text, where it is text.
    pub fn to_str(&self) -> (r: Option<&str>)
        ensures
            match r {
                Some(s) => path_text(self.bytes@) == Some(s@),
                None => path_text(self.bytes@) is None,
            },
    {
        match text_of_bytes(self.bytes.as_slice()) {
            Some(s) => {
                proof {
                    encode_utf8_decode_utf8(s@);
                }
                Some(s)
            },
            None => None,
        }
    }
}

impl Value {
    /// Appends the canonical text of the value to `out`.
    pub fn push_text(&self, out: &mut String)
        ensures
            final(out)@ == old(out)@ + value_text(self@),
        decreases self,
    {
        match self {
            Value::Text(val) => out.append(val.as_str()),
            Value::Integer(val) => push_integer(out, *val),
            Value::Time(val) => {
                let s = val.to_string();
                out.append(s.as_str());
            },
            Value::Field(val) => {
                push_char(out, '%');
                push_dotted(out, val);
            },
            Value::Glob(val) => {
                push_char(out, '*');
                push_char(out, '{');
                out.append(val.original.as_str());
                push_char(out, '}');
            },
            Value::Regex(val, _) => {
                push_char(out, 'r');
                push_char(out, '{');
                out.append(val.as_str());
                push_char(out, '}');
            },
            Value::Op(val) => out.append(val.as_str()),
            Value::Command(_) => out.append("Command"),
            Value::File(val) => match val.to_str() {
                Some(s) => out.append(s),
                None => out.append("<Broken file>"),
            },
            Value::Rows(_) => out.append("<Rows>"),
            Value::Struct(row) => {
                push_char(out, '{');
                push_listed(out, &row.cells);
                push_char(out, '}');
            },
            Value::Closure(c) => out.append(c.source.as_str()),
            Value::Stream(_) => out.append("<Output>"),
            Value::List(l) => {
                push_char(out, '[');
                push_listed(out, &l.cells);
                push_char(out, ']');
            },
            Value::Duration(d) => {
                let s = d.to_string();
                out.append(s.as_str());
            },
            Value::Env(env) => out.append(env.description.as_str()),
            Value::Bool(v) => {
                if *v {
                    out.append("true")
                } else {
                    out.append("false")
                }
            },
            Value::Dict(d) => {
                push_char(out, '{');
                push_listed_entries(out, &d.entries);
                push_char(out, '}');
            },
            Value::Float(f) => out.append(f.text.as_str()),
            Value::Empty => out.append("<empty>"),
            Value::BinaryReader(_) => out.append("<binary>"),
            Value::Type(t) => t.push_text(out),
        }
    }

    /// The canonical text of the value.
    pub fn to_string(&self) -> (s: String)
        ensures
            s@ == value_text(self@),
    {
        let mut s = String::new();
        self.push_text(&mut s);
        s
    }
}

} // verus!
