//! How a type is written as text, and how that text is read back.

use vstd::prelude::*;
use vstd::string::*;
use crate::errors::JobError;
use crate::text::{chars_of, push_char};
use crate::types::{schema_model, ColumnModel, ColumnType, TypeModel, ValueType};

verus! {

/// The text of a type: the name of its tag, followed for a structured type
/// by what it carries, between angle brackets and separated by commas.
pub open spec fn type_text(t: TypeModel) -> Seq<char>
    decreases t,
{
    match t {
        TypeModel::Text => "text"@,
        TypeModel::Integer => "integer"@,
        TypeModel::Time => "time"@,
        TypeModel::Duration => "duration"@,
        TypeModel::Field => "field"@,
        TypeModel::Glob => "glob"@,
        TypeModel::Regex => "regex"@,
        TypeModel::Op => "op"@,
        TypeModel::Command => "command"@,
        TypeModel::Closure => "closure"@,
        TypeModel::File => "file"@,
        TypeModel::Stream(c) => "output"@ + seq!['<'] + schema_text(c) + seq!['>'],
        TypeModel::Rows(c) => "rows"@ + seq!['<'] + schema_text(c) + seq!['>'],
        TypeModel::Row(c) => "row"@ + seq!['<'] + schema_text(c) + seq!['>'],
        TypeModel::List(e) => "list"@ + seq!['<'] + type_text(*e) + seq!['>'],
        TypeModel::Dict(k, v) => "dict"@ + seq!['<'] + type_text(*k) + seq![','] + type_text(*v)
            + seq!['>'],
        TypeModel::Env => "env"@,
        TypeModel::Bool => "bool"@,
        TypeModel::Float => "float"@,
        TypeModel::Empty => "empty"@,
        TypeModel::Any => "any"@,
        TypeModel::Binary => "binary"@,
        TypeModel::Type => "type"@,
    }
}

/// The text of a column: its type, after its name and an equals sign where
/// it has a name.
pub open spec fn column_text(c: ColumnModel) -> Seq<char>
    decreases c,
{
    match c.name {
        Some(n) => n + seq!['='] + type_text(c.cell_type),
        None => type_text(c.cell_type),
    }
}

/// The text of a schema: the texts of its columns, separated by commas.
pub open spec fn schema_text(c: Seq<ColumnModel>) -> Seq<char>
    decreases c,
{
    if c.len() == 0 {
        Seq::empty()
    } else if c.len() == 1 {
        column_text(c[0])
    } else {
        schema_text(c.subrange(0, c.len() - 1)) + seq![','] + column_text(c[c.len() - 1])
    }
}

fn push_schema(out: &mut String, columns: &Vec<ColumnType>)
    ensures
        final(out)@ == old(out)@ + schema_text(schema_model(*columns)),
    decreases columns,
{
    let ghost schema = schema_model(*columns);
    let mut i: usize = 0;
    while i < columns.len()
        invariant
            i <= columns.len(),
            schema == schema_model(*columns),
            out@ == old(out)@ + schema_text(schema.subrange(0, i as int)),
        decreases columns.len() - i,
    {
        let ghost done = schema.subrange(0, i as int);
        let ghost next = schema.subrange(0, i + 1);
        if i > 0 {
            push_char(out, ',');
        }
        match &columns[i].name {
            Some(n) => {
                out.append(n.as_str());
                push_char(out, '=');
            },
            None => {},
        }
        columns[i].cell_type.push_text(out);
        proof {
            let col = columns[i as int]@;
            assert(next.subrange(0, next.len() - 1) =~= done);
            match col.name {
                Some(n) => {
                    assert(column_text(col) == n + seq!['='] + type_text(col.cell_type));
                },
                None => {
                    assert(column_text(col) == type_text(col.cell_type));
                },
            }
        }
        i = i + 1;
    }
    assert(schema.subrange(0, columns.len() as int) =~= schema);
}

impl ValueType {
    /// Appends the text of this type to `out`.
    pub fn push_text(&self, out: &mut String)
        ensures
            final(out)@ == old(out)@ + type_text(self@),
        decreases self,
    {
        match self {
            ValueType::Text => out.append("text"),
            ValueType::Integer => out.append("integer"),
            ValueType::Time => out.append("time"),
            ValueType::Duration => out.append("duration"),
            ValueType::Field => out.append("field"),
            ValueType::Glob => out.append("glob"),
            ValueType::Regex => out.append("regex"),
            ValueType::Op => out.append("op"),
            ValueType::Command => out.append("command"),
            ValueType::Closure => out.append("closure"),
            ValueType::File => out.append("file"),
            ValueType::Stream(c) => {
                out.append("output");
                push_char(out, '<');
                push_schema(out, c);
                push_char(out, '>');
            },
            ValueType::Rows(c) => {
                out.append("rows");
                push_char(out, '<');
                push_schema(out, c);
                push_char(out, '>');
            },
            ValueType::Row(c) => {
                out.append("row");
                push_char(out, '<');
                push_schema(out, c);
                push_char(out, '>');
            },
            ValueType::List(e) => {
                out.append("list");
                push_char(out, '<');
                e.push_text(out);
                push_char(out, '>');
            },
            ValueType::Dict(k, v) => {
                out.append("dict");
                push_char(out, '<');
                k.push_text(out);
                push_char(out, ',');
                v.push_text(out);
                push_char(out, '>');
            },
            ValueType::Env => out.append("env"),
            ValueType::Bool => out.append("bool"),
            ValueType::Float => out.append("float"),
            ValueType::Empty => out.append("empty"),
            ValueType::Any => out.append("any"),
            ValueType::Binary => out.append("binary"),
            ValueType::Type => out.append("type"),
        }
    }

    /// The text of this type.
    pub fn to_string(&self) -> (s: String)
        ensures
            s@ == type_text(self@),
    {
        let mut s = String::new();
        self.push_text(&mut s);
        s
    }
}

/// Whether `c` can stand in the name of a tag.
pub open spec fn is_word_char(c: char) -> bool {
    'a' <= c && c <= 'z'
}

/// Where the word that starts at `pos` ends.
pub open spec fn word_end(s: Seq<char>, pos: int) -> int
    decreases s.len() - pos,
{
    if 0 <= pos < s.len() && is_word_char(s[pos]) {
        word_end(s, pos + 1)
    } else {
        pos
    }
}

/// The type without a schema that `word` names, if it names one.
pub open spec fn scalar_named(word: Seq<char>) -> Option<TypeModel> {
    if word == "text"@ {
        Some(TypeModel::Text)
    } else if word == "integer"@ {
        Some(TypeModel::Integer)
    } else if word == "time"@ {
        Some(TypeModel::Time)
    } else if word == "duration"@ {
        Some(TypeModel::Duration)
    } else if word == "field"@ {
        Some(TypeModel::Field)
    } else if word == "glob"@ {
        Some(TypeModel::Glob)
    } else if word == "regex"@ {
        Some(TypeModel::Regex)
    } else if word == "op"@ {
        Some(TypeModel::Op)
    } else if word == "command"@ {
        Some(TypeModel::Command)
    } else if word == "closure"@ {
        Some(TypeModel::Closure)
    } else if word == "file"@ {
        Some(TypeModel::File)
    } else if word == "env"@ {
        Some(TypeModel::Env)
    } else if word == "bool"@ {
        Some(TypeModel::Bool)
    } else if word == "float"@ {
        Some(TypeModel::Float)
    } else if word == "empty"@ {
        Some(TypeModel::Empty)
    } else if word == "any"@ {
        Some(TypeModel::Any)
    } else if word == "binary"@ {
        Some(TypeModel::Binary)
    } else if word == "type"@ {
        Some(TypeModel::Type)
    } else {
        None
    }
}

/// The type written in `s` from `pos` on, with the position just behind it,
/// if one is written there: the name of a type without a schema, or `list`
/// or `dict` with the types of what they hold between angle brackets.
pub open spec fn parse_type_at(s: Seq<char>, pos: int) -> Option<(TypeModel, int)>
    decreases s.len() - pos,
{
    let end = word_end(s, pos);
    let word = s.subrange(pos, end);
    if !(0 <= pos <= end) {
        None
    } else if word == "list"@ {
        if end < s.len() && s[end] == '<' {
            match parse_type_at(s, end + 1) {
                Some((e, p)) => if end < p < s.len() && s[p] == '>' {
                    Some((TypeModel::List(Box::new(e)), p + 1))
                } else {
                    None
                },
                None => None,
            }
        } else {
            None
        }
    } else if word == "dict"@ {
        if end < s.len() && s[end] == '<' {
            match parse_type_at(s, end + 1) {
                Some((k, p)) => if end < p < s.len() && s[p] == ',' {
                    match parse_type_at(s, p + 1) {
                        Some((v, q)) => if p < q < s.len() && s[q] == '>' {
                            Some((TypeModel::Dict(Box::new(k), Box::new(v)), q + 1))
                        } else {
                            None
                        },
                        None => None,
                    }
                } else {
                    None
                },
                None => None,
            }
        } else {
            None
        }
    } else {
        match scalar_named(word) {
            Some(t) => Some((t, end)),
            None => None,
        }
    }
}

/// The type that `s` writes, if it writes one and nothing else.
pub open spec fn parse_type(s: Seq<char>) -> Option<TypeModel> {
    match parse_type_at(s, 0) {
        Some((t, p)) => if p == s.len() {
            Some(t)
        } else {
            None
        },
        None => None,
    }
}

/// A word ends at or behind where it starts, within the text.
pub proof fn lemma_word_end_bounds(s: Seq<char>, pos: int)
    requires
        0 <= pos <= s.len(),
    ensures
        pos <= word_end(s, pos) <= s.len(),
    decreases s.len() - pos,
{
    if pos < s.len() && is_word_char(s[pos]) {
        lemma_word_end_bounds(s, pos + 1);
    }
}

/// What was read as a type is the text of that type: the stretch of `s`
/// that was read is what the type is written as.
pub proof fn lemma_parsed_prints_back(s: Seq<char>, pos: int)
    requires
        0 <= pos <= s.len(),
        parse_type_at(s, pos) is Some,
    ensures
        ({
            let (t, stop) = parse_type_at(s, pos)->0;
            pos <= stop <= s.len() && s.subrange(pos, stop) == type_text(t)
        }),
    decreases s.len() - pos,
{
    lemma_word_end_bounds(s, pos);
    let end = word_end(s, pos);
    let word = s.subrange(pos, end);
    let (t, stop) = parse_type_at(s, pos)->0;
    if word == "list"@ {
        lemma_parsed_prints_back(s, end + 1);
        let (e, p) = parse_type_at(s, end + 1)->0;
        assert(s.subrange(pos, stop) =~= word + seq!['<'] + s.subrange(end + 1, p) + seq!['>']);
    } else if word == "dict"@ {
        lemma_parsed_prints_back(s, end + 1);
        let (k, p) = parse_type_at(s, end + 1)->0;
        lemma_parsed_prints_back(s, p + 1);
        let (v, q) = parse_type_at(s, p + 1)->0;
        assert(s.subrange(pos, stop) =~= word + seq!['<'] + s.subrange(end + 1, p) + seq![',']
            + s.subrange(p + 1, q) + seq!['>']);
    }
}

/// A text that reads as a type is the text of that type.
pub proof fn lemma_parse_type_prints_back(s: Seq<char>)
    requires
        parse_type(s) is Some,
    ensures
        type_text(parse_type(s)->0) == s,
{
    lemma_parsed_prints_back(s, 0);
}

fn word_is(chars: &Vec<char>, from: usize, to: usize, word: &str) -> (r: bool)
    requires
        from <= to <= chars.len(),
    ensures
        r == (chars@.subrange(from as int, to as int) == word@),
{
    let w = chars_of(word);
    let ghost part = chars@.subrange(from as int, to as int);
    if w.len() != to - from {
        return false;
    }
    let mut i: usize = 0;
    while i < w.len()
        invariant
            i <= w.len(),
            from <= to <= chars.len(),
            w.len() == to - from,
            w@ == word@,
            part == chars@.subrange(from as int, to as int),
            forall|j: int| 0 <= j < i ==> part[j] == w@[j],
        decreases w.len() - i,
    {
        if chars[from + i] != w[i] {
            return false;
        }
        i = i + 1;
    }
    assert(part =~= w@);
    true
}

fn find_word_end(chars: &Vec<char>, pos: usize) -> (end: usize)
    requires
        pos <= chars.len(),
    ensures
        end == word_end(chars@, pos as int),
        pos <= end <= chars.len(),
{
    let mut end: usize = pos;
    while end < chars.len() && 'a' <= chars[end] && chars[end] <= 'z'
        invariant
            pos <= end <= chars.len(),
            word_end(chars@, pos as int) == word_end(chars@, end as int),
        decreases chars.len() - end,
    {
        end = end + 1;
    }
    end
}

fn scalar_of(chars: &Vec<char>, from: usize, to: usize) -> (r: Option<ValueType>)
    requires
        from <= to <= chars.len(),
    ensures
        match r {
            Some(t) => scalar_named(chars@.subrange(from as int, to as int)) == Some(t@),
            None => scalar_named(chars@.subrange(from as int, to as int)) is None,
        },
{
    if word_is(chars, from, to, "text") {
        Some(ValueType::Text)
    } else if word_is(chars, from, to, "integer") {
        Some(ValueType::Integer)
    } else if word_is(chars, from, to, "time") {
        Some(ValueType::Time)
    } else if word_is(chars, from, to, "duration") {
        Some(ValueType::Duration)
    } else if word_is(chars, from, to, "field") {
        Some(ValueType::Field)
    } else if word_is(chars, from, to, "glob") {
        Some(ValueType::Glob)
    } else if word_is(chars, from, to, "regex") {
        Some(ValueType::Regex)
    } else if word_is(chars, from, to, "op") {
        Some(ValueType::Op)
    } else if word_is(chars, from, to, "command") {
        Some(ValueType::Command)
    } else if word_is(chars, from, to, "closure") {
        Some(ValueType::Closure)
    } else if word_is(chars, from, to, "file") {
        Some(ValueType::File)
    } else if word_is(chars, from, to, "env") {
        Some(ValueType::Env)
    } else if word_is(chars, from, to, "bool") {
        Some(ValueType::Bool)
    } else if word_is(chars, from, to, "float") {
        Some(ValueType::Float)
    } else if word_is(chars, from, to, "empty") {
        Some(ValueType::Empty)
    } else if word_is(chars, from, to, "any") {
        Some(ValueType::Any)
    } else if word_is(chars, from, to, "binary") {
        Some(ValueType::Binary)
    } else if word_is(chars, from, to, "type") {
        Some(ValueType::Type)
    } else {
        None
    }
}

fn parse_at(chars: &Vec<char>, pos: usize) -> (r: Option<(ValueType, usize)>)
    requires
        pos <= chars.len(),
    ensures
        match r {
            Some((t, p)) => parse_type_at(chars@, pos as int) == Some((t@, p as int)) && pos <= p
                <= chars.len(),
            None => parse_type_at(chars@, pos as int) is None,
        },
    decreases chars.len() - pos,
{
    let end: usize = find_word_end(chars, pos);
    if word_is(chars, pos, end, "list") {
        if !(end < chars.len() && chars[end] == '<') {
            return None;
        }
        let (e, p) = match parse_at(chars, end + 1) {
            Some(found) => found,
            None => {
                return None;
            },
        };
        if !(p < chars.len() && chars[p] == '>') {
            return None;
        }
        Some((ValueType::List(Box::new(e)), p + 1))
    } else if word_is(chars, pos, end, "dict") {
        if !(end < chars.len() && chars[end] == '<') {
            return None;
        }
        let (k, p) = match parse_at(chars, end + 1) {
            Some(found) => found,
            None => {
                return None;
            },
        };
        if !(p < chars.len() && chars[p] == ',') {
            return None;
        }
        let (v, q) = match parse_at(chars, p + 1) {
            Some(found) => found,
            None => {
                return None;
            },
        };
        if !(q < chars.len() && chars[q] == '>') {
            return None;
        }
        Some((ValueType::Dict(Box::new(k), Box::new(v)), q + 1))
    } else {
        match scalar_of(chars, pos, end) {
            Some(t) => Some((t, end)),
            None => None,
        }
    }
}

impl ValueType {
    /// Reads a type from its text.
    pub fn parse(s: &str) -> (r: Result<ValueType, JobError>)
        ensures
            match r {
                Ok(t) => parse_type(s@) == Some(t@),
                Err(e) => e == JobError::InvalidType && parse_type(s@) is None,
            },
    {
        let chars = chars_of(s);
        match parse_at(&chars, 0) {
            Some((t, p)) => if p == chars.len() {
                Ok(t)
            } else {
                Err(JobError::InvalidType)
            },
            None => Err(JobError::InvalidType),
        }
    }
}

} // verus!
