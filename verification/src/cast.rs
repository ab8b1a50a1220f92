//! Casting a value to another type.
//!
//! A cast to the value's own type gives the value back. Every other cast
//! goes through text: the value offers its text, and the target type reads
//! it. Only the pairs of `supported` exist.

use vstd::prelude::*;
use vstd::string::*;
use vstd::utf8::{
    decode_utf8_encode_utf8, encode_utf8, encode_utf8_decode_utf8, encode_utf8_valid_utf8,
};
use crate::errors::JobError;
use crate::glob::Glob;
use crate::text::{
    decimal_text, integer_of, integer_text, lemma_decimal_text_reads_back, parse_integer,
};
use crate::type_syntax::{lemma_parse_type_prints_back, parse_type, type_text};
use crate::types::{TypeModel, ValueType};
use crate::value::{texts_model, FilePath, Value, ValueModel};
use crate::value_text::{path_text, value_text};

verus! {

/// `regex::Error`, the reason why a pattern was not compiled. Nothing is
/// known of what is inside one.
#[verifier::external_type_specification]
#[verifier::external_body]
pub struct ExRegexError(regex::Error);

/// `regex::Regex::new`: compiles the pattern, or says why it cannot. Whether
/// a pattern is accepted is for the `regex` crate to say. It refuses a
/// pattern whose compiled form is over its size limit, and it reckons that
/// size in units that differ between machines of 32 and of 64 bits: the
/// same pattern may be taken on one and refused on the other. So nothing is
/// claimed here, and what is accepted has no name.
#[verifier::external_body]
fn compile(pattern: &str) -> (r: Result<regex::Regex, regex::Error>) {
    regex::Regex::new(pattern)
}

/// Whether a value of type `from` can be cast to the other type `to`.
pub open spec fn supported(from: TypeModel, to: TypeModel) -> bool {
    match from {
        TypeModel::Text => to is File || to is Glob || to is Integer || to is Field || to is Op
            || to is Regex || to is Type,
        TypeModel::File => to is Text || to is Glob || to is Integer || to is Op || to is Regex,
        TypeModel::Glob => to is Text || to is File || to is Integer || to is Op || to is Regex,
        TypeModel::Regex => to is File || to is Glob || to is Integer || to is Text || to is Op,
        TypeModel::Integer => to is Text || to is File || to is Glob || to is Field || to is Op
            || to is Regex,
        TypeModel::Type => to is Text,
        _ => false,
    }
}

/// The text that a value offers to a cast: a text itself, the name of a
/// file where it is text, the pattern of a glob or of a regular expression,
/// the numeral of an integer, the text of a type.
pub open spec fn source_text(v: ValueModel) -> Result<Seq<char>, JobError> {
    match v {
        ValueModel::Text(s) => Ok(s),
        ValueModel::File(bytes) => match path_text(bytes) {
            Some(s) => Ok(s),
            None => Err(JobError::BrokenFileName),
        },
        ValueModel::Glob(p) => Ok(p),
        ValueModel::Regex(s) => Ok(s),
        ValueModel::Integer(i) => Ok(decimal_text(i)),
        ValueModel::Type(t) => Ok(type_text(t)),
        _ => Err(JobError::UnsupportedConversion),
    }
}

/// The value of type `to` that the text `s` is read as. `accepted` says
/// whether the compiler of regular expressions takes `s`.
pub open spec fn from_text(s: Seq<char>, to: TypeModel, accepted: bool) -> Result<
    ValueModel,
    JobError,
> {
    match to {
        TypeModel::Text => Ok(ValueModel::Text(s)),
        TypeModel::File => Ok(ValueModel::File(encode_utf8(s))),
        TypeModel::Glob => Ok(ValueModel::Glob(s)),
        TypeModel::Integer => match integer_of(s) {
            Some(i) => Ok(ValueModel::Integer(i)),
            None => Err(JobError::InvalidInteger),
        },
        TypeModel::Field => Ok(ValueModel::Field(seq![s])),
        TypeModel::Op => Ok(ValueModel::Op(s)),
        TypeModel::Regex => if accepted {
            Ok(ValueModel::Regex(s))
        } else {
            Err(JobError::InvalidRegex)
        },
        TypeModel::Type => match parse_type(s) {
            Some(t) => Ok(ValueModel::Type(t)),
            None => Err(JobError::InvalidType),
        },
        _ => Err(JobError::UnsupportedConversion),
    }
}

/// What casting `v` to the type `to` gives. `accepted` says whether the
/// compiler of regular expressions takes the text of `v`; it matters only
/// for a cast to a regular expression.
pub open spec fn cast_model(v: ValueModel, to: TypeModel, accepted: bool) -> Result<
    ValueModel,
    JobError,
> {
    if v.value_type() == to {
        Ok(v)
    } else if !supported(v.value_type(), to) {
        Err(JobError::UnsupportedConversion)
    } else {
        match source_text(v) {
            Ok(s) => from_text(s, to, accepted),
            Err(e) => Err(e),
        }
    }
}

/// The model of the outcome of a cast.
pub open spec fn outcome_model(r: Result<Value, JobError>) -> Result<ValueModel, JobError> {
    match r {
        Ok(v) => Ok(v@),
        Err(e) => Err(e),
    }
}

/// Whether a value of type `from` can be cast to the other type `to`.
pub fn is_supported(from: &ValueType, to: &ValueType) -> (r: bool)
    ensures
        r == supported(from@, to@),
{
    match from {
        ValueType::Text => match to {
            ValueType::File => true,
            ValueType::Glob => true,
            ValueType::Integer => true,
            ValueType::Field => true,
            ValueType::Op => true,
            ValueType::Regex => true,
            ValueType::Type => true,
            _ => false,
        },
        ValueType::File => match to {
            ValueType::Text => true,
            ValueType::Glob => true,
            ValueType::Integer => true,
            ValueType::Op => true,
            ValueType::Regex => true,
            _ => false,
        },
        ValueType::Glob => match to {
            ValueType::Text => true,
            ValueType::File => true,
            ValueType::Integer => true,
            ValueType::Op => true,
            ValueType::Regex => true,
            _ => false,
        },
        ValueType::Regex => match to {
            ValueType::File => true,
            ValueType::Glob => true,
            ValueType::Integer => true,
            ValueType::Text => true,
            ValueType::Op => true,
            _ => false,
        },
        ValueType::Integer => match to {
            ValueType::Text => true,
            ValueType::File => true,
            ValueType::Glob => true,
            ValueType::Field => true,
            ValueType::Op => true,
            ValueType::Regex => true,
            _ => false,
        },
        ValueType::Type => match to {
            ValueType::Text => true,
            _ => false,
        },
        _ => false,
    }
}

/// Reads the text `s` as a value of type `to`. `compiled` is what the
/// compiler of regular expressions made of `s`, where it made anything.
pub fn read_text(s: String, to: &ValueType, compiled: Option<regex::Regex>) -> (r: Result<
    Value,
    JobError,
>)
    ensures
        outcome_model(r) == from_text(s@, to@, compiled is Some),
{
    match to {
        ValueType::Text => Ok(Value::Text(s)),
        ValueType::File => Ok(Value::File(FilePath { bytes: s.as_str().as_bytes_vec() })),
        ValueType::Glob => Ok(Value::Glob(Glob { original: s })),
        ValueType::Integer => match parse_integer(s.as_str()) {
            Some(i) => Ok(Value::Integer(i)),
            None => Err(JobError::InvalidInteger),
        },
        ValueType::Field => {
            let mut parts: Vec<String> = Vec::new();
            parts.push(s);
            assert(texts_model(parts) =~= seq![s@]);
            Ok(Value::Field(parts))
        },
        ValueType::Op => Ok(Value::Op(s)),
        ValueType::Regex => match compiled {
            Some(regex) => Ok(Value::Regex(s, regex)),
            None => Err(JobError::InvalidRegex),
        },
        ValueType::Type => match ValueType::parse(s.as_str()) {
            Ok(t) => Ok(Value::Type(t)),
            Err(e) => Err(e),
        },
        _ => Err(JobError::UnsupportedConversion),
    }
}

impl Value {
    /// The text that the value offers to a cast.
    pub fn source_text(&self) -> (r: Result<String, JobError>)
        ensures
            match r {
                Ok(s) => source_text(self@) == Ok::<Seq<char>, JobError>(s@),
                Err(e) => source_text(self@) == Err::<Seq<char>, JobError>(e),
            },
    {
        match self {
            Value::Text(s) => Ok(s.clone()),
            Value::File(f) => match f.to_str() {
                Some(s) => Ok(String::from_str(s)),
                None => Err(JobError::BrokenFileName),
            },
            Value::Glob(g) => Ok(g.to_string()),
            Value::Regex(s, _) => Ok(s.clone()),
            Value::Integer(i) => Ok(integer_text(*i)),
            Value::Type(t) => Ok(t.to_string()),
            _ => Err(JobError::UnsupportedConversion),
        }
    }

    /// Casts the value to the type `new_type`, given what the compiler of
    /// regular expressions made of the value's text, where it made anything.
    pub fn cast_with(self, new_type: ValueType, compiled: Option<regex::Regex>) -> (r: Result<
        Value,
        JobError,
    >)
        ensures
            outcome_model(r) == cast_model(self@, new_type@, compiled is Some),
    {
        let from = self.value_type();
        if from.same(&new_type) {
            return Ok(self);
        }
        if !is_supported(&from, &new_type) {
            return Err(JobError::UnsupportedConversion);
        }
        match self.source_text() {
            Ok(s) => read_text(s, &new_type, compiled),
            Err(e) => Err(e),
        }
    }

    /// Casts the value to the type `new_type`. A cast to the value's own
    /// type gives the value back; a cast between two types that `supported`
    /// does not list fails. A cast to a regular expression succeeds where
    /// the compiler of regular expressions takes the text.
    pub fn cast(self, new_type: ValueType) -> (r: Result<Value, JobError>)
        ensures
            outcome_model(r) == cast_model(self@, new_type@, true) || outcome_model(r)
                == cast_model(self@, new_type@, false),
    {
        let compiled = match (&new_type, self.source_text()) {
            (ValueType::Regex, Ok(s)) => match compile(s.as_str()) {
                Ok(regex) => Some(regex),
                Err(_) => None,
            },
            _ => None,
        };
        self.cast_with(new_type, compiled)
    }
}

/// Whether the text of `v` is the canonical numeral of the integer that it
/// writes.
pub open spec fn offers_canonical_numeral(v: ValueModel) -> bool {
    match source_text(v) {
        Ok(s) => match integer_of(s) {
            Some(i) => s == decimal_text(i),
            None => false,
        },
        Err(_) => false,
    }
}

/// A cast between two types that are not listed as a pair fails, and the
/// failure is a conversion error.
pub proof fn lemma_unlisted_cast_fails(v: ValueModel, to: TypeModel, accepted: bool)
    requires
        v.value_type() != to,
        !supported(v.value_type(), to),
    ensures
        cast_model(v, to, accepted) == Err::<ValueModel, JobError>(JobError::UnsupportedConversion),
        JobError::UnsupportedConversion.spec_kind() == crate::errors::ErrorKind::Conversion,
{
}

/// Whether the way back from a cast of `v` is open: an integer fits into
/// 128 bits, a type is one that its text names, and the compiler of regular
/// expressions takes the text of a regular expression again. Nothing is
/// asked of a text, a file or a glob.
pub open spec fn way_back_is_open(v: ValueModel, back: bool) -> bool {
    match v {
        ValueModel::Integer(i) => i128::MIN <= i <= i128::MAX,
        ValueModel::Type(t) => parse_type(type_text(t)) is Some,
        ValueModel::Regex(_) => back,
        _ => true,
    }
}

/// Casting a value to another type and back succeeds and keeps the text of
/// the value, whatever the compiler of regular expressions said on the way
/// there. The one case left out is a cast to an integer of a text that is
/// not the canonical numeral of that integer (a numeral with a plus sign or
/// with leading zeros): the way back writes the canonical numeral.
pub proof fn lemma_cast_round_trip(v: ValueModel, to: TypeModel, there: bool, back: bool)
    requires
        supported(v.value_type(), to),
        supported(to, v.value_type()),
        cast_model(v, to, there) is Ok,
        way_back_is_open(v, back),
        to is Integer ==> offers_canonical_numeral(v),
    ensures
        cast_model(cast_model(v, to, there)->Ok_0, v.value_type(), back) is Ok,
        value_text(cast_model(cast_model(v, to, there)->Ok_0, v.value_type(), back)->Ok_0)
            == value_text(v),
{
    let s = source_text(v)->Ok_0;
    let w = cast_model(v, to, there)->Ok_0;
    let t = source_text(w)->Ok_0;
    encode_utf8_valid_utf8(s);
    encode_utf8_decode_utf8(s);
    assert(t == s) by {
        if to is Type {
            lemma_parse_type_prints_back(s);
        }
    }
    match v {
        ValueModel::Integer(i) => {
            lemma_decimal_text_reads_back(i);
        },
        ValueModel::File(bytes) => {
            decode_utf8_encode_utf8(bytes);
        },
        ValueModel::Type(ty) => {
            lemma_parse_type_prints_back(s);
        },
        _ => {},
    }
}

} // verus!
