//! The files that a value names.

use vstd::prelude::*;
use vstd::string::*;
use vstd::utf8::encode_utf8;
use crate::errors::JobError;
use crate::glob::glob_matches;
use crate::value::{FilePath, Value, ValueModel};

verus! {

/// The paths in a vector of files, file by file.
pub open spec fn paths_model(files: Vec<FilePath>) -> Seq<Seq<u8>> {
    Seq::new(files.len() as nat, |i: int| files[i].bytes@)
}

/// The names of a vector of strings.
pub open spec fn names_model(names: Vec<String>) -> Seq<Seq<char>> {
    Seq::new(names.len() as nat, |i: int| names[i]@)
}

/// The first `n` of `names` that the pattern matches, as paths, in their
/// order.
pub open spec fn matching(names: Seq<Seq<char>>, pattern: Seq<char>, n: int) -> Seq<Seq<u8>>
    decreases n,
{
    if n <= 0 {
        Seq::empty()
    } else if glob_matches(pattern, names[n - 1]) {
        matching(names, pattern, n - 1).push(encode_utf8(names[n - 1]))
    } else {
        matching(names, pattern, n - 1)
    }
}

/// The paths that a value names, where it names files: a text and a file
/// name one, a glob those of `names` that it matches.
pub open spec fn files_named(v: ValueModel, names: Seq<Seq<char>>) -> Option<Seq<Seq<u8>>> {
    match v {
        ValueModel::Text(s) => Some(seq![encode_utf8(s)]),
        ValueModel::File(p) => Some(seq![p]),
        ValueModel::Glob(g) => Some(matching(names, g, names.len() as int)),
        _ => None,
    }
}

impl Value {
    /// Adds the files that the value names to `v`. A glob is held against
    /// `names`, the names of the files in the working directory. A value of
    /// any other kind than text, file and glob names no file.
    pub fn file_expand(&self, v: &mut Vec<FilePath>, names: &Vec<String>) -> (r: Result<
        (),
        JobError,
    >)
        ensures
            match r {
                Ok(_) => files_named(self@, names_model(*names)) is Some && paths_model(*final(v))
                    == paths_model(*old(v)) + files_named(self@, names_model(*names))->0,
                Err(e) => e == JobError::ExpectedFileName && files_named(
                    self@,
                    names_model(*names),
                ) is None && *final(v) == *old(v),
            },
    {
        let ghost before = paths_model(*v);
        match self {
            Value::Text(s) => {
                v.push(FilePath { bytes: s.as_str().as_bytes_vec() });
            },
            Value::File(p) => {
                let mut bytes: Vec<u8> = Vec::new();
                let mut i: usize = 0;
                while i < p.bytes.len()
                    invariant
                        i <= p.bytes.len(),
                        bytes@ == p.bytes@.subrange(0, i as int),
                    decreases p.bytes.len() - i,
                {
                    bytes.push(p.bytes[i]);
                    i = i + 1;
                }
                assert(bytes@ =~= p.bytes@);
                v.push(FilePath { bytes });
            },
            Value::Glob(pattern) => {
                let ghost all = names_model(*names);
                let mut i: usize = 0;
                while i < names.len()
                    invariant
                        i <= names.len(),
                        all == names_model(*names),
                        before == paths_model(*old(v)),
                        paths_model(*v) == before + matching(all, pattern@, i as int),
                    decreases names.len() - i,
                {
                    let ghost held = paths_model(*v);
                    if pattern.matches(names[i].as_str()) {
                        v.push(FilePath { bytes: names[i].as_str().as_bytes_vec() });
                        assert(paths_model(*v) =~= held.push(encode_utf8(all[i as int])));
                    }
                    i = i + 1;
                }
            },
            _ => {
                return Err(JobError::ExpectedFileName);
            },
        }
        Ok(())
    }
}

} // verus!
