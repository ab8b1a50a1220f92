//! The order of file names.
//!
//! A file name is read as the parts between its slashes. Slashes that
//! repeat, a slash at the end and a part that is a single dot say nothing
//! and are passed over; only a dot that the name starts with counts. Two
//! names are ordered part by part.

use vstd::prelude::*;
use vstd::slice::{slice_subrange, slice_to_vec};
use crate::text::{byte_order, compare_bytes, Comparison};

verus! {

/// The byte that parts a file name.
pub const SLASH: u8 = 47;

/// The byte of a dot.
pub const DOT: u8 = 46;

/// One part of a file name.
#[derive(Debug)]
pub enum Part {
    /// The slash that an absolute name starts with.
    Root,
    /// The dot that a name starts with.
    Current,
    /// Two dots: the directory above.
    Parent,
    /// Any other name.
    Normal(Vec<u8>),
}

/// What a `Part` stands for.
pub ghost enum PartModel {
    Root,
    Current,
    Parent,
    Normal(Seq<u8>),
}

impl View for Part {
    type V = PartModel;

    open spec fn view(&self) -> PartModel {
        match self {
            Part::Root => PartModel::Root,
            Part::Current => PartModel::Current,
            Part::Parent => PartModel::Parent,
            Part::Normal(name) => PartModel::Normal(name@),
        }
    }
}

/// What a vector of parts stands for, part by part.
pub open spec fn parts_model(parts: Vec<Part>) -> Seq<PartModel> {
    Seq::new(parts.len() as nat, |i: int| parts[i]@)
}

impl PartModel {
    /// The place of the kind of part in the order of kinds: the root first,
    /// then the dot, then the two dots, then the names.
    pub open spec fn rank(self) -> int {
        match self {
            PartModel::Root => 0,
            PartModel::Current => 1,
            PartModel::Parent => 2,
            PartModel::Normal(_) => 3,
        }
    }
}

/// The part that the stretch `segment` between two slashes is, if it is
/// one. `leading` says whether the name starts with the stretch.
pub open spec fn segment_part(segment: Seq<u8>, leading: bool) -> Option<PartModel> {
    if segment.len() == 0 {
        None
    } else if segment == seq![DOT] {
        if leading {
            Some(PartModel::Current)
        } else {
            None
        }
    } else if segment == seq![DOT, DOT] {
        Some(PartModel::Parent)
    } else {
        Some(PartModel::Normal(segment))
    }
}

/// The part of an optional part, as a sequence of one part or none.
pub open spec fn one_or_none(part: Option<PartModel>) -> Seq<PartModel> {
    match part {
        Some(p) => seq![p],
        None => Seq::empty(),
    }
}

/// The parts of the name from the stretch that starts at `start` on, when
/// the bytes up to `i` have been looked at and no slash stood between the
/// two.
pub open spec fn parts_from(name: Seq<u8>, start: int, i: int) -> Seq<PartModel>
    decreases name.len() - i,
{
    if i < 0 || i >= name.len() {
        one_or_none(segment_part(name.subrange(start, name.len() as int), start == 0))
    } else if name[i] == SLASH {
        one_or_none(segment_part(name.subrange(start, i), start == 0)) + parts_from(
            name,
            i + 1,
            i + 1,
        )
    } else {
        parts_from(name, start, i + 1)
    }
}

/// The parts of a file name: the root where the name starts with a slash,
/// then the parts between the slashes.
pub open spec fn path_parts(name: Seq<u8>) -> Seq<PartModel> {
    (if name.len() > 0 && name[0] == SLASH {
        seq![PartModel::Root]
    } else {
        Seq::empty()
    }) + parts_from(name, 0, 0)
}

/// The order of two parts: by kind, and two names by their bytes.
pub open spec fn part_order(a: PartModel, b: PartModel) -> Comparison {
    if a.rank() < b.rank() {
        Comparison::Less
    } else if a.rank() > b.rank() {
        Comparison::Greater
    } else {
        match (a, b) {
            (PartModel::Normal(x), PartModel::Normal(y)) => byte_order(x, y),
            _ => Comparison::Equal,
        }
    }
}

/// The order of two runs of parts: part by part from the front, a proper
/// prefix before what it is a prefix of.
pub open spec fn parts_order(a: Seq<PartModel>, b: Seq<PartModel>) -> Comparison
    decreases a.len(),
{
    if a.len() == 0 {
        if b.len() == 0 {
            Comparison::Equal
        } else {
            Comparison::Less
        }
    } else if b.len() == 0 {
        Comparison::Greater
    } else {
        match part_order(a[0], b[0]) {
            Comparison::Equal => parts_order(a.skip(1), b.skip(1)),
            o => o,
        }
    }
}

/// The order of two file names: that of their parts.
pub open spec fn path_order(a: Seq<u8>, b: Seq<u8>) -> Comparison {
    parts_order(path_parts(a), path_parts(b))
}

fn part_of(name: &[u8], start: usize, end: usize) -> (r: Option<Part>)
    requires
        start <= end <= name.len(),
    ensures
        match r {
            Some(p) => segment_part(name@.subrange(start as int, end as int), start == 0) == Some(
                p@,
            ),
            None => segment_part(name@.subrange(start as int, end as int), start == 0) is None,
        },
{
    let ghost segment = name@.subrange(start as int, end as int);
    let len: usize = end - start;
    if len == 0 {
        None
    } else if len == 1 && name[start] == DOT {
        assert(segment =~= seq![DOT]);
        if start == 0 {
            Some(Part::Current)
        } else {
            None
        }
    } else if len == 2 && name[start] == DOT && name[start + 1] == DOT {
        assert(segment =~= seq![DOT, DOT]);
        Some(Part::Parent)
    } else {
        assert(segment != seq![DOT]) by {
            if segment == seq![DOT] {
                assert(segment.len() == 1 && segment[0] == DOT);
            }
        }
        assert(segment != seq![DOT, DOT]) by {
            if segment == seq![DOT, DOT] {
                assert(segment.len() == 2 && segment[0] == DOT && segment[1] == DOT);
            }
        }
        Some(Part::Normal(slice_to_vec(slice_subrange(name, start, end))))
    }
}

/// The parts of a file name.
pub fn parts_of(name: &[u8]) -> (parts: Vec<Part>)
    ensures
        parts_model(parts) == path_parts(name@),
{
    let mut parts: Vec<Part> = Vec::new();
    if name.len() > 0 && name[0] == SLASH {
        parts.push(Part::Root);
    }
    let ghost head = parts_model(parts);
    assert(head + parts_from(name@, 0, 0) =~= path_parts(name@));
    let mut start: usize = 0;
    let mut i: usize = 0;
    while i < name.len()
        invariant
            start <= i <= name.len(),
            parts_model(parts) + parts_from(name@, start as int, i as int) == path_parts(name@),
        decreases name.len() - i,
    {
        if name[i] == SLASH {
            let ghost held = parts_model(parts);
            match part_of(name, start, i) {
                Some(part) => {
                    parts.push(part);
                    assert(parts_model(parts) =~= held + seq![part@]);
                },
                None => {},
            }
            start = i + 1;
            assert(parts_model(parts) + parts_from(name@, i + 1, i + 1) =~= path_parts(name@));
        }
        i = i + 1;
    }
    let ghost held = parts_model(parts);
    match part_of(name, start, name.len()) {
        Some(part) => {
            parts.push(part);
            assert(parts_model(parts) =~= held + seq![part@]);
        },
        None => {
            assert(held + Seq::<PartModel>::empty() =~= held);
        },
    }
    parts
}

fn compare_parts(a: &Part, b: &Part) -> (r: Comparison)
    ensures
        r == part_order(a@, b@),
{
    match (a, b) {
        (Part::Normal(x), Part::Normal(y)) => compare_bytes(x.as_slice(), y.as_slice()),
        (Part::Normal(_), _) => Comparison::Greater,
        (_, Part::Normal(_)) => Comparison::Less,
        (Part::Parent, Part::Parent) => Comparison::Equal,
        (Part::Parent, _) => Comparison::Greater,
        (_, Part::Parent) => Comparison::Less,
        (Part::Current, Part::Current) => Comparison::Equal,
        (Part::Current, _) => Comparison::Greater,
        (_, Part::Current) => Comparison::Less,
        (Part::Root, Part::Root) => Comparison::Equal,
    }
}

/// Compares two file names part by part.
pub fn compare_paths(a: &[u8], b: &[u8]) -> (r: Comparison)
    ensures
        r == path_order(a@, b@),
{
    let left = parts_of(a);
    let right = parts_of(b);
    let ghost am = parts_model(left);
    let ghost bm = parts_model(right);
    let mut i: usize = 0;
    assert(am.skip(0) =~= am);
    assert(bm.skip(0) =~= bm);
    while i < left.len() && i < right.len()
        invariant
            i <= left.len(),
            i <= right.len(),
            am == parts_model(left),
            bm == parts_model(right),
            am == path_parts(a@),
            bm == path_parts(b@),
            parts_order(am, bm) == parts_order(am.skip(i as int), bm.skip(i as int)),
        decreases left.len() - i,
    {
        assert(am.skip(i as int)[0] == left[i as int]@);
        assert(bm.skip(i as int)[0] == right[i as int]@);
        match compare_parts(&left[i], &right[i]) {
            Comparison::Equal => {},
            o => {
                return o;
            },
        }
        assert(am.skip(i as int).skip(1) =~= am.skip(i + 1));
        assert(bm.skip(i as int).skip(1) =~= bm.skip(i + 1));
        i = i + 1;
    }
    if i < right.len() {
        Comparison::Less
    } else if i < left.len() {
        Comparison::Greater
    } else {
        Comparison::Equal
    }
}

} // verus!
