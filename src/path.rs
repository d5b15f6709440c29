//! Paths into a session document, and the path/value pairs that a preset
//! option holds.
use vstd::prelude::*;

use crate::json::{Json, JsonValue, json_eq, field_of};

verus! {

/// One step of a path: a field of an object or an element of an array.
#[derive(Debug)]
pub enum PathSegment {
    Name(String),
    Index(usize),
}

impl PathSegment {
    /// A copy of this segment.
    pub fn duplicate(&self) -> (r: PathSegment)
        ensures
            r == *self,
    {
        match self {
            PathSegment::Name(n) => PathSegment::Name(n.clone()),
            PathSegment::Index(i) => PathSegment::Index(*i),
        }
    }
}

/// The model of a path/value pair: the path and the value's model.
pub type Modifier = (Seq<PathSegment>, Json);

/// A value to be found, or to be written, at a path of the session document.
#[derive(Debug)]
pub struct PathValuePair {
    pub path: Vec<PathSegment>,
    pub value: JsonValue,
}

impl View for PathValuePair {
    type V = Modifier;

    open spec fn view(&self) -> Modifier {
        (self.path@, self.value@)
    }
}

/// The models of a list of pairs.
pub open spec fn pairs_view(pairs: Seq<PathValuePair>) -> Seq<Modifier> {
    pairs.map_values(|p: PathValuePair| p@)
}

/// The node that one segment leads to from `v`, if any.
pub open spec fn step(v: Json, seg: PathSegment) -> Option<Json> {
    match seg {
        PathSegment::Name(name) => match v {
            Json::Object(fs) => field_of(fs, name@),
            _ => None,
        },
        PathSegment::Index(i) => match v {
            Json::Array(xs) => if i < xs.len() {
                Some(xs[i as int])
            } else {
                None
            },
            _ => None,
        },
    }
}

/// The node reached from `v` by following `path` from its `k`-th segment on.
pub open spec fn navigate_from(v: Json, path: Seq<PathSegment>, k: int) -> Option<Json>
    decreases path.len() - k,
{
    if k < 0 || k >= path.len() {
        Some(v)
    } else {
        match step(v, path[k]) {
            Some(next) => navigate_from(next, path, k + 1),
            None => None,
        }
    }
}

/// The node that `path` designates in the document `doc`. The first segment
/// names the document itself and is skipped.
pub open spec fn resolve(doc: Json, path: Seq<PathSegment>) -> Option<Json> {
    navigate_from(doc, path, 1)
}

/// The document holds, at the pair's path, a value semantically equal to
/// the pair's value.
pub open spec fn modifier_holds(doc: Json, m: Modifier) -> bool {
    match resolve(doc, m.0) {
        Some(v) => json_eq(v, m.1),
        None => false,
    }
}

/// The node of `v` that one segment leads to, as `step` states it.
pub fn step_into<'a>(v: &'a JsonValue, seg: &PathSegment) -> (r: Option<&'a JsonValue>)
    ensures
        match r {
            Some(n) => step(v@, *seg) == Some(n@),
            None => step(v@, *seg) is None,
        },
{
    match seg {
        PathSegment::Name(name) => v.get_field(name),
        PathSegment::Index(i) => v.get_index(*i),
    }
}

/// The node that `path` designates in `doc`, as `resolve` states it.
pub fn resolve_path<'a>(doc: &'a JsonValue, path: &Vec<PathSegment>) -> (r: Option<&'a JsonValue>)
    ensures
        match r {
            Some(n) => resolve(doc@, path@) == Some(n@),
            None => resolve(doc@, path@) is None,
        },
{
    let mut cur: &JsonValue = doc;
    let mut k: usize = 1;
    if path.len() == 0 {
        return Some(doc);
    }
    while k < path.len()
        invariant
            1 <= k <= path.len(),
            resolve(doc@, path@) == navigate_from(cur@, path@, k as int),
        decreases path.len() - k,
    {
        match step_into(cur, &path[k]) {
            Some(next) => {
                cur = next;
            },
            None => {
                return None;
            },
        }
        k = k + 1;
    }
    Some(cur)
}

/// Whether `doc` holds the pair, as `modifier_holds` states it.
pub fn pair_holds(doc: &JsonValue, pair: &PathValuePair) -> (r: bool)
    ensures
        r == modifier_holds(doc@, pair@),
{
    match resolve_path(doc, &pair.path) {
        Some(v) => crate::json::json_values_eq(v, &pair.value),
        None => false,
    }
}

/// A copy of a path.
pub fn copy_path(path: &Vec<PathSegment>) -> (r: Vec<PathSegment>)
    ensures
        r@ == path@,
{
    let mut out: Vec<PathSegment> = Vec::new();
    let mut i: usize = 0;
    while i < path.len()
        invariant
            0 <= i <= path.len(),
            out@ == path@.subrange(0, i as int),
        decreases path.len() - i,
    {
        out.push(path[i].duplicate());
        i = i + 1;
        assert(out@ =~= path@.subrange(0, i as int));
    }
    assert(out@ =~= path@);
    out
}

impl PathValuePair {
    /// A copy of this pair with the same model.
    pub fn deep_copy(&self) -> (r: PathValuePair)
        ensures
            r@ == self@,
    {
        PathValuePair { path: copy_path(&self.path), value: self.value.deep_copy() }
    }
}

/// A copy of a list of pairs with the same models.
pub fn copy_pairs(pairs: &Vec<PathValuePair>) -> (r: Vec<PathValuePair>)
    ensures
        pairs_view(r@) == pairs_view(pairs@),
{
    let mut out: Vec<PathValuePair> = Vec::new();
    let mut i: usize = 0;
    while i < pairs.len()
        invariant
            0 <= i <= pairs.len(),
            out.len() == i,
            pairs_view(out@) == pairs_view(pairs@).subrange(0, i as int),
        decreases pairs.len() - i,
    {
        out.push(pairs[i].deep_copy());
        i = i + 1;
        assert(pairs_view(out@) =~= pairs_view(pairs@).subrange(0, i as int));
    }
    assert(pairs_view(out@) =~= pairs_view(pairs@));
    out
}

} // verus!
