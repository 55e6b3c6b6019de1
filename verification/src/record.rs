//! Records: texts cut into segments, one per field, which are decoded in
//! order until the first that fails.

use crate::error::{Error, Failure};
use crate::text::texts;
use vstd::prelude::*;

verus! {

/// How the field that reads segment `i` fails, given what decoding that
/// segment gives: for want of data where the record has no such segment,
/// else as the segment's decoder does; none where it does not fail.
pub open spec fn field_failure<T>(segments: Seq<Seq<char>>, i: int, decoded: Result<
    T,
    Error,
>) -> Option<Error> {
    if i >= segments.len() {
        Some(Error::InsufficientData)
    } else {
        match decoded {
            Ok(_) => None,
            Err(e) => Some(e),
        }
    }
}

/// The failure of the first field from `from` up to `to` that fails; none
/// where none of them does.
pub open spec fn first_failure(failure: spec_fn(int) -> Option<Error>, from: int, to: int) -> Option<
    Error,
>
    decreases to - from,
{
    if from >= to {
        None
    } else if failure(from) is Some {
        failure(from)
    } else {
        first_failure(failure, from + 1, to)
    }
}

/// The position of the first field from `from` up to `to` that fails;
/// none where none of them does.
pub open spec fn first_failing(failure: spec_fn(int) -> Option<Error>, from: int, to: int) -> Option<
    int,
>
    decreases to - from,
{
    if from >= to {
        None
    } else if failure(from) is Some {
        Some(from)
    } else {
        first_failing(failure, from + 1, to)
    }
}

/// Whether none of the first `n` fields fails.
pub open spec fn none_fails(failure: spec_fn(int) -> Option<Error>, n: int) -> bool {
    forall|j: int| 0 <= j < n ==> (#[trigger] failure(j)) is None
}

/// Where no field before `i` fails, a failure of field `i` is the first,
/// and its success leaves the fields up to `i` without failure.
pub proof fn lemma_next_field(failure: spec_fn(int) -> Option<Error>, fields: int, i: int)
    requires
        0 <= i < fields,
        none_fails(failure, i),
    ensures
        failure(i) is Some ==> first_failure(failure, 0, fields) == failure(i),
        failure(i) is Some ==> first_failing(failure, 0, fields) == Some(i),
        failure(i) is None ==> none_fails(failure, i + 1),
{
    lemma_first_failure_from(failure, 0, fields, i);
}

/// Where the fields from `from` up to `i` do not fail, the first failure
/// from `from` on is the first from `i` on.
proof fn lemma_first_failure_from(
    failure: spec_fn(int) -> Option<Error>,
    from: int,
    fields: int,
    i: int,
)
    requires
        0 <= from <= i <= fields,
        forall|j: int| from <= j < i ==> (#[trigger] failure(j)) is None,
    ensures
        first_failure(failure, from, fields) == first_failure(failure, i, fields),
        first_failing(failure, from, fields) == first_failing(failure, i, fields),
    decreases i - from,
{
    if from < i {
        assert(failure(from) is None);
        lemma_first_failure_from(failure, from + 1, fields, i);
    }
}

/// Where no field fails, there is no first failure.
pub proof fn lemma_no_failure(failure: spec_fn(int) -> Option<Error>, fields: int)
    requires
        0 <= fields,
        none_fails(failure, fields),
    ensures
        first_failure(failure, 0, fields) is None,
        first_failing(failure, 0, fields) is None,
{
    lemma_first_failure_from(failure, 0, fields, fields);
}

/// Where there is no first failure, no field fails.
pub proof fn lemma_all_succeed(failure: spec_fn(int) -> Option<Error>, from: int, fields: int)
    requires
        0 <= from <= fields,
        first_failure(failure, from, fields) is None,
    ensures
        forall|j: int| from <= j < fields ==> (#[trigger] failure(j)) is None,
    decreases fields - from,
{
    if from < fields {
        lemma_all_succeed(failure, from + 1, fields);
    }
}

/// Segment `i` of a record, or the want of it.
pub fn segment(segments: &Vec<String>, i: usize) -> (r: Result<&str, Error>)
    ensures
        i < segments.len() ==> (r matches Ok(s) && s@ == texts(segments@)[i as int]),
        i >= segments.len() ==> (r matches Err(e) && e == Error::InsufficientData),
{
    if i < segments.len() {
        Ok(segments[i].as_str())
    } else {
        Err(Error::InsufficientData)
    }
}

/// Marks a failure as that of field `i`.
pub fn at<T>(i: usize, r: Result<T, Error>) -> (out: Result<T, Failure>)
    ensures
        match r {
            Ok(v) => out == Ok::<T, Failure>(v),
            Err(e) => out matches Err(f) && f.error == e && f.path@ == seq![i],
        },
{
    match r {
        Ok(v) => Ok(v),
        Err(error) => {
            let mut path: Vec<usize> = Vec::new();
            path.push(i);
            Err(Failure { error, path })
        },
    }
}

/// Marks a failure inside the record at field `i` as one under that field.
pub fn under<T>(i: usize, r: Result<T, Failure>) -> (out: Result<T, Failure>)
    ensures
        match r {
            Ok(v) => out == Ok::<T, Failure>(v),
            Err(f) => out matches Err(g) && g.error == f.error && g.path@ == seq![i] + f.path@,
        },
{
    match r {
        Ok(v) => Ok(v),
        Err(f) => {
            let Failure { error, path: mut path } = f;
            let ghost inner = path@;
            path.insert(0, i);
            proof {
                assert(path@ =~= seq![i] + inner);
            }
            Err(Failure { error, path })
        },
    }
}

/// Drops the place of a failure.
pub fn unplaced<T>(r: Result<T, Failure>) -> (out: Result<T, Error>)
    ensures
        match r {
            Ok(v) => out == Ok::<T, Error>(v),
            Err(f) => out matches Err(e) && e == f.error,
        },
{
    match r {
        Ok(v) => Ok(v),
        Err(f) => Err(f.error),
    }
}

} // verus!
