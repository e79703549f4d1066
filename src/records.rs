use crate::error::KissDockerError;
use vstd::prelude::*;

verus! {

/// `i` is the first position of `decoded` that failed to decode.
pub open spec fn first_failure<T>(decoded: Seq<Result<T, serde_json::Error>>, i: int) -> bool {
    &&& 0 <= i < decoded.len()
    &&& decoded[i] is Err
    &&& forall|j: int| 0 <= j < i ==> decoded[j] is Ok
}

/// The records of `decoded`, where each line decoded.
pub open spec fn decoded_values<T>(decoded: Seq<Result<T, serde_json::Error>>) -> Seq<T> {
    decoded.map_values(|d: Result<T, serde_json::Error>| d->Ok_0)
}

/// The records of a listing, given how each of its lines decoded, in order: all
/// of them when every line decoded, else the failure of the first line that did
/// not, and no record at all.
pub fn collect_records<T>(decoded: Vec<Result<T, serde_json::Error>>) -> (r: Result<
    Vec<T>,
    KissDockerError,
>)
    ensures
        match r {
            Ok(v) => (forall|i: int| 0 <= i < decoded@.len() ==> decoded@[i] is Ok) && v@
                == decoded_values(decoded@),
            Err(e) => exists|i: int|
                first_failure(decoded@, i) && e == KissDockerError::SerdeError(
                    decoded@[i]->Err_0,
                ),
        },
{
    let ghost all = decoded@;
    let mut out: Vec<T> = Vec::new();
    for d in it: decoded.into_iter()
        invariant
            it.seq() == all,
            forall|j: int| 0 <= j < it.index() ==> all[j] is Ok,
            out@ == decoded_values(all.take(it.index() as int)),
    {
        let ghost k = it.index();
        match d {
            Ok(v) => {
                out.push(v);
                assert(decoded_values(all.take(k + 1)) =~= decoded_values(all.take(k)).push(
                    all[k]->Ok_0,
                ));
            },
            Err(e) => {
                assert(first_failure(all, k));
                return Err(KissDockerError::SerdeError(e));
            },
        }
    }
    assert(all.take(all.len() as int) =~= all);
    Ok(out)
}

} // verus!
