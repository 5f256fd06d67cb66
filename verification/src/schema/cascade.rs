//! Validation that cascades into sub-structs: each sub-struct's failures are
//! collected under the field's name, and the parent fails with all of them.

use crate::errors::spec_prepend_path;
use crate::Error;
use crate::Result;
use crate::ValidationMessage;
use vstd::prelude::*;

verus! {

/// `after` is `before` followed by each of `inner` with `field` prepended to
/// its path.
pub open spec fn absorbed(
    before: Seq<ValidationMessage>,
    field: Seq<char>,
    inner: Seq<ValidationMessage>,
    after: Seq<ValidationMessage>,
) -> bool {
    &&& after.len() == before.len() + inner.len()
    &&& forall|i: int| 0 <= i < before.len() ==> #[trigger] after[i] == before[i]
    &&& forall|j: int|
        0 <= j < inner.len() ==> (#[trigger] after[before.len() + j]).path@ == spec_prepend_path(
            field,
            inner[j].path@,
        ) && after[before.len() + j].message == inner[j].message
}

/// One fold step: a pass adds nothing; a validation failure's messages are
/// added in order under `field`'s path; any other error is the step's result,
/// and nothing is added.
pub open spec fn absorbs(
    before: Seq<ValidationMessage>,
    field: Seq<char>,
    outcome: Result<()>,
    r: Result<()>,
    after: Seq<ValidationMessage>,
) -> bool {
    match outcome {
        Ok(()) => r is Ok && after == before,
        Err(Error::Validation { errors: inner }) => r is Ok && absorbed(before, field, inner@, after),
        Err(other) => r == Err::<(), Error>(other) && after == before,
    }
}

/// Fold a sub-struct's validation `outcome` into the parent's collected
/// `errors`. A pass adds nothing; validation failures are added in order under
/// `field`'s path; any other error is handed back for the parent to return,
/// and nothing is added.
pub fn absorb_nested(errors: &mut Vec<ValidationMessage>, field: &str, outcome: Result<()>) -> (r:
    Result<()>)
    ensures
        absorbs(old(errors)@, field@, outcome, r, final(errors)@),
{
    match outcome {
        Ok(()) => Ok(()),
        Err(Error::Validation { errors: inner }) => {
            let ghost before = errors@;
            let ghost all = inner@;
            let total = inner.len();
            let mut rest = inner;
            let mut k: usize = 0;
            while rest.len() > 0
                invariant
                    k <= all.len(),
                    all.len() == total,
                    rest@ == all.subrange(k as int, all.len() as int),
                    absorbed(before, field@, all.subrange(0, k as int), errors@),
                decreases rest@.len(),
            {
                let mut message = rest.remove(0);
                proof {
                    assert(message == all[k as int]);
                }
                message.prepend_path(field);
                errors.push(message);
                k = k + 1;
                proof {
                    assert(rest@ =~= all.subrange(k as int, all.len() as int));
                    let done = all.subrange(0, k as int);
                    assert forall|j: int| 0 <= j < done.len() implies (#[trigger] errors@[before.len()
                        + j]).path@ == spec_prepend_path(field@, done[j].path@)
                        && errors@[before.len() + j].message == done[j].message by {
                        if j < k - 1 {
                            assert(done[j] == all.subrange(0, k - 1)[j]);
                        }
                    }
                }
            }
            proof {
                assert(all.subrange(0, k as int) =~= all);
            }
            Ok(())
        },
        Err(other) => Err(other),
    }
}

/// The containing struct's outcome from the messages it collected: `Ok` when
/// there are none, else a validation failure carrying every one, in order.
pub open spec fn judged(errors: Seq<ValidationMessage>, r: Result<()>) -> bool {
    &&& errors.len() == 0 ==> r is Ok
    &&& errors.len() > 0 ==> (r matches Err(Error::Validation { errors: all }) && all@ == errors)
}

/// The outcome for the containing struct: `Ok` when no message came in, else
/// a validation failure carrying every message, in order.
pub fn verdict(errors: Vec<ValidationMessage>) -> (r: Result<()>)
    ensures
        judged(errors@, r),
{
    if errors.len() == 0 {
        Ok(())
    } else {
        Err(Error::Validation { errors })
    }
}

/// Path and text of each message.
pub open spec fn message_views(ms: Seq<ValidationMessage>) -> Seq<(Seq<char>, Seq<char>)> {
    ms.map_values(|m: ValidationMessage| (m.path@, m.message@))
}

/// The messages one sub-struct field contributes: its validation failures,
/// each under the field's path; nothing for a pass or another error.
pub open spec fn failures_under(field: Seq<char>, outcome: Result<()>) -> Seq<
    (Seq<char>, Seq<char>),
> {
    match outcome {
        Err(Error::Validation { errors }) => errors@.map_values(
            |m: ValidationMessage| (spec_prepend_path(field, m.path@), m.message@),
        ),
        _ => Seq::empty(),
    }
}

/// The messages a struct collects from its sub-struct fields (name and own
/// outcome, in declaration order): each field's failures under its path, in
/// field order.
pub open spec fn spec_collected(cascade: Seq<(Seq<char>, Result<()>)>) -> Seq<
    (Seq<char>, Seq<char>),
>
    decreases cascade.len(),
{
    if cascade.len() == 0 {
        Seq::empty()
    } else {
        spec_collected(cascade.drop_last()) + failures_under(cascade.last().0, cascade.last().1)
    }
}

/// An outcome that is an error other than a validation failure.
pub open spec fn other_failure(outcome: Result<()>) -> bool {
    outcome is Err && !(outcome matches Err(Error::Validation { .. }))
}

/// Validation cascades over all sub-struct fields in declaration order. Folding
/// the fields' own outcomes one by one (see [`absorb_nested`]), starting from
/// no messages, collects after each field exactly the failures of the fields so
/// far, each under its field's path, in field order; a step fails exactly on an
/// error other than a validation failure, and then with that error unchanged,
/// which the struct returns. When no field gives such an error, the struct's
/// outcome (see [`verdict`]) is `Ok` exactly when no field failed, and
/// otherwise a validation failure carrying all collected messages. Plain fields
/// take no part.
pub proof fn law_cascade_collects_in_field_order(
    cascade: Seq<(Seq<char>, Result<()>)>,
    collected: Seq<Seq<ValidationMessage>>,
    steps: Seq<Result<()>>,
    r: Result<()>,
)
    requires
        collected.len() == cascade.len() + 1,
        steps.len() == cascade.len(),
        collected[0].len() == 0,
        forall|k: int|
            0 <= k < cascade.len() ==> #[trigger] absorbs(
                collected[k],
                cascade[k].0,
                cascade[k].1,
                steps[k],
                collected[k + 1],
            ),
        judged(collected[cascade.len() as int], r),
    ensures
        forall|k: int|
            0 <= k <= cascade.len() ==> message_views(#[trigger] collected[k]) == spec_collected(
                cascade.subrange(0, k),
            ),
        forall|k: int|
            0 <= k < cascade.len() ==> (#[trigger] steps[k] is Err <==> other_failure(cascade[k].1))
                && (steps[k] is Err ==> steps[k] == cascade[k].1),
        (forall|k: int| 0 <= k < cascade.len() ==> !other_failure(#[trigger] cascade[k].1)) ==> (
        r is Ok <==> spec_collected(cascade).len() == 0),
        r matches Err(Error::Validation { errors }) ==> message_views(errors@) == spec_collected(
            cascade,
        ),
{
    assert forall|k: int| 0 <= k <= cascade.len() implies message_views(#[trigger] collected[k])
        == spec_collected(cascade.subrange(0, k)) by {
        lemma_collected_prefix(cascade, collected, steps, k);
    }
    assert forall|k: int| 0 <= k < cascade.len() implies (#[trigger] steps[k] is Err
        <==> other_failure(cascade[k].1)) && (steps[k] is Err ==> steps[k] == cascade[k].1) by {
        assert(absorbs(collected[k], cascade[k].0, cascade[k].1, steps[k], collected[k + 1]));
    }
    let n = cascade.len() as int;
    assert(cascade.subrange(0, n) =~= cascade);
    assert(message_views(collected[n]) == spec_collected(cascade));
    assert(message_views(collected[n]).len() == collected[n].len());
}

proof fn lemma_collected_prefix(
    cascade: Seq<(Seq<char>, Result<()>)>,
    collected: Seq<Seq<ValidationMessage>>,
    steps: Seq<Result<()>>,
    k: int,
)
    requires
        0 <= k <= cascade.len(),
        collected.len() == cascade.len() + 1,
        steps.len() == cascade.len(),
        collected[0].len() == 0,
        forall|j: int|
            0 <= j < cascade.len() ==> #[trigger] absorbs(
                collected[j],
                cascade[j].0,
                cascade[j].1,
                steps[j],
                collected[j + 1],
            ),
    ensures
        message_views(collected[k]) == spec_collected(cascade.subrange(0, k)),
    decreases k,
{
    if k == 0 {
        assert(message_views(collected[0]) =~= Seq::empty());
    } else {
        let j = k - 1;
        lemma_collected_prefix(cascade, collected, steps, j);
        let prefix = cascade.subrange(0, k);
        assert(prefix.drop_last() =~= cascade.subrange(0, j));
        assert(prefix.last() == cascade[j]);
        assert(absorbs(collected[j], cascade[j].0, cascade[j].1, steps[j], collected[j + 1]));
        let before = collected[j];
        let after = collected[k];
        match cascade[j].1 {
            Err(Error::Validation { errors: inner }) => {
                assert(message_views(after) =~= message_views(before) + failures_under(
                    cascade[j].0,
                    cascade[j].1,
                )) by {
                    assert forall|i: int| 0 <= i < after.len() implies message_views(after)[i] == (
                    message_views(before) + failures_under(cascade[j].0, cascade[j].1))[i] by {
                        if i >= before.len() {
                            let t = i - before.len();
                            assert(after[before.len() + t] == after[i]);
                        }
                    }
                }
            },
            _ => {
                assert(failures_under(cascade[j].0, cascade[j].1) =~= Seq::empty());
                assert(message_views(after) =~= message_views(before) + failures_under(
                    cascade[j].0,
                    cascade[j].1,
                ));
            },
        }
    }
}

} // verus!
