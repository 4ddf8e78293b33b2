use vstd::prelude::*;

verus! {

/// Why one work item's pipeline stopped.
#[derive(Clone, Copy, Debug, PartialEq, Eq, Structural)]
pub enum PipelineError {
    /// The external converter exited unsuccessfully.
    ExternalTool,
    /// An image could not be decoded, tonemapped or written back.
    Image,
    /// A filesystem operation of the pipeline failed.
    Io,
}

/// The four stages a work item goes through, in order.
#[derive(Clone, Copy, Debug, PartialEq, Eq, Structural)]
pub enum Stage {
    Extract,
    Tonemap,
    Merge,
    Cleanup,
}

/// How a work item ended. A failed cleanup does not make an item fail; it is
/// reported through `cleaned`.
#[derive(Clone, Copy, Debug, PartialEq, Eq, Structural)]
pub enum Outcome {
    Succeeded { cleaned: bool },
    Failed { stage: Stage, error: PipelineError },
}

/// Where one work item's pipeline stands: the stage to run next, or its outcome.
#[derive(Clone, Copy, Debug, PartialEq, Eq, Structural)]
pub enum ItemState {
    Running { stage: Stage },
    Finished { outcome: Outcome },
}

/// The state a work item starts in.
pub open spec fn initial() -> ItemState {
    ItemState::Running { stage: Stage::Extract }
}

/// The state after the current stage reported `event`: success hands over to the
/// next stage, a failure before cleanup ends the item as failed, and cleanup ends
/// it as succeeded either way. A finished item stays as it is.
pub open spec fn next_state(state: ItemState, event: Result<(), PipelineError>) -> ItemState {
    match state {
        ItemState::Finished { .. } => state,
        ItemState::Running { stage } => match (stage, event) {
            (Stage::Cleanup, Ok(())) => ItemState::Finished {
                outcome: Outcome::Succeeded { cleaned: true },
            },
            (Stage::Cleanup, Err(_)) => ItemState::Finished {
                outcome: Outcome::Succeeded { cleaned: false },
            },
            (_, Err(error)) => ItemState::Finished { outcome: Outcome::Failed { stage, error } },
            (Stage::Extract, Ok(())) => ItemState::Running { stage: Stage::Tonemap },
            (Stage::Tonemap, Ok(())) => ItemState::Running { stage: Stage::Merge },
            (Stage::Merge, Ok(())) => ItemState::Running { stage: Stage::Cleanup },
        },
    }
}

/// The state a work item starts in: about to extract.
pub fn start() -> (r: ItemState)
    ensures
        r == initial(),
{
    ItemState::Running { stage: Stage::Extract }
}

/// Moves a work item on after its current stage reported `event`.
pub fn advance(state: ItemState, event: Result<(), PipelineError>) -> (r: ItemState)
    ensures
        r == next_state(state, event),
{
    match state {
        ItemState::Finished { .. } => state,
        ItemState::Running { stage } => match event {
            Ok(()) => match stage {
                Stage::Extract => ItemState::Running { stage: Stage::Tonemap },
                Stage::Tonemap => ItemState::Running { stage: Stage::Merge },
                Stage::Merge => ItemState::Running { stage: Stage::Cleanup },
                Stage::Cleanup => ItemState::Finished {
                    outcome: Outcome::Succeeded { cleaned: true },
                },
            },
            Err(error) => match stage {
                Stage::Cleanup => ItemState::Finished {
                    outcome: Outcome::Succeeded { cleaned: false },
                },
                _ => ItemState::Finished { outcome: Outcome::Failed { stage, error } },
            },
        },
    }
}

/// The state after feeding `events` one by one, starting from `state`.
pub open spec fn run(state: ItemState, events: Seq<Result<(), PipelineError>>) -> ItemState
    decreases events.len(),
{
    if events.len() == 0 {
        state
    } else {
        run(next_state(state, events[0]), events.drop_first())
    }
}

/// Once finished, a work item ignores every further event: no stage runs after a
/// failure.
pub proof fn finished_is_final(outcome: Outcome, events: Seq<Result<(), PipelineError>>)
    ensures
        run(ItemState::Finished { outcome }, events) == (ItemState::Finished { outcome }),
    decreases events.len(),
{
    if events.len() > 0 {
        finished_is_final(outcome, events.drop_first());
    }
}

/// Starting from extraction, a work item succeeds exactly when extraction,
/// tonemapping and merging all succeed, whatever cleanup reports; otherwise it fails
/// at the first stage that did.
pub proof fn outcome_of_four_events(
    e0: Result<(), PipelineError>,
    e1: Result<(), PipelineError>,
    e2: Result<(), PipelineError>,
    e3: Result<(), PipelineError>,
)
    ensures
        ({
            let r = run(initial(), seq![e0, e1, e2, e3]);
            &&& (e0 is Ok && e1 is Ok && e2 is Ok) ==> r == (ItemState::Finished {
                outcome: Outcome::Succeeded { cleaned: e3 is Ok },
            })
            &&& e0 matches Err(e) ==> r == (ItemState::Finished {
                outcome: Outcome::Failed { stage: Stage::Extract, error: e },
            })
            &&& e0 is Ok ==> (e1 matches Err(e) ==> r == (ItemState::Finished {
                outcome: Outcome::Failed { stage: Stage::Tonemap, error: e },
            }))
            &&& (e0 is Ok && e1 is Ok) ==> (e2 matches Err(e) ==> r == (ItemState::Finished {
                outcome: Outcome::Failed { stage: Stage::Merge, error: e },
            }))
        }),
{
    let s = seq![e0, e1, e2, e3];
    assert(s.drop_first() =~= seq![e1, e2, e3]);
    assert(seq![e1, e2, e3].drop_first() =~= seq![e2, e3]);
    assert(seq![e2, e3].drop_first() =~= seq![e3]);
    assert(seq![e3].drop_first() =~= Seq::<Result<(), PipelineError>>::empty());
    reveal_with_fuel(run, 5);
}

pub open spec fn is_failed(s: ItemState) -> bool {
    s matches ItemState::Finished { outcome: Outcome::Failed { .. } }
}

/// The indices, in increasing order, of the items in `items` that failed.
pub open spec fn failed_indices(items: Seq<ItemState>) -> Seq<usize>
    decreases items.len(),
{
    if items.len() == 0 {
        Seq::empty()
    } else {
        let rest = failed_indices(items.drop_last());
        if is_failed(items.last()) {
            rest.push((items.len() - 1) as usize)
        } else {
            rest
        }
    }
}

/// Lists the items of a batch that failed, by index.
pub fn failed_items(items: &Vec<ItemState>) -> (r: Vec<usize>)
    ensures
        r@ == failed_indices(items@),
{
    let mut out: Vec<usize> = Vec::new();
    let mut i: usize = 0;
    while i < items.len()
        invariant
            i <= items@.len(),
            out@ == failed_indices(items@.take(i as int)),
        decreases items@.len() - i,
    {
        assert(items@.take(i as int + 1).drop_last() == items@.take(i as int));
        let failed = match items[i] {
            ItemState::Finished { outcome: Outcome::Failed { .. } } => true,
            _ => false,
        };
        if failed {
            out.push(i);
        }
        i = i + 1;
    }
    assert(items@.take(items@.len() as int) == items@);
    out
}

} // verus!
