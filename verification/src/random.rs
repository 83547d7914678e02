use vstd::prelude::*;
use crate::spawns::PositionWithoutMap;
use rand::prelude::IndexedRandom;

verus! {

/// Calls `rand::random::<bool>()`. The outcome is random, so nothing is
/// promised about it.
#[verifier::external_body]
pub(crate) fn random_coin() -> (coin: bool) {
    rand::random::<bool>()
}

/// Calls `rand::random_range(low..=high)`. Claims, as rand documents, that
/// the outcome lies in `low..=high`; which value comes out is random. The
/// call panics on an empty range, so `low <= high` is required.
#[verifier::external_body]
pub(crate) fn random_between(low: u32, high: u32) -> (roll: u32)
    requires
        low <= high,
    ensures
        low <= roll <= high,
{
    rand::random_range(low..=high)
}

/// Calls `uuid::Uuid::new_v4()` and returns the 128 bits of the new UUID.
/// The value is random, so nothing is promised about it.
#[verifier::external_body]
pub(crate) fn new_entity_id() -> (id: u128) {
    uuid::Uuid::new_v4().as_u128()
}

/// Calls `IndexedRandom::choose` on the spawn points with the thread-local
/// generator. Claims, as rand's source shows: `None` exactly when there are no
/// points, otherwise one of the points; which one is random.
#[verifier::external_body]
pub(crate) fn choose_spawn_point(points: &Vec<PositionWithoutMap>) -> (point: Option<PositionWithoutMap>)
    ensures
        point is None <==> points@.len() == 0,
        point matches Some(p) ==> points@.contains(p),
{
    points.choose(&mut rand::rng()).copied()
}

} // verus!
