//! Worker groups: marker types that select which workers a runtime runs.
use vstd::prelude::*;
use std::any::TypeId;

verus! {

/// `std::any::TypeId`, carried through as an opaque identifier.
#[verifier::external_type_specification]
#[verifier::external_body]
pub struct ExTypeId(TypeId);

/// `std::any::TypeId::of`, which returns the identifier of type `T`;
/// nothing is claimed of that identifier.
pub assume_specification<T: ?Sized + 'static>[ TypeId::of::<T> ]() -> TypeId;

/// Marker trait for a worker group.
pub trait WorkerGroup: 'static {

}

/// A worker group or tuple of worker groups accepted by runtime filters.
pub trait WorkerGroups {
    /// The identifiers of the groups, in the order of the tuple.
    fn group_ids(self) -> Vec<TypeId>;
}

/// The identifier of worker group `G`: what `TypeId::of::<G>()` returns.
pub fn worker_group_id<G: WorkerGroup>() -> (r: TypeId)
    ensures
        call_ensures(TypeId::of::<G>, (), r),
{
    TypeId::of::<G>()
}

impl<G: WorkerGroup> WorkerGroups for G {
    fn group_ids(self) -> (r: Vec<TypeId>)
        ensures
            r@.len() == 1,
            call_ensures(worker_group_id::<G>, (), r@[0]),
    {
        let mut ids: Vec<TypeId> = Vec::new();
        ids.push(worker_group_id::<G>());
        ids
    }
}

impl<A: WorkerGroup> WorkerGroups for (A,) {
    fn group_ids(self) -> (r: Vec<TypeId>)
        ensures
            r@.len() == 1,
            call_ensures(worker_group_id::<A>, (), r@[0]),
    {
        let mut ids: Vec<TypeId> = Vec::new();
        ids.push(worker_group_id::<A>());
        ids
    }
}

impl<A: WorkerGroup, B: WorkerGroup> WorkerGroups for (A, B) {
    fn group_ids(self) -> (r: Vec<TypeId>)
        ensures
            r@.len() == 2,
            call_ensures(worker_group_id::<A>, (), r@[0]),
            call_ensures(worker_group_id::<B>, (), r@[1]),
    {
        let mut ids: Vec<TypeId> = Vec::new();
        ids.push(worker_group_id::<A>());
        ids.push(worker_group_id::<B>());
        ids
    }
}

impl<A: WorkerGroup, B: WorkerGroup, C: WorkerGroup> WorkerGroups for (A, B, C) {
    fn group_ids(self) -> (r: Vec<TypeId>)
        ensures
            r@.len() == 3,
            call_ensures(worker_group_id::<A>, (), r@[0]),
            call_ensures(worker_group_id::<B>, (), r@[1]),
            call_ensures(worker_group_id::<C>, (), r@[2]),
    {
        let mut ids: Vec<TypeId> = Vec::new();
        ids.push(worker_group_id::<A>());
        ids.push(worker_group_id::<B>());
        ids.push(worker_group_id::<C>());
        ids
    }
}

impl<A: WorkerGroup, B: WorkerGroup, C: WorkerGroup, D: WorkerGroup> WorkerGroups for (A, B, C, D) {
    fn group_ids(self) -> (r: Vec<TypeId>)
        ensures
            r@.len() == 4,
            call_ensures(worker_group_id::<A>, (), r@[0]),
            call_ensures(worker_group_id::<B>, (), r@[1]),
            call_ensures(worker_group_id::<C>, (), r@[2]),
            call_ensures(worker_group_id::<D>, (), r@[3]),
    {
        let mut ids: Vec<TypeId> = Vec::new();
        ids.push(worker_group_id::<A>());
        ids.push(worker_group_id::<B>());
        ids.push(worker_group_id::<C>());
        ids.push(worker_group_id::<D>());
        ids
    }
}

impl<A: WorkerGroup, B: WorkerGroup, C: WorkerGroup, D: WorkerGroup, E: WorkerGroup> WorkerGroups for (A, B, C, D, E) {
    fn group_ids(self) -> (r: Vec<TypeId>)
        ensures
            r@.len() == 5,
            call_ensures(worker_group_id::<A>, (), r@[0]),
            call_ensures(worker_group_id::<B>, (), r@[1]),
            call_ensures(worker_group_id::<C>, (), r@[2]),
            call_ensures(worker_group_id::<D>, (), r@[3]),
            call_ensures(worker_group_id::<E>, (), r@[4]),
    {
        let mut ids: Vec<TypeId> = Vec::new();
        ids.push(worker_group_id::<A>());
        ids.push(worker_group_id::<B>());
        ids.push(worker_group_id::<C>());
        ids.push(worker_group_id::<D>());
        ids.push(worker_group_id::<E>());
        ids
    }
}

impl<A: WorkerGroup, B: WorkerGroup, C: WorkerGroup, D: WorkerGroup, E: WorkerGroup, F: WorkerGroup> WorkerGroups for (A, B, C, D, E, F) {
    fn group_ids(self) -> (r: Vec<TypeId>)
        ensures
            r@.len() == 6,
            call_ensures(worker_group_id::<A>, (), r@[0]),
            call_ensures(worker_group_id::<B>, (), r@[1]),
            call_ensures(worker_group_id::<C>, (), r@[2]),
            call_ensures(worker_group_id::<D>, (), r@[3]),
            call_ensures(worker_group_id::<E>, (), r@[4]),
            call_ensures(worker_group_id::<F>, (), r@[5]),
    {
        let mut ids: Vec<TypeId> = Vec::new();
        ids.push(worker_group_id::<A>());
        ids.push(worker_group_id::<B>());
        ids.push(worker_group_id::<C>());
        ids.push(worker_group_id::<D>());
        ids.push(worker_group_id::<E>());
        ids.push(worker_group_id::<F>());
        ids
    }
}

impl<A: WorkerGroup, B: WorkerGroup, C: WorkerGroup, D: WorkerGroup, E: WorkerGroup, F: WorkerGroup, G: WorkerGroup> WorkerGroups for (A, B, C, D, E, F, G) {
    fn group_ids(self) -> (r: Vec<TypeId>)
        ensures
            r@.len() == 7,
            call_ensures(worker_group_id::<A>, (), r@[0]),
            call_ensures(worker_group_id::<B>, (), r@[1]),
            call_ensures(worker_group_id::<C>, (), r@[2]),
            call_ensures(worker_group_id::<D>, (), r@[3]),
            call_ensures(worker_group_id::<E>, (), r@[4]),
            call_ensures(worker_group_id::<F>, (), r@[5]),
            call_ensures(worker_group_id::<G>, (), r@[6]),
    {
        let mut ids: Vec<TypeId> = Vec::new();
        ids.push(worker_group_id::<A>());
        ids.push(worker_group_id::<B>());
        ids.push(worker_group_id::<C>());
        ids.push(worker_group_id::<D>());
        ids.push(worker_group_id::<E>());
        ids.push(worker_group_id::<F>());
        ids.push(worker_group_id::<G>());
        ids
    }
}

impl<A: WorkerGroup, B: WorkerGroup, C: WorkerGroup, D: WorkerGroup, E: WorkerGroup, F: WorkerGroup, G: WorkerGroup, H: WorkerGroup> WorkerGroups for (A, B, C, D, E, F, G, H) {
    fn group_ids(self) -> (r: Vec<TypeId>)
        ensures
            r@.len() == 8,
            call_ensures(worker_group_id::<A>, (), r@[0]),
            call_ensures(worker_group_id::<B>, (), r@[1]),
            call_ensures(worker_group_id::<C>, (), r@[2]),
            call_ensures(worker_group_id::<D>, (), r@[3]),
            call_ensures(worker_group_id::<E>, (), r@[4]),
            call_ensures(worker_group_id::<F>, (), r@[5]),
            call_ensures(worker_group_id::<G>, (), r@[6]),
            call_ensures(worker_group_id::<H>, (), r@[7]),
    {
        let mut ids: Vec<TypeId> = Vec::new();
        ids.push(worker_group_id::<A>());
        ids.push(worker_group_id::<B>());
        ids.push(worker_group_id::<C>());
        ids.push(worker_group_id::<D>());
        ids.push(worker_group_id::<E>());
        ids.push(worker_group_id::<F>());
        ids.push(worker_group_id::<G>());
        ids.push(worker_group_id::<H>());
        ids
    }
}

impl<A: WorkerGroup, B: WorkerGroup, C: WorkerGroup, D: WorkerGroup, E: WorkerGroup, F: WorkerGroup, G: WorkerGroup, H: WorkerGroup, I: WorkerGroup> WorkerGroups for (A, B, C, D, E, F, G, H, I) {
    fn group_ids(self) -> (r: Vec<TypeId>)
        ensures
            r@.len() == 9,
            call_ensures(worker_group_id::<A>, (), r@[0]),
            call_ensures(worker_group_id::<B>, (), r@[1]),
            call_ensures(worker_group_id::<C>, (), r@[2]),
            call_ensures(worker_group_id::<D>, (), r@[3]),
            call_ensures(worker_group_id::<E>, (), r@[4]),
            call_ensures(worker_group_id::<F>, (), r@[5]),
            call_ensures(worker_group_id::<G>, (), r@[6]),
            call_ensures(worker_group_id::<H>, (), r@[7]),
            call_ensures(worker_group_id::<I>, (), r@[8]),
    {
        let mut ids: Vec<TypeId> = Vec::new();
        ids.push(worker_group_id::<A>());
        ids.push(worker_group_id::<B>());
        ids.push(worker_group_id::<C>());
        ids.push(worker_group_id::<D>());
        ids.push(worker_group_id::<E>());
        ids.push(worker_group_id::<F>());
        ids.push(worker_group_id::<G>());
        ids.push(worker_group_id::<H>());
        ids.push(worker_group_id::<I>());
        ids
    }
}

impl<A: WorkerGroup, B: WorkerGroup, C: WorkerGroup, D: WorkerGroup, E: WorkerGroup, F: WorkerGroup, G: WorkerGroup, H: WorkerGroup, I: WorkerGroup, J: WorkerGroup> WorkerGroups for (A, B, C, D, E, F, G, H, I, J) {
    fn group_ids(self) -> (r: Vec<TypeId>)
        ensures
            r@.len() == 10,
            call_ensures(worker_group_id::<A>, (), r@[0]),
            call_ensures(worker_group_id::<B>, (), r@[1]),
            call_ensures(worker_group_id::<C>, (), r@[2]),
            call_ensures(worker_group_id::<D>, (), r@[3]),
            call_ensures(worker_group_id::<E>, (), r@[4]),
            call_ensures(worker_group_id::<F>, (), r@[5]),
            call_ensures(worker_group_id::<G>, (), r@[6]),
            call_ensures(worker_group_id::<H>, (), r@[7]),
            call_ensures(worker_group_id::<I>, (), r@[8]),
            call_ensures(worker_group_id::<J>, (), r@[9]),
    {
        let mut ids: Vec<TypeId> = Vec::new();
        ids.push(worker_group_id::<A>());
        ids.push(worker_group_id::<B>());
        ids.push(worker_group_id::<C>());
        ids.push(worker_group_id::<D>());
        ids.push(worker_group_id::<E>());
        ids.push(worker_group_id::<F>());
        ids.push(worker_group_id::<G>());
        ids.push(worker_group_id::<H>());
        ids.push(worker_group_id::<I>());
        ids.push(worker_group_id::<J>());
        ids
    }
}

impl<A: WorkerGroup, B: WorkerGroup, C: WorkerGroup, D: WorkerGroup, E: WorkerGroup, F: WorkerGroup, G: WorkerGroup, H: WorkerGroup, I: WorkerGroup, J: WorkerGroup, K: WorkerGroup> WorkerGroups for (A, B, C, D, E, F, G, H, I, J, K) {
    fn group_ids(self) -> (r: Vec<TypeId>)
        ensures
            r@.len() == 11,
            call_ensures(worker_group_id::<A>, (), r@[0]),
            call_ensures(worker_group_id::<B>, (), r@[1]),
            call_ensures(worker_group_id::<C>, (), r@[2]),
            call_ensures(worker_group_id::<D>, (), r@[3]),
            call_ensures(worker_group_id::<E>, (), r@[4]),
            call_ensures(worker_group_id::<F>, (), r@[5]),
            call_ensures(worker_group_id::<G>, (), r@[6]),
            call_ensures(worker_group_id::<H>, (), r@[7]),
            call_ensures(worker_group_id::<I>, (), r@[8]),
            call_ensures(worker_group_id::<J>, (), r@[9]),
            call_ensures(worker_group_id::<K>, (), r@[10]),
    {
        let mut ids: Vec<TypeId> = Vec::new();
        ids.push(worker_group_id::<A>());
        ids.push(worker_group_id::<B>());
        ids.push(worker_group_id::<C>());
        ids.push(worker_group_id::<D>());
        ids.push(worker_group_id::<E>());
        ids.push(worker_group_id::<F>());
        ids.push(worker_group_id::<G>());
        ids.push(worker_group_id::<H>());
        ids.push(worker_group_id::<I>());
        ids.push(worker_group_id::<J>());
        ids.push(worker_group_id::<K>());
        ids
    }
}

impl<A: WorkerGroup, B: WorkerGroup, C: WorkerGroup, D: WorkerGroup, E: WorkerGroup, F: WorkerGroup, G: WorkerGroup, H: WorkerGroup, I: WorkerGroup, J: WorkerGroup, K: WorkerGroup, L: WorkerGroup> WorkerGroups for (A, B, C, D, E, F, G, H, I, J, K, L) {
    fn group_ids(self) -> (r: Vec<TypeId>)
        ensures
            r@.len() == 12,
            call_ensures(worker_group_id::<A>, (), r@[0]),
            call_ensures(worker_group_id::<B>, (), r@[1]),
            call_ensures(worker_group_id::<C>, (), r@[2]),
            call_ensures(worker_group_id::<D>, (), r@[3]),
            call_ensures(worker_group_id::<E>, (), r@[4]),
            call_ensures(worker_group_id::<F>, (), r@[5]),
            call_ensures(worker_group_id::<G>, (), r@[6]),
            call_ensures(worker_group_id::<H>, (), r@[7]),
            call_ensures(worker_group_id::<I>, (), r@[8]),
            call_ensures(worker_group_id::<J>, (), r@[9]),
            call_ensures(worker_group_id::<K>, (), r@[10]),
            call_ensures(worker_group_id::<L>, (), r@[11]),
    {
        let mut ids: Vec<TypeId> = Vec::new();
        ids.push(worker_group_id::<A>());
        ids.push(worker_group_id::<B>());
        ids.push(worker_group_id::<C>());
        ids.push(worker_group_id::<D>());
        ids.push(worker_group_id::<E>());
        ids.push(worker_group_id::<F>());
        ids.push(worker_group_id::<G>());
        ids.push(worker_group_id::<H>());
        ids.push(worker_group_id::<I>());
        ids.push(worker_group_id::<J>());
        ids.push(worker_group_id::<K>());
        ids.push(worker_group_id::<L>());
        ids
    }
}

} // verus!
