use std::any::TypeId;

use oxana::{worker_group_id, WorkerGroup, WorkerGroups};

struct Mailers;
struct Reports;
struct Billing;

impl WorkerGroup for Mailers {}
impl WorkerGroup for Reports {}
impl WorkerGroup for Billing {}

#[test]
fn worker_group_ids_follow_the_groups_in_order() {
    assert_eq!(worker_group_id::<Mailers>(), TypeId::of::<Mailers>());
    assert_eq!(Mailers.group_ids(), vec![TypeId::of::<Mailers>()]);
    assert_eq!((Reports,).group_ids(), vec![TypeId::of::<Reports>()]);
    assert_eq!(
        (Billing, Mailers, Reports).group_ids(),
        vec![TypeId::of::<Billing>(), TypeId::of::<Mailers>(), TypeId::of::<Reports>()]
    );
    assert_ne!(worker_group_id::<Mailers>(), worker_group_id::<Reports>());
}
