//! Partition assignment strategies for consumer groups. The strategies are
//! named and selectable; the assignment computations themselves are outside
//! this library's scope and every assignor yields the empty assignment.
use vstd::prelude::*;

use crate::cluster::TopicPartition;
use crate::metadata::Metadata;

verus! {

/// Strategy for assigning partitions to consumer streams.
#[derive(Copy, Clone, Debug, PartialEq, Eq, Structural)]
pub enum AssignmentStrategy {
    /// Per topic, partitions are laid out in numeric order and split over
    /// the consumers in lexicographic order; the first few consumers take
    /// one extra partition when the split is uneven.
    Range,
    /// All partitions and all consumers are laid out and assigned round
    /// robin.
    RoundRobin,
    /// As balanced as possible while preserving existing placements across
    /// reassignments.
    Sticky,
}

/// The local member's subscription as forwarded to the group coordinator.
pub struct Subscription {
    pub topics: Vec<Vec<u8>>,
    pub user_data: Option<Vec<u8>>,
}

/// One member's assignment as the group leader computed it.
pub struct Assignment {
    pub partitions: Vec<TopicPartition>,
    pub user_data: Option<Vec<u8>>,
}

/// Computes the group assignment from member subscriptions and the cluster
/// snapshot.
pub trait PartitionAssignor {
    /// The unique name of this assignor.
    fn name(&self) -> &'static str;

    /// The strategy this assignor implements.
    fn strategy(&self) -> AssignmentStrategy;

    /// The local member's subscription for the given topics.
    fn subscription(&self, topics: Vec<Vec<u8>>) -> (r: Subscription)
        ensures
            r.topics == topics,
            r.user_data is None,
    ;

    /// The group assignment for the member subscriptions.
    fn assign(&self, metadata: &Metadata, subscriptions: Vec<(Vec<u8>, Subscription)>) -> Vec<
        (Vec<u8>, Assignment),
    >;
}

/// The range assignor.
#[derive(Debug, Default)]
pub struct RangeAssignor {}

impl PartitionAssignor for RangeAssignor {
    fn name(&self) -> &'static str {
        "range"
    }

    fn strategy(&self) -> (r: AssignmentStrategy)
        ensures
            r == AssignmentStrategy::Range,
    {
        AssignmentStrategy::Range
    }

    fn subscription(&self, topics: Vec<Vec<u8>>) -> (r: Subscription) {
        Subscription { topics, user_data: None }
    }

    fn assign(&self, metadata: &Metadata, subscriptions: Vec<(Vec<u8>, Subscription)>) -> Vec<
        (Vec<u8>, Assignment),
    > {
        Vec::new()
    }
}

/// The round-robin assignor.
#[derive(Debug, Default)]
pub struct RoundRobinAssignor {}

impl PartitionAssignor for RoundRobinAssignor {
    fn name(&self) -> &'static str {
        "roundrobin"
    }

    fn strategy(&self) -> (r: AssignmentStrategy)
        ensures
            r == AssignmentStrategy::RoundRobin,
    {
        AssignmentStrategy::RoundRobin
    }

    fn subscription(&self, topics: Vec<Vec<u8>>) -> (r: Subscription) {
        Subscription { topics, user_data: None }
    }

    fn assign(&self, metadata: &Metadata, subscriptions: Vec<(Vec<u8>, Subscription)>) -> Vec<
        (Vec<u8>, Assignment),
    > {
        Vec::new()
    }
}

/// The sticky assignor.
#[derive(Debug, Default)]
pub struct StickyAssignor {}

impl PartitionAssignor for StickyAssignor {
    fn name(&self) -> &'static str {
        "sticky"
    }

    fn strategy(&self) -> (r: AssignmentStrategy)
        ensures
            r == AssignmentStrategy::Sticky,
    {
        AssignmentStrategy::Sticky
    }

    fn subscription(&self, topics: Vec<Vec<u8>>) -> (r: Subscription) {
        Subscription { topics, user_data: None }
    }

    fn assign(&self, metadata: &Metadata, subscriptions: Vec<(Vec<u8>, Subscription)>) -> Vec<
        (Vec<u8>, Assignment),
    > {
        Vec::new()
    }
}

} // verus!
