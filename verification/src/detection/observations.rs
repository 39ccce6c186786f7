//! Findings of the detection engine, as the explanation layer reads them.
//!
//! Scores reach this layer already written with two decimals, the form in
//! which every report prints them.
use crate::text::concat2;
use crate::time::Timestamp;
use vstd::prelude::*;

verus! {

/// The kind of a behavioral finding.
#[derive(Clone, Copy, Debug, PartialEq, Eq, Structural)]
pub enum ObservationCategory {
    NewBehavior,
    BehaviorDrift,
    SuddenAnomaly,
    StableBehavior,
}

impl ObservationCategory {
    /// The variant's name, as `{:?}` prints it.
    pub open spec fn spec_name(self) -> Seq<char> {
        match self {
            ObservationCategory::NewBehavior => "NewBehavior"@,
            ObservationCategory::BehaviorDrift => "BehaviorDrift"@,
            ObservationCategory::SuddenAnomaly => "SuddenAnomaly"@,
            ObservationCategory::StableBehavior => "StableBehavior"@,
        }
    }

    /// The variant's name.
    pub fn name(&self) -> (r: &'static str)
        ensures
            r@ == self.spec_name(),
    {
        match self {
            ObservationCategory::NewBehavior => "NewBehavior",
            ObservationCategory::BehaviorDrift => "BehaviorDrift",
            ObservationCategory::SuddenAnomaly => "SuddenAnomaly",
            ObservationCategory::StableBehavior => "StableBehavior",
        }
    }
}

/// One finding about one entity.
#[derive(Debug)]
pub struct BehaviorObservation {
    pub entity_id: u128,
    pub entity_canonical_name: String,
    pub category: ObservationCategory,
    pub title: String,
    pub description: String,
    /// The anomaly score, with two decimals.
    pub anomaly_score: String,
    pub timestamp: Timestamp,
}

/// An entity ranked by how much its profile changed.
#[derive(Debug)]
pub struct MostChangedEntity {
    pub entity_id: u128,
    pub canonical_name: String,
    pub entity_type: String,
    /// Medium-term against long-term divergence, with two decimals.
    pub drift_score: String,
    /// Short-term against long-term divergence, with two decimals.
    pub anomaly_score: String,
    /// The mean of the two, with two decimals.
    pub combined_change_score: String,
    pub new_behaviors_count: usize,
}

impl BehaviorObservation {
    /// The finding that an entity's medium-term behavior drifted from its
    /// long-term baseline, with the drift score (two decimals), noted at `at`.
    pub fn drift(entity_id: u128, name: &str, drift_score: &str, at: Timestamp) -> (r: BehaviorObservation)
        ensures
            r.entity_id == entity_id,
            r.entity_canonical_name@ == name@,
            r.category == ObservationCategory::BehaviorDrift,
            r.title@ == "Behavior drift detected in "@ + name@,
            r.description@ == "Entity "@ + name@
                + " shows gradual behavioral drift (medium vs long term divergence: "@ + drift_score@ + ")"@,
            r.anomaly_score@ == drift_score@,
            r.timestamp == at,
    {
        let title = concat2("Behavior drift detected in ", name);
        let d = concat2("Entity ", name);
        let d = concat2(d.as_str(), " shows gradual behavioral drift (medium vs long term divergence: ");
        let d = concat2(d.as_str(), drift_score);
        let description = concat2(d.as_str(), ")");
        BehaviorObservation {
            entity_id,
            entity_canonical_name: name.to_owned(),
            category: ObservationCategory::BehaviorDrift,
            title,
            description,
            anomaly_score: drift_score.to_owned(),
            timestamp: at,
        }
    }

    /// The finding that an entity performed an action with a high fused anomaly
    /// score (two decimals), at the event's time.
    pub fn sudden_anomaly(entity_id: u128, name: &str, action: &str, fused_score: &str, at: Timestamp) -> (r:
        BehaviorObservation)
        ensures
            r.entity_id == entity_id,
            r.entity_canonical_name@ == name@,
            r.category == ObservationCategory::SuddenAnomaly,
            r.title@ == "Sudden anomaly in action '"@ + action@ + "'"@,
            r.description@ == "Entity "@ + name@ + " performed action '"@ + action@
                + "' with high anomaly score ("@ + fused_score@ + ")"@,
            r.anomaly_score@ == fused_score@,
            r.timestamp == at,
    {
        let t = concat2("Sudden anomaly in action '", action);
        let title = concat2(t.as_str(), "'");
        let d = concat2("Entity ", name);
        let d = concat2(d.as_str(), " performed action '");
        let d = concat2(d.as_str(), action);
        let d = concat2(d.as_str(), "' with high anomaly score (");
        let d = concat2(d.as_str(), fused_score);
        let description = concat2(d.as_str(), ")");
        BehaviorObservation {
            entity_id,
            entity_canonical_name: name.to_owned(),
            category: ObservationCategory::SuddenAnomaly,
            title,
            description,
            anomaly_score: fused_score.to_owned(),
            timestamp: at,
        }
    }

    /// The finding that an entity acted on a target never seen in its history
    /// (a graph score of one, written `1.00`), at the event's time.
    pub fn new_interaction(entity_id: u128, name: &str, at: Timestamp) -> (r: BehaviorObservation)
        ensures
            r.entity_id == entity_id,
            r.entity_canonical_name@ == name@,
            r.category == ObservationCategory::NewBehavior,
            r.title@ == "New interaction partner for "@ + name@,
            r.description@ == "Entity "@ + name@
                + " established a relationship with an unobserved target entity"@,
            r.anomaly_score@ == "1.00"@,
            r.timestamp == at,
    {
        let title = concat2("New interaction partner for ", name);
        let d = concat2("Entity ", name);
        let description = concat2(d.as_str(), " established a relationship with an unobserved target entity");
        BehaviorObservation {
            entity_id,
            entity_canonical_name: name.to_owned(),
            category: ObservationCategory::NewBehavior,
            title,
            description,
            anomaly_score: "1.00".to_owned(),
            timestamp: at,
        }
    }
}

} // verus!
