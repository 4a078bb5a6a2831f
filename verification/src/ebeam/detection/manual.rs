//! Detection of reconnection sites from positions that are listed by hand.

use crate::seeding::manual::ManualSeeder3;
use vstd::prelude::*;

verus! {

/// Detector that takes the reconnection sites from a list of positions.
#[derive(Clone, Debug)]
pub struct ManualReconnectionSiteDetector {
    seeder: ManualSeeder3,
}

impl View for ManualReconnectionSiteDetector {
    type V = ManualSeeder3;

    closed spec fn view(&self) -> ManualSeeder3 {
        self.seeder
    }
}

impl ManualReconnectionSiteDetector {
    /// Creates a new manual reconnection site detector for the positions
    /// of the given seeder.
    pub fn new(seeder: ManualSeeder3) -> (detector: Self)
        ensures
            detector@ == seeder,
    {
        Self { seeder }
    }

    /// The seeder that produces the positions of the reconnection sites.
    pub fn seeder(&self) -> (seeder: &ManualSeeder3)
        ensures
            *seeder == self@,
    {
        &self.seeder
    }
}

} // verus!
