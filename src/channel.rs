use vstd::prelude::*;
use crate::names::names_of;
use crate::plan::{ChannelPlan, plan_channel, plan_of};
use crate::versions;

verus! {

/// The catalog endpoint; a channel's records are at this URL followed by
/// the channel's label.
pub const API_URL: &'static str = "https://api.magmafoundation.org/api/v2/";

/// How many records each channel keeps; zero keeps them all.
pub const MAX_VERSIONS: usize = 0;

/// A release track mirrored into a directory named after its label.
#[derive(Clone, Copy, Debug, PartialEq, Eq, Structural)]
pub enum Version {
    V1_12_2,
    V1_16_5,
    V1_18_2,
    V1_19_3,
    V1_20_1,
}

impl Version {
    pub open spec fn label(self) -> Seq<char> {
        match self {
            Version::V1_12_2 => "1.12.2"@,
            Version::V1_16_5 => "1.16.5"@,
            Version::V1_18_2 => "1.18.2"@,
            Version::V1_19_3 => "1.19.3"@,
            Version::V1_20_1 => "1.20.1"@,
        }
    }

    /// The channel's label, used in its catalog URL and as its directory name.
    pub fn to_string(&self) -> (r: &'static str)
        ensures
            r@ == self.label(),
    {
        match self {
            Version::V1_12_2 => "1.12.2",
            Version::V1_16_5 => "1.16.5",
            Version::V1_18_2 => "1.18.2",
            Version::V1_19_3 => "1.19.3",
            Version::V1_20_1 => "1.20.1",
        }
    }
}

/// The URL of a channel's catalog.
pub fn catalog_url(channel: Version) -> (r: String)
    ensures
        r@ == API_URL@ + channel.label(),
{
    let mut url = API_URL.to_owned();
    url.append(channel.to_string());
    url
}

/// Why a channel stopped before running its tasks.
#[derive(Clone, Copy, Debug, PartialEq, Eq, Structural)]
pub enum SyncError {
    /// The catalog could not be fetched.
    Transport,
    /// The catalog body is not a list of records.
    Decode,
    /// A channel directory could not be created.
    Io,
}

/// The file names found in a channel's two directories.
pub struct Inventory {
    pub server: Vec<String>,
    pub installer: Vec<String>,
}

/// What the program reports back to a channel after doing its work.
pub enum ChannelEvent {
    /// The catalog, decoded, or why it could not be had.
    Catalog(Result<Vec<versions::Version>, SyncError>),
    /// The directory listings, or why they could not be had.
    Inventory(Result<Inventory, SyncError>),
    /// Every task has ended; the number that failed.
    TasksFinished(usize),
}

/// What the program must do next for a channel.
pub enum ChannelAction {
    FetchCatalog,
    ScanInventory,
    RunTasks(ChannelPlan),
    Finished(Result<(), SyncError>),
    /// The event did not fit the channel's phase and was set aside.
    Ignored,
}

/// Where a channel stands.
pub enum ChannelPhase {
    AwaitCatalog,
    AwaitInventory(Vec<versions::Version>),
    AwaitTasks,
    Done(Result<(), SyncError>),
}

/// One channel's run: catalog, then directory listings, then its fetches
/// and removals, then done. A missing catalog or directory ends the run in
/// failure before any task is issued; failed tasks do not.
pub struct ChannelSync {
    cap: usize,
    phase: ChannelPhase,
}

impl ChannelSync {
    pub closed spec fn spec_cap(&self) -> nat {
        self.cap as nat
    }

    pub closed spec fn spec_phase(&self) -> ChannelPhase {
        self.phase
    }

    /// A run that keeps `cap` records, which starts by fetching the catalog.
    pub fn new(cap: usize) -> (r: (Self, ChannelAction))
        ensures
            r.0.spec_cap() == cap,
            r.0.spec_phase() is AwaitCatalog,
            r.1 is FetchCatalog,
    {
        (ChannelSync { cap, phase: ChannelPhase::AwaitCatalog }, ChannelAction::FetchCatalog)
    }

    pub fn is_done(&self) -> (r: bool)
        ensures
            r == self.spec_phase() is Done,
    {
        match self.phase {
            ChannelPhase::Done(_) => true,
            _ => false,
        }
    }

    /// Takes in the outcome of the last action and says what to do next.
    pub fn handle(&mut self, event: ChannelEvent) -> (r: ChannelAction)
        ensures
            final(self).spec_cap() == old(self).spec_cap(),
            match (old(self).spec_phase(), event) {
                (ChannelPhase::AwaitCatalog, ChannelEvent::Catalog(Ok(rs))) => {
                    &&& final(self).spec_phase() == ChannelPhase::AwaitInventory(rs)
                    &&& r is ScanInventory
                },
                (ChannelPhase::AwaitCatalog, ChannelEvent::Catalog(Err(e))) => {
                    &&& final(self).spec_phase() == ChannelPhase::Done(Err(e))
                    &&& r == ChannelAction::Finished(Err(e))
                },
                (ChannelPhase::AwaitInventory(rs), ChannelEvent::Inventory(Ok(inv))) => {
                    &&& final(self).spec_phase() is AwaitTasks
                    &&& r matches ChannelAction::RunTasks(plan) && plan@ == plan_of(
                        rs@,
                        old(self).spec_cap(),
                        names_of(inv.server@),
                        names_of(inv.installer@),
                    )
                },
                (ChannelPhase::AwaitInventory(_), ChannelEvent::Inventory(Err(e))) => {
                    &&& final(self).spec_phase() == ChannelPhase::Done(Err(e))
                    &&& r == ChannelAction::Finished(Err(e))
                },
                (ChannelPhase::AwaitTasks, ChannelEvent::TasksFinished(_)) => {
                    &&& final(self).spec_phase() == ChannelPhase::Done(Ok(()))
                    &&& r == ChannelAction::Finished(Ok(()))
                },
                _ => {
                    &&& final(self).spec_phase() == old(self).spec_phase()
                    &&& r is Ignored
                },
            },
    {
        let mut phase = ChannelPhase::AwaitTasks;
        std::mem::swap(&mut self.phase, &mut phase);
        match (phase, event) {
            (ChannelPhase::AwaitCatalog, ChannelEvent::Catalog(Ok(rs))) => {
                self.phase = ChannelPhase::AwaitInventory(rs);
                ChannelAction::ScanInventory
            },
            (ChannelPhase::AwaitCatalog, ChannelEvent::Catalog(Err(e))) => {
                self.phase = ChannelPhase::Done(Err(e));
                ChannelAction::Finished(Err(e))
            },
            (ChannelPhase::AwaitInventory(rs), ChannelEvent::Inventory(Ok(inv))) => {
                let plan = plan_channel(rs, self.cap, &inv.server, &inv.installer);
                self.phase = ChannelPhase::AwaitTasks;
                ChannelAction::RunTasks(plan)
            },
            (ChannelPhase::AwaitInventory(_), ChannelEvent::Inventory(Err(e))) => {
                self.phase = ChannelPhase::Done(Err(e));
                ChannelAction::Finished(Err(e))
            },
            (ChannelPhase::AwaitTasks, ChannelEvent::TasksFinished(_)) => {
                self.phase = ChannelPhase::Done(Ok(()));
                ChannelAction::Finished(Ok(()))
            },
            (other, _) => {
                self.phase = other;
                ChannelAction::Ignored
            },
        }
    }
}

} // verus!
