//! The state that voting keeps between events.

use crate::registry::{MenuRecordView, MenuRegistry};
use crate::table::{MovieSeq, MovieVote};
use crate::votes::VoteStore;
use crate::winners::WinnerLog;
use vstd::prelude::*;

verus! {

/// The live menus, the live votes and the winner log.
pub struct Stores {
    pub menus: MenuRegistry,
    pub votes: VoteStore,
    pub winners: WinnerLog,
}

/// What the stores hold, as plain values.
pub struct StoresView {
    pub menus: Seq<MenuRecordView>,
    pub votes: Seq<MovieVote>,
    pub winners: Seq<MovieSeq>,
}

impl View for Stores {
    type V = StoresView;

    open spec fn view(&self) -> StoresView {
        StoresView { menus: self.menus@, votes: self.votes@, winners: self.winners@ }
    }
}

impl Stores {
    /// Stores without menus, votes or winners.
    pub fn new() -> (stores: Stores)
        ensures
            stores@.menus == Seq::<MenuRecordView>::empty(),
            stores@.votes == Seq::<MovieVote>::empty(),
            stores@.winners == Seq::<MovieSeq>::empty(),
    {
        Stores { menus: MenuRegistry::new(), votes: VoteStore::new(), winners: WinnerLog::new() }
    }
}

} // verus!
