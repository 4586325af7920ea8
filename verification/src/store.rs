//! One agent's accumulated view of the world.

use crate::ledger::{
    copy_bytes, enacted_views, statement_views, AssetData, Enacted, EnactedView, Statement,
    StatementView, Variable,
};
use std::collections::HashMap;
use vstd::prelude::*;

verus! {

broadcast use vstd::std_specs::hash::group_hash_axioms;

/// What an agent has recorded: the statements and enacted actions it has
/// received, oldest first, and its private asset table.
pub struct Store {
    stated: Vec<Statement>,
    enacted: Vec<Enacted>,
    assets: HashMap<Variable, AssetData>,
}

pub struct StoreView {
    pub stated: Seq<StatementView>,
    pub enacted: Seq<EnactedView>,
    pub assets: Map<Variable, Seq<u8>>,
}

impl StoreView {
    /// The store in which nothing has been recorded.
    pub open spec fn empty() -> StoreView {
        StoreView { stated: Seq::empty(), enacted: Seq::empty(), assets: Map::empty() }
    }

    /// This store with one more statement at the end.
    pub open spec fn with_statement(self, s: StatementView) -> StoreView {
        StoreView { stated: self.stated.push(s), ..self }
    }

    /// This store with one more enacted action at the end.
    pub open spec fn with_enacted(self, e: EnactedView) -> StoreView {
        StoreView { enacted: self.enacted.push(e), ..self }
    }

    /// Nothing recorded in `earlier` is missing or moved in this store, and
    /// the asset table is as it was.
    pub open spec fn extends(self, earlier: StoreView) -> bool {
        &&& earlier.stated.is_prefix_of(self.stated)
        &&& earlier.enacted.is_prefix_of(self.enacted)
        &&& self.assets == earlier.assets
    }
}

impl View for Store {
    type V = StoreView;

    closed spec fn view(&self) -> StoreView {
        StoreView {
            stated: statement_views(self.stated@),
            enacted: enacted_views(self.enacted@),
            assets: self.assets@.map_values(|d: AssetData| d@),
        }
    }
}

impl Store {
    /// An empty store.
    pub fn new() -> (out: Store)
        ensures
            out@ == StoreView::empty(),
    {
        let out = Store { stated: Vec::new(), enacted: Vec::new(), assets: HashMap::new() };
        assert(out@.stated =~= Seq::empty());
        assert(out@.enacted =~= Seq::empty());
        assert(out@.assets =~= Map::empty());
        out
    }

    /// Appends a statement. Duplicates are kept.
    pub fn record_statement(&mut self, s: Statement)
        ensures
            final(self)@ == old(self)@.with_statement(s@),
    {
        self.stated.push(s);
        assert(statement_views(self.stated@) =~= statement_views(old(self).stated@).push(s@));
    }

    /// Appends an enacted action. Duplicates are kept.
    pub fn record_enacted(&mut self, e: Enacted)
        ensures
            final(self)@ == old(self)@.with_enacted(e@),
    {
        self.enacted.push(e);
        assert(enacted_views(self.enacted@) =~= enacted_views(old(self).enacted@).push(e@));
    }

    /// The asset held under `v`, if any.
    pub fn get_asset(&self, v: Variable) -> (out: Option<AssetData>)
        ensures
            match out {
                Some(d) => self@.assets.contains_key(v) && d@ == self@.assets[v],
                None => !self@.assets.contains_key(v),
            },
    {
        match self.assets.get(&v) {
            Some(d) => Some(copy_bytes(d)),
            None => None,
        }
    }

    /// Puts `data` under `v`, replacing what was there.
    pub fn set_asset(&mut self, v: Variable, data: AssetData)
        ensures
            final(self)@ == (StoreView { assets: old(self)@.assets.insert(v, data@), ..old(self)@ }),
    {
        self.assets.insert(v, data);
        assert(self@.assets =~= old(self)@.assets.insert(v, data@));
    }

    /// How many statements have been recorded.
    pub fn stated_len(&self) -> (n: usize)
        ensures
            n == self@.stated.len(),
    {
        self.stated.len()
    }

    /// How many enacted actions have been recorded.
    pub fn enacted_len(&self) -> (n: usize)
        ensures
            n == self@.enacted.len(),
    {
        self.enacted.len()
    }

    /// The `i`-th recorded statement, oldest first.
    pub fn stated_at(&self, i: usize) -> (out: Option<&Statement>)
        ensures
            match out {
                Some(s) => i < self@.stated.len() && s@ == self@.stated[i as int],
                None => i >= self@.stated.len(),
            },
    {
        if i < self.stated.len() {
            Some(&self.stated[i])
        } else {
            None
        }
    }

    /// The `i`-th recorded enacted action, oldest first.
    pub fn enacted_at(&self, i: usize) -> (out: Option<&Enacted>)
        ensures
            match out {
                Some(e) => i < self@.enacted.len() && e@ == self@.enacted[i as int],
                None => i >= self@.enacted.len(),
            },
    {
        if i < self.enacted.len() {
            Some(&self.enacted[i])
        } else {
            None
        }
    }
}

} // verus!
