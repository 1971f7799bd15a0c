use vstd::prelude::*;

use crate::cursor::resume_position;
use crate::settings::{ChainConfig, Domain, IndexSettings, ScraperSettings};
use crate::supervisor::{spec_plan, Supervisor};
use crate::sync::{spec_strategy_for, EventKind, Phase, SyncTask};

verus! {

/// What the orchestrator keeps for one chain.
pub struct ChainScraper {
    pub domain: Domain,
    pub index_settings: IndexSettings,
}

impl Clone for ChainScraper {
    fn clone(&self) -> (r: Self)
        ensures
            r == *self,
    {
        ChainScraper { domain: self.domain.clone(), index_settings: self.index_settings }
    }
}

pub open spec fn context_of(c: ChainConfig) -> ChainScraper {
    ChainScraper { domain: c.domain, index_settings: c.index }
}

pub open spec fn has_id(s: Seq<ChainScraper>, id: u32) -> bool {
    exists|i: int| 0 <= i < s.len() && (#[trigger] s[i]).domain.id == id
}

pub open spec fn ids_unique(s: Seq<ChainScraper>) -> bool {
    forall|i: int, j: int|
        0 <= i < s.len() && 0 <= j < s.len() && i != j ==> (#[trigger] s[i]).domain.id != (
        #[trigger] s[j]).domain.id
}

/// Keyed insertion: replaces the context of the same chain id, else appends.
pub open spec fn insert_context(s: Seq<ChainScraper>, c: ChainScraper) -> Seq<ChainScraper> {
    if has_id(s, c.domain.id) {
        s.update(choose|i: int| 0 <= i < s.len() && (#[trigger] s[i]).domain.id == c.domain.id, c)
    } else {
        s.push(c)
    }
}

/// One context per chain id, the last configuration of an id winning.
pub open spec fn spec_contexts(chains: Seq<ChainConfig>) -> Seq<ChainScraper>
    decreases chains.len(),
{
    if chains.len() == 0 {
        seq![]
    } else {
        insert_context(spec_contexts(chains.drop_last()), context_of(chains.last()))
    }
}

pub open spec fn contexts_wf(s: Seq<ChainScraper>) -> bool {
    &&& ids_unique(s)
    &&& forall|i: int| 0 <= i < s.len() ==> (#[trigger] s[i]).index_settings.wf()
}

/// The orchestrator: per-chain contexts built once from validated settings.
pub struct Scraper {
    scrapers: Vec<ChainScraper>,
}

impl View for Scraper {
    type V = Seq<ChainScraper>;

    closed spec fn view(&self) -> Seq<ChainScraper> {
        self.scrapers@
    }
}

pub open spec fn ids_of(s: Seq<ChainScraper>) -> Seq<u32> {
    s.map_values(|c: ChainScraper| c.domain.id)
}

impl Scraper {
    pub open spec fn wf(&self) -> bool {
        contexts_wf(self@)
    }

    /// Builds one context per configured chain.
    pub fn from_settings(settings: &ScraperSettings) -> (r: Scraper)
        requires
            forall|i: int|
                0 <= i < settings.chains_to_scrape@.len()
                    ==> (#[trigger] settings.chains_to_scrape@[i]).index.wf(),
        ensures
            r.wf(),
            r@ == spec_contexts(settings.chains_to_scrape@),
    {
        let chains = &settings.chains_to_scrape;
        let mut scrapers: Vec<ChainScraper> = Vec::new();
        let mut i: usize = 0;
        proof {
            assert(chains@.take(0) =~= Seq::<ChainConfig>::empty());
        }
        while i < chains.len()
            invariant
                i <= chains@.len(),
                forall|k: int| 0 <= k < chains@.len() ==> (#[trigger] chains@[k]).index.wf(),
                contexts_wf(scrapers@),
                scrapers@ == spec_contexts(chains@.take(i as int)),
            decreases chains@.len() - i,
        {
            proof {
                assert(chains@.take(i as int + 1).drop_last() == chains@.take(i as int));
                assert(chains@.take(i as int + 1).last() == chains@[i as int]);
            }
            let c = &chains[i];
            let ctx = ChainScraper { domain: c.domain.clone(), index_settings: c.index };
            let id = c.domain.id;
            let mut j: usize = 0;
            let mut found: bool = false;
            while j < scrapers.len()
                invariant_except_break
                    !found,
                invariant
                    j <= scrapers@.len(),
                    forall|k: int| 0 <= k < j ==> (#[trigger] scrapers@[k]).domain.id != id,
                ensures
                    found ==> j < scrapers@.len() && scrapers@[j as int].domain.id == id,
                    !found ==> j == scrapers@.len(),
                decreases scrapers@.len() - j,
            {
                if scrapers[j].domain.id == id {
                    found = true;
                    break;
                }
                j = j + 1;
            }
            let ghost before = scrapers@;
            if found {
                proof {
                    assert(has_id(before, id));
                    let w = choose|k: int| 0 <= k < before.len() && (#[trigger] before[k]).domain.id == id;
                    assert(w == j);
                }
                scrapers.set(j, ctx);
            } else {
                proof {
                    assert(!has_id(before, id));
                }
                scrapers.push(ctx);
            }
            i = i + 1;
        }
        proof {
            assert(chains@.take(chains@.len() as int) == chains@);
        }
        Scraper { scrapers }
    }

    /// The ids of the chains, in context order.
    pub fn domain_ids(&self) -> (r: Vec<u32>)
        ensures
            r@ == ids_of(self@),
    {
        let mut ids: Vec<u32> = Vec::new();
        let mut i: usize = 0;
        while i < self.scrapers.len()
            invariant
                i <= self@.len(),
                self@ == self.scrapers@,
                ids@ == ids_of(self@.take(i as int)),
            decreases self@.len() - i,
        {
            proof {
                assert(ids_of(self@.take(i as int + 1)) == ids_of(self@.take(i as int)).push(
                    self@[i as int].domain.id,
                ));
            }
            ids.push(self.scrapers[i].domain.id);
            i = i + 1;
        }
        proof {
            assert(self@.take(i as int) == self@);
        }
        ids
    }

    /// The context of a chain, if it is configured.
    pub fn chain(&self, domain_id: u32) -> (r: Option<ChainScraper>)
        requires
            self.wf(),
        ensures
            r is Some <==> has_id(self@, domain_id),
            r matches Some(c) ==> exists|i: int| 0 <= i < self@.len() && self@[i] == c && c.domain.id
                == domain_id,
    {
        let mut i: usize = 0;
        while i < self.scrapers.len()
            invariant
                i <= self@.len(),
                self@ == self.scrapers@,
                forall|k: int| 0 <= k < i ==> (#[trigger] self@[k]).domain.id != domain_id,
            decreases self@.len() - i,
        {
            if self.scrapers[i].domain.id == domain_id {
                let c = self.scrapers[i].clone();
                assert(self@[i as int] == c);
                return Some(c);
            }
            i = i + 1;
        }
        None
    }

    /// The supervisor of every task of every chain, all running.
    pub fn supervisor(&self) -> (r: Supervisor)
        requires
            3 * self@.len() <= usize::MAX,
        ensures
            r.wf(),
            r@.tags == spec_plan(ids_of(self@)),
            r@.first_exit is None,
    {
        let ids = self.domain_ids();
        Supervisor::new(&ids)
    }

    /// The three tasks of one chain: dispatch, delivery and gas payment, each
    /// resumed from its persisted position if there is one. `None` for a chain
    /// that is not configured.
    pub fn scrape(
        &self,
        domain_id: u32,
        dispatch_from: Option<u64>,
        delivery_from: Option<u64>,
        gas_payment_from: Option<u64>,
        tip: u64,
    ) -> (r: Option<Vec<SyncTask>>)
        requires
            self.wf(),
        ensures
            r is Some <==> has_id(self@, domain_id),
            r matches Some(tasks) ==> {
                &&& tasks@.len() == 3
                &&& tasks@[0]@.kind == EventKind::Dispatch
                &&& tasks@[1]@.kind == EventKind::Delivery
                &&& tasks@[2]@.kind == EventKind::GasPayment
                &&& task_built(tasks@[0], self@, domain_id, dispatch_from, tip)
                &&& task_built(tasks@[1], self@, domain_id, delivery_from, tip)
                &&& task_built(tasks@[2], self@, domain_id, gas_payment_from, tip)
            },
    {
        match self.chain(domain_id) {
            None => None,
            Some(c) => {
                proof {
                    let i = choose|i: int| 0 <= i < self@.len() && self@[i] == c && c.domain.id == domain_id;
                    assert(self@[i].index_settings.wf());
                }
                let mut tasks: Vec<SyncTask> = Vec::new();
                tasks.push(build_indexer(&c, EventKind::Dispatch, dispatch_from, tip));
                tasks.push(build_indexer(&c, EventKind::Delivery, delivery_from, tip));
                tasks.push(build_indexer(&c, EventKind::GasPayment, gas_payment_from, tip));
                Some(tasks)
            },
        }
    }
}

/// A fresh task for `kind` on the configured chain `domain_id`, its cursor
/// chosen by the kind and placed per the persisted position.
pub open spec fn task_built(
    t: SyncTask,
    s: Seq<ChainScraper>,
    domain_id: u32,
    persisted: Option<u64>,
    tip: u64,
) -> bool {
    exists|i: int|
        0 <= i < s.len() && (#[trigger] s[i]).domain.id == domain_id && built_from(
            t,
            s[i],
            t@.kind,
            persisted,
            tip,
        )
}

pub open spec fn built_from(t: SyncTask, c: ChainScraper, kind: EventKind, persisted: Option<u64>, tip: u64) -> bool {
    &&& t.wf()
    &&& t@.chain_id == c.domain.id
    &&& t@.kind == kind
    &&& t@.phase == Phase::Ready
    &&& t@.cursor.strategy == spec_strategy_for(kind)
    &&& t@.cursor.start == c.index_settings.from
    &&& t@.cursor.chunk == c.index_settings.chunk_size
    &&& t@.cursor.tip == tip
    &&& t@.cursor.position == match persisted {
        Some(p) => resume_position(spec_strategy_for(kind), c.index_settings.from as nat, p as nat),
        None => c.index_settings.from as nat,
    }
}

/// The one task builder shared by all event kinds.
pub fn build_indexer(c: &ChainScraper, kind: EventKind, persisted: Option<u64>, tip: u64) -> (r: SyncTask)
    requires
        c.index_settings.wf(),
    ensures
        built_from(r, *c, kind, persisted, tip),
{
    SyncTask::new(c.domain.id, kind, &c.index_settings, persisted, tip)
}

} // verus!
