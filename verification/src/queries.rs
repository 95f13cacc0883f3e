//! Read-only queries on the store, and the lookups the HTTP handlers turn
//! into `404` answers.

use vstd::prelude::*;
use vstd::std_specs::cmp::OrdSpec;

use crate::db::DbView;
use crate::model::{ApiError, BountyRecord, FreelancerRecord};
use crate::paging::{page_limit, page_number, page_of, resolve_limit, resolve_page, take_page, Page};
use crate::store::Store;
use crate::str_map::strictly_sorted;
use crate::text::{compare_text, lemma_text_order_equal, TextOrder};

verus! {

/// `s` lists the values of `m` in ascending order of their keys.
pub open spec fn listed_by_id(m: Map<u64, BountyRecord>, s: Seq<BountyRecord>) -> bool {
    exists|ks: Seq<u64>|
        {
            &&& ks.len() == s.len()
            &&& ks.to_set() == m.dom()
            &&& forall|i: int, j: int| 0 <= i < j < ks.len() ==> #[trigger] ks[i] < #[trigger] ks[j]
            &&& forall|i: int| 0 <= i < ks.len() ==> #[trigger] s[i] == m[ks[i]]
        }
}

/// The profiles stored in `m` under the addresses `addrs`, in that order;
/// addresses without a profile are skipped.
pub open spec fn profiles_at(addrs: Seq<Seq<char>>, m: Map<Seq<char>, FreelancerRecord>) -> Seq<
    FreelancerRecord,
>
    decreases addrs.len(),
{
    if addrs.len() == 0 {
        Seq::empty()
    } else {
        let rest = profiles_at(addrs.drop_last(), m);
        if m.contains_key(addrs.last()) {
            rest.push(m[addrs.last()])
        } else {
            rest
        }
    }
}

/// `r` holds the profiles of the addresses in `addrs`, in ascending address
/// order, skipping addresses without a profile.
pub open spec fn listed_by_address(
    addrs: Set<Seq<char>>,
    m: Map<Seq<char>, FreelancerRecord>,
    r: Seq<FreelancerRecord>,
) -> bool {
    exists|ks: Seq<Seq<char>>|
        {
            &&& strictly_sorted(ks)
            &&& ks.to_set() == addrs
            &&& r == profiles_at(ks, m)
        }
}

/// A discipline filter that is present and not empty.
pub open spec fn filters_discipline(discipline: Option<&str>) -> bool {
    discipline matches Some(d) && d@.len() > 0
}

/// `r` is the listing of freelancers for the filter `discipline`: those
/// filed under it when it is given and not empty (none when nothing is
/// filed under it), otherwise all of them, in ascending address order.
pub open spec fn freelancer_listing(
    db: DbView,
    discipline: Option<&str>,
    r: Seq<FreelancerRecord>,
) -> bool {
    if filters_discipline(discipline) {
        if db.discipline_index.contains_key(discipline->0@) {
            listed_by_address(db.discipline_index[discipline->0@], db.freelancers, r)
        } else {
            r == Seq::<FreelancerRecord>::empty()
        }
    } else {
        listed_by_address(db.freelancers.dom(), db.freelancers, r)
    }
}

/// The bounties of `s` whose status is `status`, in order.
pub open spec fn with_status(s: Seq<BountyRecord>, status: Seq<char>) -> Seq<BountyRecord>
    decreases s.len(),
{
    if s.len() == 0 {
        Seq::empty()
    } else {
        let rest = with_status(s.drop_last(), status);
        if s.last().status@ == status {
            rest.push(s.last())
        } else {
            rest
        }
    }
}

/// `s` narrowed to the status `status` when it is given and not empty.
pub open spec fn filter_by_status(s: Seq<BountyRecord>, status: Option<&str>) -> Seq<BountyRecord> {
    match status {
        Some(st) => if st@.len() > 0 {
            with_status(s, st@)
        } else {
            s
        },
        None => s,
    }
}

/// `r` is the page `page` (of `limit` items) of the bounties in ascending
/// id order, narrowed to `status`; its total counts the narrowed listing.
pub open spec fn bounty_page(
    db: DbView,
    page: Option<u32>,
    limit: Option<u32>,
    status: Option<&str>,
    r: Page<BountyRecord>,
) -> bool {
    exists|all: Seq<BountyRecord>|
        {
            &&& listed_by_id(db.bounties, all)
            &&& r.total == filter_by_status(all, status).len()
            &&& r.items@ == page_of(
                filter_by_status(all, status),
                page_number(page),
                page_limit(limit),
            )
            &&& r.page == page_number(page)
            &&& r.limit == Some(page_limit(limit))
        }
}

/// `r` is the page `page` (of `limit` items) of the freelancer listing for
/// `discipline`, or the whole listing when no `limit` is given; its total
/// counts the whole listing.
pub open spec fn freelancer_page(
    db: DbView,
    discipline: Option<&str>,
    page: Option<u32>,
    limit: Option<u32>,
    r: Page<FreelancerRecord>,
) -> bool {
    exists|all: Seq<FreelancerRecord>|
        {
            &&& freelancer_listing(db, discipline, all)
            &&& r.total == all.len()
            &&& r.items@ == match limit {
                Some(l) => page_of(all, page_number(page), l),
                None => all,
            }
            &&& r.page == page_number(page)
            &&& r.limit == limit
        }
}

/// Keys that a `BTreeMap<u64, _>` walks in "increasing" order are strictly
/// ascending.
proof fn lemma_increasing_ids(ks: Seq<u64>)
    requires
        vstd::std_specs::btree::increasing_seq(ks),
    ensures
        forall|i: int, j: int| 0 <= i < j < ks.len() ==> #[trigger] ks[i] < #[trigger] ks[j],
{
    broadcast use vstd::std_specs::btree::axiom_increasing_seq_meaning;

    assert(vstd::laws_cmp::obeys_cmp::<u64>());
    assert forall|i: int, j: int| 0 <= i < j < ks.len() implies #[trigger] ks[i]
        < #[trigger] ks[j] by {
        assert(ks[i].cmp_spec(&ks[j]) is Less);
    }
}

impl Store {
    /// Every bounty, in ascending order of id.
    pub fn list_bounties(&self) -> (r: Vec<BountyRecord>)
        ensures
            listed_by_id(self.db@.bounties, r@),
    {
        let mut out: Vec<BountyRecord> = Vec::new();
        let values = self.db.bounties.values();
        let ghost m = self.db.bounties@;
        let ghost ks = choose|ks: Seq<u64>|
            {
                &&& vstd::std_specs::btree::increasing_seq(ks)
                &&& ks.to_set() == m.dom()
                &&& ks.no_duplicates()
                &&& vstd::std_specs::iter::IteratorSpec::remaining(&values) == ks.map(
                    |i: int, k: u64| &m[k],
                )
            };
        for b in it: values
            invariant
                it.seq() == ks.map(|i: int, k: u64| &m[k]),
                out@.len() == it.index(),
                forall|i: int| 0 <= i < it.index() ==> #[trigger] out@[i] == m[ks[i]],
        {
            assert(it.seq()[it.index()] == &m[ks[it.index()]]);
            out.push(b.clone());
        }
        proof {
            assert(ks.len() == out@.len());
            lemma_increasing_ids(ks);
        }
        out
    }

    /// The bounty with id `bounty_id`.
    pub fn get_bounty(&self, bounty_id: u64) -> (r: Option<BountyRecord>)
        ensures
            r == if self.db@.bounties.contains_key(bounty_id) {
                Some(self.db@.bounties[bounty_id])
            } else {
                None
            },
    {
        match self.db.bounties.get(&bounty_id) {
            Some(b) => Some(b.clone()),
            None => None,
        }
    }

    /// The bounty with id `bounty_id`, or `NotFound`.
    pub fn bounty_or_not_found(&self, bounty_id: u64) -> (r: Result<BountyRecord, ApiError>)
        ensures
            self.db@.bounties.contains_key(bounty_id) ==> r == Ok::<BountyRecord, ApiError>(
                self.db@.bounties[bounty_id],
            ),
            !self.db@.bounties.contains_key(bounty_id) ==> (r matches Err(ApiError::NotFound(m))
                && m@ == "Bounty not found"@),
    {
        match self.get_bounty(bounty_id) {
            Some(b) => Ok(b),
            None => Err(ApiError::NotFound("Bounty not found".to_string())),
        }
    }

    /// The profile registered under `address`.
    pub fn get_freelancer(&self, address: &str) -> (r: Option<FreelancerRecord>)
        ensures
            r == if self.db@.freelancers.contains_key(address@) {
                Some(self.db@.freelancers[address@])
            } else {
                None
            },
    {
        match self.db.freelancers.get(address) {
            Some(f) => Some(f.clone()),
            None => None,
        }
    }

    /// The profile registered under `address`, or `NotFound`.
    pub fn freelancer_or_not_found(&self, address: &str) -> (r: Result<FreelancerRecord, ApiError>)
        ensures
            self.db@.freelancers.contains_key(address@) ==> r == Ok::<FreelancerRecord, ApiError>(
                self.db@.freelancers[address@],
            ),
            !self.db@.freelancers.contains_key(address@) ==> (r matches Err(
                ApiError::NotFound(m),
            ) && m@ == "Freelancer not found"@),
    {
        match self.get_freelancer(address) {
            Some(f) => Ok(f),
            None => Err(ApiError::NotFound("Freelancer not found".to_string())),
        }
    }

    /// The profiles filed under `discipline` in ascending address order, or,
    /// when no discipline (or an empty one) is given, every profile in
    /// ascending address order.
    pub fn list_freelancers(&self, discipline: Option<&str>) -> (r: Vec<FreelancerRecord>)
        ensures
            freelancer_listing(self.db@, discipline, r@),
    {
        let mut out: Vec<FreelancerRecord> = Vec::new();
        let wanted = match discipline {
            Some(d) => {
                if d.is_empty() {
                    None
                } else {
                    Some(d)
                }
            },
            None => None,
        };
        match wanted {
            Some(d) => {
                match self.db.discipline_index.get(d) {
                    Some(addresses) => {
                        let n = addresses.len();
                        let ghost ks = addresses.keys();
                        let ghost m = self.db@.freelancers;
                        let mut i: usize = 0;
                        assert(ks.take(0) =~= Seq::<Seq<char>>::empty());
                        while i < n
                            invariant
                                n == ks.len(),
                                ks == addresses.keys(),
                                m == self.db@.freelancers,
                                i <= n,
                                out@ == profiles_at(ks.take(i as int), m),
                            decreases n - i,
                        {
                            let address = addresses.key_at(i);
                            assert(ks.take(i + 1).drop_last() =~= ks.take(i as int));
                            match self.db.freelancers.get(address.as_str()) {
                                Some(f) => {
                                    out.push(f.clone());
                                },
                                None => {},
                            }
                            i = i + 1;
                        }
                        assert(ks.take(n as int) =~= ks);
                        assert(addresses@.dom() == self.db@.discipline_index[d@]);
                    },
                    None => {},
                }
            },
            None => {
                let n = self.db.freelancers.len();
                let ghost ks = self.db.freelancers.keys();
                let ghost m = self.db@.freelancers;
                let mut i: usize = 0;
                assert(ks.take(0) =~= Seq::<Seq<char>>::empty());
                while i < n
                    invariant
                        n == ks.len(),
                        ks == self.db.freelancers.keys(),
                        m == self.db@.freelancers,
                        i <= n,
                        out@ == profiles_at(ks.take(i as int), m),
                    decreases n - i,
                {
                    let f = self.db.freelancers.value_at(i);
                    assert(ks.take(i + 1).drop_last() =~= ks.take(i as int));
                    out.push(f.clone());
                    i = i + 1;
                }
                assert(ks.take(n as int) =~= ks);
            },
        }
        out
    }

    /// One page of the bounties in ascending id order, narrowed to `status`
    /// when it is given and not empty; pages count from 1 (default 1) and
    /// hold `limit` bounties (default 10).
    pub fn list_bounties_page(&self, page: Option<u32>, limit: Option<u32>, status: Option<&str>) -> (r:
        Page<BountyRecord>)
        ensures
            bounty_page(self.db@, page, limit, status, r),
    {
        let all = self.list_bounties();
        let filtered = match status {
            Some(st) => {
                if st.is_empty() {
                    all
                } else {
                    let n = all.len();
                    let mut kept: Vec<BountyRecord> = Vec::new();
                    let mut i: usize = 0;
                    assert(all@.take(0) =~= Seq::<BountyRecord>::empty());
                    while i < n
                        invariant
                            n == all@.len(),
                            i <= n,
                            kept@ == with_status(all@.take(i as int), st@),
                        decreases n - i,
                    {
                        assert(all@.take(i + 1).drop_last() =~= all@.take(i as int));
                        if compare_text(all[i].status.as_str(), st) == TextOrder::Equal {
                            proof {
                                lemma_text_order_equal(all@[i as int].status@, st@);
                            }
                            kept.push(all[i].clone());
                        } else {
                            proof {
                                lemma_text_order_equal(all@[i as int].status@, st@);
                            }
                        }
                        i = i + 1;
                    }
                    assert(all@.take(n as int) =~= all@);
                    kept
                }
            },
            None => all,
        };
        let total = filtered.len();
        let p = resolve_page(page);
        let l = resolve_limit(limit);
        let items = take_page(filtered, p, l);
        Page { items, total, page: p, limit: Some(l) }
    }

    /// One page of the freelancer listing for `discipline` (see
    /// [`Store::list_freelancers`]); pages count from 1 (default 1) and hold
    /// `limit` profiles; without a `limit` the whole listing is returned.
    pub fn list_freelancers_page(
        &self,
        discipline: Option<&str>,
        page: Option<u32>,
        limit: Option<u32>,
    ) -> (r: Page<FreelancerRecord>)
        ensures
            freelancer_page(self.db@, discipline, page, limit, r),
    {
        let all = self.list_freelancers(discipline);
        let total = all.len();
        let p = resolve_page(page);
        let items = match limit {
            Some(l) => take_page(all, p, l),
            None => all,
        };
        Page { items, total, page: p, limit }
    }
}

} // verus!
