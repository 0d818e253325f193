//! The fan-in collector: merges the per-account streams into one arrival
//! stream, tracks which account streams are still active, and hands the
//! merged stream to the digest builder once every stream has ended.
//!
//! Items from different accounts may arrive in any interleaving; the
//! collector records each arrival with its account, so that the per-account
//! order and the independence of the accounts can be stated exactly.

use vstd::prelude::*;
use crate::digest::{build_digest, ids_of, keeps_most_recent, lemma_digest_filtered,
    repo_timestamps_le, sorted_desc, unique_ids};
use crate::github::{spec_passes_filter, Repository};
use vstd::pervasive::VecAdditionalExecFns;

verus! {

/// The restriction of the merged arrival stream to one account's items, in
/// arrival order.
pub open spec fn project(s: Seq<(usize, Repository)>, account: usize) -> Seq<Repository>
    decreases s.len(),
{
    if s.len() == 0 {
        Seq::empty()
    } else {
        let rest = project(s.drop_last(), account);
        if s.last().0 == account {
            rest.push(s.last().1)
        } else {
            rest
        }
    }
}

/// The merged arrival stream without its account labels.
pub open spec fn merged(s: Seq<(usize, Repository)>) -> Seq<Repository> {
    s.map_values(|p: (usize, Repository)| p.1)
}

/// How one account's stream stands: still producing, finished its
/// pagination, or ended by a fetch failure.
pub enum AccountStatus {
    Active,
    Completed,
    Failed,
}

/// The fan-in collector: the arrival stream collected so far, each item
/// labelled with the account that produced it, and each account's status.
pub struct Collector {
    pub items: Vec<(usize, Repository)>,
    pub statuses: Vec<AccountStatus>,
}

impl Collector {
    /// A collector for `n_accounts` accounts, all active, nothing arrived.
    pub fn new(n_accounts: usize) -> (c: Collector)
        ensures
            c.items@.len() == 0,
            c.statuses@.len() == n_accounts,
            forall|a: int| 0 <= a < n_accounts ==> c.statuses@[a] is Active,
    {
        let mut statuses: Vec<AccountStatus> = Vec::new();
        let mut i: usize = 0;
        while i < n_accounts
            invariant
                i <= n_accounts,
                statuses@.len() == i,
                forall|a: int| 0 <= a < i ==> statuses@[a] is Active,
            decreases n_accounts - i,
        {
            statuses.push(AccountStatus::Active);
            i = i + 1;
        }
        Collector { items: Vec::new(), statuses }
    }

    /// Records the arrival of one item from `account`. The item is appended
    /// to the merged stream, so `account`'s own projection grows by exactly
    /// this item while every other account's projection is untouched: the
    /// merge preserves per-account emission order, whatever the
    /// interleaving.
    pub fn push(&mut self, account: usize, item: Repository)
        requires
            account < old(self).statuses@.len(),
            old(self).statuses@[account as int] is Active,
            spec_passes_filter(item),
        ensures
            final(self).items@ == old(self).items@.push((account, item)),
            final(self).statuses@ == old(self).statuses@,
            forall|a: usize| project(final(self).items@, a) == (if a == account {
                project(old(self).items@, a).push(item)
            } else {
                project(old(self).items@, a)
            }),
    {
        self.items.push((account, item));
        proof {
            assert forall|a: usize| project(self.items@, a) == (if a == account {
                project(old(self).items@, a).push(item)
            } else {
                project(old(self).items@, a)
            }) by {
                assert(self.items@.drop_last() =~= old(self).items@);
            }
        }
    }

    /// Records that `account`'s stream finished its pagination. Nothing
    /// already collected changes, and no other account is touched.
    pub fn finish(&mut self, account: usize)
        requires
            account < old(self).statuses@.len(),
        ensures
            final(self).items@ == old(self).items@,
            final(self).statuses@ == old(self).statuses@.update(
                account as int, AccountStatus::Completed),
    {
        self.statuses.set(account, AccountStatus::Completed);
    }

    /// Records that `account`'s stream ended with a fetch failure. The
    /// failure is local to that account: nothing already collected changes,
    /// and no other account is touched.
    pub fn fail(&mut self, account: usize)
        requires
            account < old(self).statuses@.len(),
        ensures
            final(self).items@ == old(self).items@,
            final(self).statuses@ == old(self).statuses@.update(
                account as int, AccountStatus::Failed),
    {
        self.statuses.set(account, AccountStatus::Failed);
    }

    /// Whether every account's stream has ended, by completion or failure:
    /// only then may the merged stream be consumed.
    pub fn all_done(&self) -> (r: bool)
        ensures
            r == forall|a: int| 0 <= a < self.statuses@.len() ==> !(self.statuses@[a] is Active),
    {
        let n = self.statuses.len();
        let mut i: usize = 0;
        while i < n
            invariant
                i <= n == self.statuses@.len(),
                forall|a: int| 0 <= a < i ==> !(self.statuses@[a] is Active),
            decreases n - i,
        {
            match self.statuses[i] {
                AccountStatus::Active => {
                    return false;
                },
                _ => {},
            }
            i = i + 1;
        }
        true
    }

    /// Consumes the collector once every stream has ended and builds the
    /// digest from the merged stream. Which accounts failed plays no part:
    /// the digest is a function of the collected items alone, so accounts
    /// that succeeded contribute even when others failed.
    pub fn into_digest(self, max_digest_size: usize) -> (digest: Vec<Repository>)
        requires
            forall|a: int| 0 <= a < self.statuses@.len() ==> !(self.statuses@[a] is Active),
            forall|k: int| 0 <= k < self.items@.len() ==> spec_passes_filter(
                #[trigger] self.items@[k].1),
        ensures
            digest@.len() <= max_digest_size,
            digest@.len() == if ids_of(merged(self.items@)).len() <= max_digest_size {
                ids_of(merged(self.items@)).len() as int
            } else {
                max_digest_size as int
            },
            sorted_desc(digest@),
            unique_ids(digest@),
            forall|k: int| 0 <= k < digest@.len() ==> merged(self.items@).contains(digest@[k]),
            forall|k: int| 0 <= k < digest@.len() ==> spec_passes_filter(digest@[k]),
            repo_timestamps_le(merged(self.items@), digest@),
            keeps_most_recent(merged(self.items@), digest@),
    {
        let ghost labelled = self.items@;
        let mut rest = self.items;
        let mut candidates: Vec<Repository> = Vec::new();
        while rest.len() > 0
            invariant
                candidates@ + merged(rest@) == merged(labelled),
                forall|k: int| 0 <= k < rest@.len() ==> labelled.contains(#[trigger] rest@[k]),
            decreases rest@.len(),
        {
            let ghost pre = rest@;
            let p = rest.remove(0);
            candidates.push(p.1);
            proof {
                assert(pre.remove(0) =~= pre.drop_first());
                assert(candidates@ + merged(rest@) =~= merged(labelled));
            }
        }
        proof {
            assert(candidates@ =~= merged(labelled));
            assert forall|k: int| 0 <= k < candidates@.len() implies spec_passes_filter(
                candidates@[k]) by {
                assert(candidates@[k] == labelled[k].1);
            }
        }
        let digest = build_digest(candidates, max_digest_size);
        proof {
            lemma_digest_filtered(merged(labelled), digest@);
        }
        digest
    }
}

/// Per-account order: appending one arrival from account `b` to the merged
/// stream appends that item to `b`'s projection and leaves every other
/// account's projection unchanged. The merged stream restricted to one
/// account is therefore exactly that account's emission sequence, in
/// emission order, regardless of how the accounts interleave.
pub proof fn lemma_per_account_order(
    s: Seq<(usize, Repository)>,
    a: usize,
    b: usize,
    x: Repository,
)
    ensures
        project(s.push((b, x)), a) == (if a == b {
            project(s, a).push(x)
        } else {
            project(s, a)
        }),
{
    assert(s.push((b, x)).drop_last() =~= s);
}

/// Graceful degradation: when one account's stream ends in failure, the
/// collected stream is unchanged — every account's projection, including the
/// failing account's already-emitted items, survives into the digest
/// computation, which reads the collected items alone.
pub proof fn lemma_graceful_degradation(pre: Collector, post: Collector, failed: usize)
    requires
        failed < pre.statuses@.len(),
        post.items@ == pre.items@,
        post.statuses@ == pre.statuses@.update(failed as int, AccountStatus::Failed),
    ensures
        merged(post.items@) == merged(pre.items@),
        forall|a: usize| project(post.items@, a) == project(pre.items@, a),
        forall|a: int| 0 <= a < pre.statuses@.len() && a != failed ==> post.statuses@[a]
            == pre.statuses@[a],
{
}

} // verus!
