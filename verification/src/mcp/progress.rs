//! Progress that a tool server reports, and who it is for.
//!
//! Progress reaches only the run that made the call it belongs to. What
//! arrives for no run is counted, and warned of once.
use super::client::{Id, RequestId};
use crate::text::search::{find, first_of, skip};
use crate::text::trim::{trim, trimmed};
use vstd::prelude::*;

verus! {

/// The product page that is announced to servers.
pub const AURA_WEBSITE_URL: &'static str = "https://www.mezmo.com/aura";

/// The version of this crate.
pub const CRATE_VERSION: &'static str = "0.1.0";

// ---------------------------------------------------------------------------
// Who the client says it is
// ---------------------------------------------------------------------------

/// Who the client says it is.
#[derive(Debug, PartialEq, Eq)]
pub struct Implementation {
    pub name: String,
    pub version: String,
    pub website_url: Option<String>,
}

/// The product that a `product/version` token names.
pub open spec fn product(user_agent: Seq<char>) -> Seq<char> {
    match first_of(user_agent, "/"@) {
        Some(i) => trimmed(user_agent.take(i)),
        None => trimmed(user_agent),
    }
}

/// The version that a `product/version` token names, or the crate's own where
/// it names none.
pub open spec fn version(user_agent: Seq<char>) -> Seq<char> {
    match first_of(user_agent, "/"@) {
        Some(i) => {
            let named = trimmed(user_agent.skip(i + 1));
            if named.len() == 0 {
                CRATE_VERSION@
            } else {
                named
            }
        },
        None => CRATE_VERSION@,
    }
}

/// Who a client with the given `product/version` token says it is.
pub fn implementation_from_user_agent(user_agent: &str) -> (r: Implementation)
    ensures
        r.name@ == product(user_agent@),
        r.version@ == version(user_agent@),
        r.website_url matches Some(url) && url@ == AURA_WEBSITE_URL@,
{
    let website_url = Some(AURA_WEBSITE_URL.to_owned());
    match find(user_agent, "/") {
        Some(i) => {
            proof {
                reveal_strlit("/");
            }
            let name = trim(user_agent.substring_char(0, i)).to_owned();
            let named = trim(skip(user_agent, i + 1));
            let version = if named.is_empty() {
                CRATE_VERSION.to_owned()
            } else {
                named.to_owned()
            };
            assert(user_agent@.subrange(0, i as int) =~= user_agent@.take(i as int));
            Implementation { name, version, website_url }
        },
        None => Implementation {
            name: trim(user_agent).to_owned(),
            version: CRATE_VERSION.to_owned(),
            website_url,
        },
    }
}

// ---------------------------------------------------------------------------
// Whom progress is for
// ---------------------------------------------------------------------------

/// The run that a call's progress token belongs to.
#[derive(Debug)]
struct TokenOwner {
    token: RequestId,
    run: String,
}

/// What becomes of a report of progress.
#[derive(Debug, PartialEq, Eq)]
pub enum ProgressStep {
    /// It goes to this run.
    Routed(String),
    /// It is for no run: the how-manieth such report it is, and whether this
    /// is to be warned of.
    Orphaned { count: u64, warn: bool },
}

/// Routes what servers report to the runs it is for.
#[derive(Debug)]
pub struct ProgressEnabledHandler {
    token_owners: Vec<TokenOwner>,
    logged_orphaned_warning: bool,
    orphaned_count: u64,
    client_info: Implementation,
}

/// The run that a token belongs to: the last one it was given to.
spec fn owner_in(owners: Seq<TokenOwner>, token: Id) -> Option<Seq<char>>
    decreases owners.len(),
{
    if owners.len() == 0 {
        None
    } else if owners.last().token@ == token {
        Some(owners.last().run@)
    } else {
        owner_in(owners.drop_last(), token)
    }
}

impl ProgressEnabledHandler {
    /// The run that a token belongs to.
    pub closed spec fn owner(self, token: Id) -> Option<Seq<char>> {
        owner_in(self.token_owners@, token)
    }

    /// Who the client says it is.
    pub closed spec fn info(self) -> Implementation {
        self.client_info
    }

    /// The number of reports for no run.
    pub closed spec fn orphans(self) -> u64 {
        self.orphaned_count
    }

    /// Whether reports for no run have been warned of.
    pub closed spec fn warned(self) -> bool {
        self.logged_orphaned_warning
    }

    /// A handler that knows of no run.
    pub fn new(user_agent: &str) -> (r: ProgressEnabledHandler)
        ensures
            forall|token: Id| (#[trigger] r.owner(token)) is None,
            r.orphans() == 0,
            !r.warned(),
            r.info().name@ == product(user_agent@),
            r.info().version@ == version(user_agent@),
            r.info().website_url matches Some(url) && url@ == AURA_WEBSITE_URL@,
    {
        ProgressEnabledHandler {
            token_owners: Vec::new(),
            logged_orphaned_warning: false,
            orphaned_count: 0,
            client_info: implementation_from_user_agent(user_agent),
        }
    }

    /// Who the client says it is.
    pub fn get_info(&self) -> (r: &Implementation)
        ensures
            *r == self.info(),
    {
        &self.client_info
    }

    /// The run that a token belongs to, or none once its call has ended.
    pub fn owner_of(&self, token: &RequestId) -> (r: Option<String>)
        ensures
            match r {
                Some(run) => self.owner(token@) == Some(run@),
                None => self.owner(token@) is None,
            },
    {
        let mut left: usize = self.token_owners.len();
        assert(self.token_owners@.take(left as int) =~= self.token_owners@);
        while left > 0
            invariant
                left <= self.token_owners.len(),
                self.owner(token@) == owner_in(self.token_owners@.take(left as int), token@),
            decreases left,
        {
            assert(self.token_owners@.take(left as int).drop_last()
                =~= self.token_owners@.take(left - 1));
            left = left - 1;
            if self.token_owners[left].token.is(token) {
                return Some(self.token_owners[left].run.clone());
            }
        }
        None
    }

    /// Gives a token to a run.
    pub fn own(&mut self, token: RequestId, run: String)
        ensures
            final(self).owner(token@) == Some(run@),
            forall|other: Id| other != token@ ==> #[trigger] final(self).owner(other) == old(
                self,
            ).owner(other),
            final(self).orphans() == old(self).orphans(),
            final(self).warned() == old(self).warned(),
            final(self).info() == old(self).info(),
    {
        let ghost before = self.token_owners@;
        self.token_owners.push(TokenOwner { token, run });
        assert(self.token_owners@.drop_last() =~= before);
    }

    /// Takes a token back: its call has ended.
    pub fn release(&mut self, token: &RequestId)
        ensures
            final(self).owner(token@) is None,
            forall|other: Id| other != token@ ==> #[trigger] final(self).owner(other) == old(
                self,
            ).owner(other),
            final(self).orphans() == old(self).orphans(),
            final(self).warned() == old(self).warned(),
            final(self).info() == old(self).info(),
    {
        let mut kept: Vec<TokenOwner> = Vec::new();
        for i in 0..self.token_owners.len()
            invariant
                *self == *old(self),
                owner_in(kept@, token@) is None,
                forall|other: Id|
                    other != token@ ==> #[trigger] owner_in(kept@, other) == owner_in(
                        self.token_owners@.take(i as int),
                        other,
                    ),
        {
            let ghost before = kept@;
            assert(self.token_owners@.take(i + 1).drop_last() =~= self.token_owners@.take(
                i as int,
            ));
            if !self.token_owners[i].token.is(token) {
                let run = self.token_owners[i].run.clone();
                kept.push(TokenOwner { token: self.token_owners[i].token.clone(), run });
                assert(kept@.drop_last() =~= before);
            }
            proof {
                let seen = self.token_owners@.take(i + 1);
                assert forall|other: Id| other != token@ implies #[trigger] owner_in(kept@, other)
                    == owner_in(seen, other) by {
                    assert(owner_in(before, other) == owner_in(seen.drop_last(), other));
                }
            }
        }
        assert(self.token_owners@.take(self.token_owners.len() as int) =~= self.token_owners@);
        self.token_owners = kept;
    }

    /// The number of reports for no run.
    pub fn orphaned_count(&self) -> (r: u64)
        ensures
            r == self.orphans(),
    {
        self.orphaned_count
    }

    /// Whether reports for no run have been warned of.
    pub fn logged_orphaned_warning(&self) -> (r: bool)
        ensures
            r == self.warned(),
    {
        self.logged_orphaned_warning
    }

    /// Starts counting and warning anew.
    pub fn reset_orphaned_tracking(&mut self)
        ensures
            final(self).orphans() == 0,
            !final(self).warned(),
            final(self).info() == old(self).info(),
            forall|token: Id| #[trigger] final(self).owner(token) == old(self).owner(token),
    {
        self.logged_orphaned_warning = false;
        self.orphaned_count = 0;
    }

    /// What becomes of a report for `run`.
    pub fn on_progress_for(&mut self, run: Option<String>) -> (r: ProgressStep)
        ensures
            match run {
                Some(run) => r == ProgressStep::Routed(run) && *final(self) == *old(self),
                None => {
                    &&& r == (ProgressStep::Orphaned {
                        count: final(self).orphans(),
                        warn: !old(self).warned(),
                    })
                    &&& final(self).orphans() == if old(self).orphans() == u64::MAX {
                        0
                    } else {
                        old(self).orphans() + 1
                    }
                    &&& final(self).warned()
                    &&& final(self).info() == old(self).info()
                    &&& forall|token: Id| #[trigger]
                        final(self).owner(token) == old(self).owner(token)
                },
            },
    {
        match run {
            Some(run) => ProgressStep::Routed(run),
            None => {
                let count: u64 = self.orphaned_count.wrapping_add(1);
                let warn = !self.logged_orphaned_warning;
                self.orphaned_count = count;
                self.logged_orphaned_warning = true;
                ProgressStep::Orphaned { count, warn }
            },
        }
    }

    /// What becomes of a report with the given token.
    pub fn on_progress(&mut self, token: &RequestId) -> (r: ProgressStep)
        ensures
            match old(self).owner(token@) {
                Some(run) => r matches ProgressStep::Routed(to) && to@ == run && *final(self)
                    == *old(self),
                None => {
                    &&& r == (ProgressStep::Orphaned {
                        count: final(self).orphans(),
                        warn: !old(self).warned(),
                    })
                    &&& final(self).orphans() == if old(self).orphans() == u64::MAX {
                        0
                    } else {
                        old(self).orphans() + 1
                    }
                    &&& final(self).warned()
                    &&& final(self).info() == old(self).info()
                    &&& forall|other: Id| #[trigger]
                        final(self).owner(other) == old(self).owner(other)
                },
            },
    {
        let run = self.owner_of(token);
        self.on_progress_for(run)
    }
}

} // verus!
