//! Claim coordination: the decisions of a single-identity claim, and the
//! outcome of each identity of a batch, one per decodable identity.
use vstd::prelude::*;
use crate::credentials::{decodable_addresses, decode_identity, identity_address_of, Identity};
use crate::text::string_views;
use crate::display::{short_address, short_address_spec};

verus! {

/// Upper bound, in seconds, on the wall-clock time of one claim of a batch.
pub const CLAIM_TIMEOUT_SECS: u64 = 30;

/// Compute unit ceiling of a solo claim transaction.
pub const SOLO_CLAIM_COMPUTE_UNITS: u32 = 32_000;

/// Compute unit ceiling of a pool claim transaction.
pub const POOL_CLAIM_COMPUTE_UNITS: u32 = 50_000;

/// Compute unit ceiling of the transaction that creates the signer's own
/// token account.
pub const ACCOUNT_SETUP_COMPUTE_UNITS: u32 = 400_000;

/// Where a claim is made: against the identity's own proof account or
/// against its membership in a pool.
#[derive(Clone, Copy, PartialEq, Eq, Debug)]
pub enum ClaimRoute {
    Solo,
    Pool,
}

/// The route of a claim: a pool claim exactly when a pool URL is configured.
pub fn claim_route(pool_configured: bool) -> (r: ClaimRoute)
    ensures
        r == (if pool_configured { ClaimRoute::Pool } else { ClaimRoute::Solo }),
{
    if pool_configured {
        ClaimRoute::Pool
    } else {
        ClaimRoute::Solo
    }
}

pub open spec fn compute_units_spec(route: ClaimRoute) -> u32 {
    match route {
        ClaimRoute::Solo => SOLO_CLAIM_COMPUTE_UNITS,
        ClaimRoute::Pool => POOL_CLAIM_COMPUTE_UNITS,
    }
}

/// The compute unit ceiling of a claim transaction on each route.
pub fn claim_compute_units(route: ClaimRoute) -> (r: u32)
    ensures
        r == compute_units_spec(route),
{
    match route {
        ClaimRoute::Solo => SOLO_CLAIM_COMPUTE_UNITS,
        ClaimRoute::Pool => POOL_CLAIM_COMPUTE_UNITS,
    }
}

/// The amount to claim: the requested amount if one is given, else the
/// whole balance fetched.
pub fn claim_amount(requested: Option<u64>, balance: u64) -> (r: u64)
    ensures
        r == (match requested {
            Some(a) => a,
            None => balance,
        }),
{
    match requested {
        Some(a) => a,
        None => balance,
    }
}

/// How the token account that receives a claim comes to exist.
#[derive(Clone, Copy, PartialEq, Eq, Debug)]
pub enum AccountSetup {
    /// It exists already.
    Exists,
    /// The signer's own account is created first, in a transaction of its own.
    CreateOwnFirst,
    /// The foreign wallet's account is created by an instruction placed
    /// before the claim, in the claim's transaction.
    CreateWithClaim,
}

pub open spec fn account_setup_spec(foreign_beneficiary: bool, account_exists: bool) -> AccountSetup {
    if account_exists {
        AccountSetup::Exists
    } else if foreign_beneficiary {
        AccountSetup::CreateWithClaim
    } else {
        AccountSetup::CreateOwnFirst
    }
}

/// Whether the beneficiary is the signer itself (no address given) and
/// whether its token account exists decide how the account is set up.
pub fn account_setup(foreign_beneficiary: bool, account_exists: bool) -> (r: AccountSetup)
    ensures
        r == account_setup_spec(foreign_beneficiary, account_exists),
{
    if account_exists {
        AccountSetup::Exists
    } else if foreign_beneficiary {
        AccountSetup::CreateWithClaim
    } else {
        AccountSetup::CreateOwnFirst
    }
}

/// What a single-identity claim hands to the transaction service.
pub struct ClaimPlan {
    pub route: ClaimRoute,
    pub amount: u64,
    pub setup: AccountSetup,
    pub compute_units: u32,
}

/// Plans a single-identity claim: its route, the amount, how the receiving
/// token account is set up, and the compute unit ceiling.
pub fn plan_claim(
    pool_configured: bool,
    requested: Option<u64>,
    available: u64,
    foreign_beneficiary: bool,
    account_exists: bool,
) -> (r: ClaimPlan)
    ensures
        r.route == (if pool_configured { ClaimRoute::Pool } else { ClaimRoute::Solo }),
        r.amount == (match requested {
            Some(a) => a,
            None => available,
        }),
        r.setup == account_setup_spec(foreign_beneficiary, account_exists),
        r.compute_units == compute_units_spec(r.route),
{
    let route = claim_route(pool_configured);
    ClaimPlan {
        route,
        amount: claim_amount(requested, available),
        setup: account_setup(foreign_beneficiary, account_exists),
        compute_units: claim_compute_units(route),
    }
}

/// What one claim attempt of a batch came to.
pub enum ClaimAttempt {
    /// No claim was submitted.
    NotRun,
    /// The claim transaction was confirmed.
    Confirmed,
    /// The claim failed before the timeout, for this reason.
    Rejected { reason: String },
    /// The timeout passed before the claim completed.
    TimedOut,
}

/// What the coordinator observed for one decodable identity of a batch:
/// its address, its fetched balance (or why the fetch failed) and its claim.
pub struct IdentityRun {
    pub address: String,
    pub fetched: Result<u64, String>,
    pub attempt: ClaimAttempt,
}

/// The status of one identity in a claim report.
pub enum ClaimStatus {
    Success,
    NothingToClaim,
    Failed { reason: String },
    TimedOut,
}

/// One line of a claim report.
pub struct ClaimOutcome {
    /// The identity's shortened address.
    pub address: String,
    /// The balance fetched, absent when the fetch failed.
    pub amount: Option<u64>,
    pub status: ClaimStatus,
}

/// The mathematical content of a claim status.
pub enum StatusView {
    Success,
    NothingToClaim,
    Failed(Seq<char>),
    TimedOut,
}

/// The mathematical content of a claim outcome.
pub struct OutcomeView {
    pub address: Seq<char>,
    pub amount: Option<u64>,
    pub status: StatusView,
}

impl View for ClaimOutcome {
    type V = OutcomeView;

    open spec fn view(&self) -> OutcomeView {
        OutcomeView {
            address: self.address@,
            amount: self.amount,
            status: match self.status {
                ClaimStatus::Success => StatusView::Success,
                ClaimStatus::NothingToClaim => StatusView::NothingToClaim,
                ClaimStatus::Failed { reason } => StatusView::Failed(reason@),
                ClaimStatus::TimedOut => StatusView::TimedOut,
            },
        }
    }
}

/// Whether a claim is submitted after the fetch: only for a positive balance.
pub open spec fn needs_claim_spec(fetched: Result<u64, String>) -> bool {
    fetched matches Ok(b) && b > 0
}

/// Decides, after the fetch, whether a claim transaction is submitted.
pub fn needs_claim(fetched: &Result<u64, String>) -> (r: bool)
    ensures
        r == needs_claim_spec(*fetched),
{
    match fetched {
        Ok(b) => *b > 0,
        Err(_) => false,
    }
}

/// The reason recorded when a positive balance saw no claim.
pub open spec fn not_attempted_reason() -> Seq<char> {
    "claim was not attempted"@
}

/// The outcome of one identity of a batch.
pub open spec fn settle_spec(run: IdentityRun) -> OutcomeView {
    let address = short_address_spec(run.address@);
    match run.fetched {
        Err(e) => OutcomeView { address, amount: None, status: StatusView::Failed(e@) },
        Ok(b) => if b == 0 {
            OutcomeView { address, amount: Some(0), status: StatusView::NothingToClaim }
        } else {
            OutcomeView {
                address,
                amount: Some(b),
                status: match run.attempt {
                    ClaimAttempt::Confirmed => StatusView::Success,
                    ClaimAttempt::Rejected { reason } => StatusView::Failed(reason@),
                    ClaimAttempt::TimedOut => StatusView::TimedOut,
                    ClaimAttempt::NotRun => StatusView::Failed(not_attempted_reason()),
                },
            }
        },
    }
}

fn copy_string(s: &String) -> (r: String)
    ensures
        r@ == s@,
{
    s.clone()
}

/// The report line of one identity of a batch.
pub fn settle(run: &IdentityRun) -> (r: ClaimOutcome)
    ensures
        r@ == settle_spec(*run),
{
    let address = short_address(run.address.as_str());
    match &run.fetched {
        Err(e) => ClaimOutcome {
            address,
            amount: None,
            status: ClaimStatus::Failed { reason: copy_string(e) },
        },
        Ok(b) => {
            if *b == 0 {
                ClaimOutcome { address, amount: Some(0), status: ClaimStatus::NothingToClaim }
            } else {
                let status = match &run.attempt {
                    ClaimAttempt::Confirmed => ClaimStatus::Success,
                    ClaimAttempt::Rejected { reason } => ClaimStatus::Failed {
                        reason: copy_string(reason),
                    },
                    ClaimAttempt::TimedOut => ClaimStatus::TimedOut,
                    ClaimAttempt::NotRun => ClaimStatus::Failed {
                        reason: String::from_str("claim was not attempted"),
                    },
                };
                ClaimOutcome { address, amount: Some(*b), status }
            }
        },
    }
}

/// The report of a batch: one outcome per decodable identity (`Some`), in
/// input order; undecodable entries (`None`) leave no outcome.
pub open spec fn batch_spec(runs: Seq<Option<IdentityRun>>) -> Seq<OutcomeView>
    decreases runs.len(),
{
    if runs.len() == 0 {
        Seq::empty()
    } else {
        let rest = batch_spec(runs.drop_last());
        match runs.last() {
            Some(run) => rest.push(settle_spec(run)),
            None => rest,
        }
    }
}

pub open spec fn outcome_views(v: Seq<ClaimOutcome>) -> Seq<OutcomeView> {
    v.map_values(|o: ClaimOutcome| o@)
}

/// Builds the report of a batch.
pub fn batch_outcomes(runs: &Vec<Option<IdentityRun>>) -> (r: Vec<ClaimOutcome>)
    ensures
        outcome_views(r@) == batch_spec(runs@),
{
    let mut out: Vec<ClaimOutcome> = Vec::new();
    let mut i: usize = 0;
    while i < runs.len()
        invariant
            i <= runs@.len(),
            outcome_views(out@) == batch_spec(runs@.subrange(0, i as int)),
        decreases runs@.len() - i,
    {
        assert(runs@.subrange(0, i as int + 1).drop_last() =~= runs@.subrange(0, i as int));
        let ghost before = out@;
        match &runs[i] {
            Some(run) => {
                let o = settle(run);
                out.push(o);
                assert(outcome_views(out@) =~= outcome_views(before).push(o@));
            },
            None => {},
        }
        i = i + 1;
    }
    assert(runs@.subrange(0, i as int) =~= runs@);
    out
}

/// Whether `runs` are what a batch over `keys` observed: a run for each key
/// that decodes, carrying the address it controls, and none for the others.
pub open spec fn runs_follow_keys(keys: Seq<Seq<char>>, runs: Seq<Option<IdentityRun>>) -> bool {
    &&& runs.len() == keys.len()
    &&& forall|i: int|
        0 <= i < keys.len() ==> match #[trigger] runs[i] {
            Some(run) => identity_address_of(keys[i]) == Some(run.address@),
            None => identity_address_of(keys[i]) is None,
        }
}

/// A batch report holds exactly one outcome per key that decodes, in input
/// order; keys that do not decode leave none.
pub proof fn one_outcome_per_decodable_key(keys: Seq<Seq<char>>, runs: Seq<Option<IdentityRun>>)
    requires
        runs_follow_keys(keys, runs),
    ensures
        batch_spec(runs).len() == decodable_addresses(keys).len(),
        forall|k: int|
            0 <= k < batch_spec(runs).len() ==> (#[trigger] batch_spec(runs)[k]).address
                == short_address_spec(decodable_addresses(keys)[k]),
    decreases keys.len(),
{
    if keys.len() > 0 {
        let ks = keys.drop_last();
        let rs = runs.drop_last();
        assert forall|i: int| 0 <= i < ks.len() implies match #[trigger] rs[i] {
            Some(run) => identity_address_of(ks[i]) == Some(run.address@),
            None => identity_address_of(ks[i]) is None,
        } by {
            assert(rs[i] == runs[i]);
            assert(ks[i] == keys[i]);
        }
        one_outcome_per_decodable_key(ks, rs);
        let last = runs.len() - 1;
        assert(runs[last] == runs.last());
        assert(keys[last] == keys.last());
    }
}

/// An identity whose fetched balance is zero gets `NothingToClaim`, and no
/// claim is submitted for it.
pub proof fn zero_balance_claims_nothing(run: IdentityRun)
    requires
        run.fetched matches Ok(b) && b == 0,
    ensures
        !needs_claim_spec(run.fetched),
        settle_spec(run).status is NothingToClaim,
{
}

/// A claim that timed out is reported as `TimedOut`, and the report of the
/// batch holds its outcome.
pub proof fn timed_out_claim_is_reported(runs: Seq<Option<IdentityRun>>, i: int)
    requires
        0 <= i < runs.len(),
        runs[i] matches Some(run) && run.fetched matches Ok(b) && b > 0
            && run.attempt is TimedOut,
    ensures
        settle_spec(runs[i]->0).status is TimedOut,
        batch_spec(runs).contains(settle_spec(runs[i]->0)),
    decreases runs.len(),
{
    let rest = runs.drop_last();
    if i < runs.len() - 1 {
        assert(rest[i] == runs[i]);
        timed_out_claim_is_reported(rest, i);
        let k = choose|k: int| 0 <= k < batch_spec(rest).len() && batch_spec(rest)[k] == settle_spec(runs[i]->0);
        assert(batch_spec(runs)[k] == batch_spec(rest)[k]);
    } else {
        assert(runs.last() == runs[i]);
        assert(batch_spec(runs).last() == settle_spec(runs[i]->0));
    }
}

proof fn lemma_follow_push(
    keys: Seq<Seq<char>>,
    runs: Seq<Option<IdentityRun>>,
    key: Seq<char>,
    run: Option<IdentityRun>,
)
    requires
        runs_follow_keys(keys, runs),
        match run {
            Some(r) => identity_address_of(key) == Some(r.address@),
            None => identity_address_of(key) is None,
        },
    ensures
        runs_follow_keys(keys.push(key), runs.push(run)),
{
    let ks = keys.push(key);
    let rs = runs.push(run);
    assert forall|i: int| 0 <= i < ks.len() implies match #[trigger] rs[i] {
        Some(r) => identity_address_of(ks[i]) == Some(r.address@),
        None => identity_address_of(ks[i]) is None,
    } by {
        if i < keys.len() {
            assert(rs[i] == runs[i]);
            assert(ks[i] == keys[i]);
        }
    }
}

/// What a claim session hands out next.
pub enum NextKey {
    /// Every key has been taken in.
    Finished,
    /// The previous identity's fetch and claim have not been recorded yet.
    Awaiting,
    /// This key does not decode: it is skipped and leaves no outcome.
    Undecodable { key: String },
    /// This identity is to be fetched and, if `needs_claim` says so, claimed.
    Ready { identity: Identity },
}

/// A batch claim in progress: the session decodes the keys in order, and
/// the caller reports, for each identity it hands out, what the fetch and
/// the claim came to. Its report thus holds one outcome per decodable key,
/// in input order.
pub struct ClaimSession {
    keys: Vec<String>,
    next: usize,
    pending: Option<String>,
    runs: Vec<Option<IdentityRun>>,
}

impl ClaimSession {
    #[verifier::type_invariant]
    spec fn inv(self) -> bool {
        &&& self.next <= self.keys@.len()
        &&& runs_follow_keys(string_views(self.keys@).subrange(0, self.next as int), self.runs@)
        &&& (self.pending matches Some(a) ==> self.next < self.keys@.len() && identity_address_of(
            self.keys@[self.next as int]@,
        ) == Some(a@))
    }

    /// The keys of the batch.
    pub closed spec fn key_views(self) -> Seq<Seq<char>> {
        string_views(self.keys@)
    }

    /// How many keys have been dealt with completely.
    pub closed spec fn position(self) -> nat {
        self.next as nat
    }

    /// What was observed so far, one entry per key dealt with.
    pub closed spec fn observed(self) -> Seq<Option<IdentityRun>> {
        self.runs@
    }

    /// The address of the identity handed out and not yet recorded.
    pub closed spec fn awaiting(self) -> Option<Seq<char>> {
        match self.pending {
            Some(a) => Some(a@),
            None => None,
        }
    }

    /// Whether every key has been dealt with.
    pub open spec fn finished(self) -> bool {
        self.position() == self.key_views().len() && self.awaiting() is None
    }

    /// Starts a batch over the keys of a credential file.
    pub fn new(keys: Vec<String>) -> (r: ClaimSession)
        ensures
            r.key_views() == string_views(keys@),
            r.position() == 0,
            r.observed() == Seq::<Option<IdentityRun>>::empty(),
            r.awaiting() is None,
    {
        let r = ClaimSession { keys, next: 0, pending: None, runs: Vec::new() };
        assert(string_views(r.keys@).subrange(0, 0) =~= Seq::<Seq<char>>::empty());
        assert(r.runs@ =~= Seq::<Option<IdentityRun>>::empty());
        r
    }

    /// Whether every key has been dealt with.
    pub fn is_finished(&self) -> (r: bool)
        ensures
            r == self.finished(),
    {
        proof {
            use_type_invariant(&*self);
        }
        self.next == self.keys.len() && self.pending.is_none()
    }

    /// Takes in the next key: an undecodable one is skipped at once; a
    /// decodable one is handed out and awaits `record`. Returns the session
    /// as it stands afterwards.
    pub fn next_key(self) -> (r: (ClaimSession, NextKey))
        ensures
            r.0.key_views() == self.key_views(),
            self.awaiting() is Some ==> r.1 is Awaiting && r.0.position() == self.position()
                && r.0.observed() == self.observed() && r.0.awaiting() == self.awaiting(),
            self.awaiting() is None && self.position() == self.key_views().len() ==> r.1 is Finished
                && r.0.position() == self.position() && r.0.observed() == self.observed()
                && r.0.awaiting() is None,
            self.awaiting() is None && self.position() < self.key_views().len() ==> {
                let key = self.key_views()[self.position() as int];
                match identity_address_of(key) {
                    None => r.1 matches NextKey::Undecodable { key: k } && k@ == key
                        && r.0.position() == self.position() + 1 && r.0.observed()
                        == self.observed().push(None) && r.0.awaiting() is None,
                    Some(a) => r.1 matches NextKey::Ready { identity: id } && id.address@ == a
                        && id.private_key@ == key && r.0.position() == self.position()
                        && r.0.observed() == self.observed() && r.0.awaiting() == Some(a),
                }
            },
    {
        proof {
            use_type_invariant(&self);
        }
        let ClaimSession { keys, next, pending, mut runs } = self;
        if pending.is_some() {
            return (ClaimSession { keys, next, pending, runs }, NextKey::Awaiting);
        }
        if next == keys.len() {
            return (ClaimSession { keys, next, pending, runs }, NextKey::Finished);
        }
        let ghost kv = string_views(keys@);
        assert(kv[next as int] == keys@[next as int]@);
        match decode_identity(keys[next].as_str()) {
            Some(identity) => {
                let pending = Some(identity.address.clone());
                (ClaimSession { keys, next, pending, runs }, NextKey::Ready { identity })
            },
            None => {
                let key = keys[next].clone();
                proof {
                    lemma_follow_push(kv.subrange(0, next as int), runs@, kv[next as int], None);
                    assert(kv.subrange(0, next as int).push(kv[next as int]) =~= kv.subrange(
                        0,
                        next + 1,
                    ));
                }
                runs.push(None);
                (
                    ClaimSession { keys, next: next + 1, pending: None, runs },
                    NextKey::Undecodable { key },
                )
            },
        }
    }

    /// Records what the fetch and the claim of the identity handed out came
    /// to, and returns the session afterwards with that identity's outcome;
    /// with no identity handed out it changes nothing.
    pub fn record(self, fetched: Result<u64, String>, attempt: ClaimAttempt) -> (r: (
        ClaimSession,
        Option<ClaimOutcome>,
    ))
        ensures
            r.0.key_views() == self.key_views(),
            self.awaiting() is None ==> r.1 is None && r.0.position() == self.position()
                && r.0.observed() == self.observed() && r.0.awaiting() is None,
            self.awaiting() matches Some(a) ==> {
                &&& r.0.observed().len() == self.observed().len() + 1
                &&& r.0.observed().drop_last() == self.observed()
                &&& r.0.observed().last() matches Some(run) && run.address@ == a
                    && run.fetched == fetched && run.attempt == attempt
                &&& r.1 matches Some(o) && o@ == settle_spec(r.0.observed().last()->0)
                &&& r.0.position() == self.position() + 1
                &&& r.0.awaiting() is None
            },
    {
        proof {
            use_type_invariant(&self);
        }
        let ghost was_pending = self.pending is Some;
        assert(was_pending ==> self.next < self.keys@.len());
        let ClaimSession { keys, next, pending, mut runs } = self;
        assert(was_pending == pending is Some);
        let n = keys.len();
        match pending {
            Some(address) => {
                assert(next < n);
                let ghost kv = string_views(keys@);
                let run = IdentityRun { address, fetched, attempt };
                let outcome = settle(&run);
                proof {
                    assert(kv[next as int] == keys@[next as int]@);
                    lemma_follow_push(kv.subrange(0, next as int), runs@, kv[next as int], Some(run));
                    assert(kv.subrange(0, next as int).push(kv[next as int]) =~= kv.subrange(
                        0,
                        next + 1,
                    ));
                }
                let ghost before = runs@;
                runs.push(Some(run));
                assert(runs@.drop_last() =~= before);
                (ClaimSession { keys, next: next + 1, pending: None, runs }, Some(outcome))
            },
            None => (ClaimSession { keys, next, pending: None, runs }, None),
        }
    }

    /// The report of the batch so far. Once every key has been dealt with,
    /// it holds exactly one outcome per key that decodes, in input order,
    /// under that key's shortened address.
    pub fn report(&self) -> (r: Vec<ClaimOutcome>)
        ensures
            outcome_views(r@) == batch_spec(self.observed()),
            self.finished() ==> outcome_views(r@).len() == decodable_addresses(self.key_views()).len(),
            self.finished() ==> forall|k: int|
                0 <= k < r@.len() ==> (#[trigger] r@[k])@.address == short_address_spec(
                    decodable_addresses(self.key_views())[k],
                ),
    {
        proof {
            use_type_invariant(self);
            if self.finished() {
                assert(string_views(self.keys@).subrange(0, self.next as int) =~= string_views(
                    self.keys@,
                ));
                one_outcome_per_decodable_key(string_views(self.keys@), self.runs@);
            }
        }
        let r = batch_outcomes(&self.runs);
        proof {
            assert forall|k: int| 0 <= k < r@.len() implies (#[trigger] r@[k])@ == outcome_views(r@)[k] by {}
        }
        r
    }
}

} // verus!
