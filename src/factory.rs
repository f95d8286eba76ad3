use vstd::prelude::*;
use vstd::string::StringExecFns;
use crate::error::TicketError;
use crate::keyed::{Keyed, keyed_map, keys_unique, has_key, find_key, lemma_keyed_map_index, lemma_keyed_map_update, lemma_keys_unique_push};
use crate::saga::{Saga, Transfer, settle_spec};
use crate::ticket::TicketContractMetadata;

verus! {

/// What a new sales deployment starts with.
pub const INITIAL_BALANCE: u128 = 6_500_000_000_000_000_000_000_000;

/// What the factory keeps for provisioning a deployment.
pub const CREATE_CONTRACT_FEE: u128 = 5_000_000_000_000_000_000_000_000;

/// The deposit that provisioning asks for: the fee and the initial balance.
pub const PROVISION_DEPOSIT: u128 = 11_500_000_000_000_000_000_000_000;

/// Gas for the new deployment's constructor.
pub const PREPARE_GAS: u64 = 25_000_000_000_000;

/// Gas for the continuation that settles provisioning.
pub const CALLBACK_GAS: u64 = 5_000_000_000_000;

/// The deployments provisioned for one organizer, in the order of provisioning.
#[derive(Debug)]
pub struct OwnerRecord {
    pub owner_id: String,
    pub contracts: Vec<String>,
}

impl Keyed for OwnerRecord {
    open spec fn key(&self) -> Seq<char> {
        self.owner_id@
    }

    fn key_str(&self) -> (r: &String) {
        &self.owner_id
    }
}

/// One remote step of provisioning, run against the new account in order.
#[derive(Debug)]
pub enum ProvisionStep {
    CreateAccount,
    Transfer { amount: u128 },
    AddFullAccessKey,
    DeployContract,
    Initialize { owner_id: String, metadata: TicketContractMetadata, gas: u64 },
}

/// What provisioning hands the host: the account to create, the chain of
/// steps to run against it, and the saga that its continuation settles.
#[derive(Debug)]
pub struct ProvisionPlan {
    pub account_id: String,
    pub steps: Vec<ProvisionStep>,
    pub callback_gas: u64,
    pub saga: Saga,
}

/// The factory: provisions one sales deployment per request and lists, for
/// each organizer, the deployments provisioned for them.
#[derive(Debug)]
pub struct Contract {
    pub owner_id: String,
    pub ticket_contracts_by_owner: Vec<OwnerRecord>,
}

/// The ordered chain of remote steps that provisions a deployment for `owner`.
pub open spec fn provision_steps(owner: String, metadata: TicketContractMetadata) -> Seq<
    ProvisionStep,
> {
    seq![
        ProvisionStep::CreateAccount,
        ProvisionStep::Transfer { amount: INITIAL_BALANCE },
        ProvisionStep::AddFullAccessKey,
        ProvisionStep::DeployContract,
        ProvisionStep::Initialize { owner_id: owner, metadata, gas: PREPARE_GAS },
    ]
}

/// The account of a deployment: the caller's prefix under the factory's account.
pub open spec fn sub_account(prefix: Seq<char>, parent: Seq<char>) -> Seq<char> {
    prefix + seq!['.'] + parent
}

fn copy_strings(v: &Vec<String>) -> (r: Vec<String>)
    ensures
        r@ == v@,
{
    let mut r: Vec<String> = Vec::new();
    let mut i: usize = 0;
    while i < v.len()
        invariant
            i <= v@.len(),
            r@ == v@.subrange(0, i as int),
        decreases v.len() - i,
    {
        r.push(v[i].clone());
        i = i + 1;
        assert(r@ =~= v@.subrange(0, i as int));
    }
    assert(v@.subrange(0, v@.len() as int) =~= v@);
    r
}

impl Contract {
    /// Each organizer has at most one record.
    pub open spec fn wf(&self) -> bool {
        keys_unique(self.ticket_contracts_by_owner@)
    }

    /// The accounts of the deployments provisioned for `owner`, oldest first.
    pub open spec fn deployments_of(&self, owner: Seq<char>) -> Seq<Seq<char>> {
        let m = keyed_map(self.ticket_contracts_by_owner@);
        if m.contains_key(owner) {
            m[owner].contracts@.map_values(|s: String| s@)
        } else {
            Seq::empty()
        }
    }

    pub fn new(owner_id: String) -> (r: Self)
        ensures
            r.wf(),
            r.owner_id == owner_id,
            forall|o: Seq<char>| #[trigger] r.deployments_of(o) == Seq::<Seq<char>>::empty(),
    {
        let r = Contract { owner_id, ticket_contracts_by_owner: Vec::new() };
        assert forall|o: Seq<char>| #[trigger] r.deployments_of(o) == Seq::<Seq<char>>::empty() by {
            assert(!keyed_map(r.ticket_contracts_by_owner@).contains_key(o));
        }
        r
    }

    /// Starts the provisioning saga for `caller`. The deposit must be exactly
    /// `PROVISION_DEPOSIT`; anything else is refused with nothing changed. On
    /// success the new account is listed for `caller` at once, before the
    /// remote steps are known to succeed, and stays listed whatever they do.
    pub fn create_new_ticket_contract(
        &mut self,
        caller: &String,
        current_account: &String,
        deposit: u128,
        prefix: String,
        metadata: TicketContractMetadata,
    ) -> (r: Result<ProvisionPlan, TicketError>)
        requires
            old(self).wf(),
        ensures
            final(self).wf(),
            final(self).owner_id == old(self).owner_id,
            deposit != PROVISION_DEPOSIT ==> r == Err::<ProvisionPlan, TicketError>(
                TicketError::InsufficientDeposit,
            ) && *final(self) == *old(self),
            deposit == PROVISION_DEPOSIT ==> r is Ok,
            r is Ok ==> ({
                let plan = r->Ok_0;
                &&& plan.account_id@ == sub_account(prefix@, current_account@)
                &&& plan.steps@ == provision_steps(*caller, metadata)
                &&& plan.callback_gas == CALLBACK_GAS
                &&& plan.saga == Saga::pending_spec(*caller, PROVISION_DEPOSIT)
                &&& final(self).deployments_of(caller@) == old(self).deployments_of(caller@).push(
                    plan.account_id@,
                )
                &&& forall|o: Seq<char>|
                    o != caller@ ==> #[trigger] final(self).deployments_of(o) == old(
                        self,
                    ).deployments_of(o)
            }),
    {
        if deposit != PROVISION_DEPOSIT {
            return Err(TicketError::InsufficientDeposit);
        }
        proof { reveal_strlit("."); }
        let mut account_id = prefix;
        account_id.append(".");
        account_id.append(current_account.as_str());
        let ghost before = self.ticket_contracts_by_owner@;
        match find_key(&self.ticket_contracts_by_owner, caller) {
            Some(i) => {
                let mut contracts = copy_strings(&self.ticket_contracts_by_owner[i].contracts);
                contracts.push(account_id.clone());
                let rec = OwnerRecord { owner_id: caller.clone(), contracts };
                proof {
                    lemma_keyed_map_index(before, i as int);
                    lemma_keyed_map_update(before, i as int, rec);
                }
                self.ticket_contracts_by_owner.set(i, rec);
                proof {
                    let m = keyed_map(before);
                    assert(m[caller@].contracts@.push(account_id).map_values(|s: String| s@)
                        =~= m[caller@].contracts@.map_values(|s: String| s@).push(account_id@));
                }
            },
            None => {
                let mut contracts: Vec<String> = Vec::new();
                contracts.push(account_id.clone());
                let rec = OwnerRecord { owner_id: caller.clone(), contracts };
                proof {
                    lemma_keys_unique_push(before, rec);
                    lemma_keyed_map_domain_absent(before, caller@);
                    assert(rec.contracts@.map_values(|s: String| s@) =~= seq![account_id@]);
                }
                self.ticket_contracts_by_owner.push(rec);
            },
        }
        let mut steps: Vec<ProvisionStep> = Vec::new();
        steps.push(ProvisionStep::CreateAccount);
        steps.push(ProvisionStep::Transfer { amount: INITIAL_BALANCE });
        steps.push(ProvisionStep::AddFullAccessKey);
        steps.push(ProvisionStep::DeployContract);
        steps.push(
            ProvisionStep::Initialize { owner_id: caller.clone(), metadata, gas: PREPARE_GAS },
        );
        assert(steps@ =~= provision_steps(*caller, metadata));
        Ok(
            ProvisionPlan {
                account_id,
                steps,
                callback_gas: CALLBACK_GAS,
                saga: Saga::pending(caller.clone(), PROVISION_DEPOSIT),
            },
        )
    }

    /// The continuation of provisioning: where any remote step failed, the
    /// deposit goes back to the organizer, once.
    pub fn check_create_new_contract(&self, saga: &mut Saga, results: &Vec<bool>) -> (r: Option<
        Transfer,
    >)
        ensures
            (*final(saga), r) == settle_spec(*old(saga), results@),
    {
        saga.settle(results)
    }

    /// The accounts of the deployments provisioned for `owner_id`, oldest first.
    pub fn get_contracts_by_owner(&self, owner_id: &String) -> (r: Vec<String>)
        requires
            self.wf(),
        ensures
            r@.map_values(|s: String| s@) == self.deployments_of(owner_id@),
    {
        match find_key(&self.ticket_contracts_by_owner, owner_id) {
            Some(i) => {
                proof { lemma_keyed_map_index(self.ticket_contracts_by_owner@, i as int); }
                copy_strings(&self.ticket_contracts_by_owner[i].contracts)
            },
            None => {
                proof { lemma_keyed_map_domain_absent(self.ticket_contracts_by_owner@, owner_id@); }
                let r: Vec<String> = Vec::new();
                assert(r@.map_values(|s: String| s@) =~= Seq::<Seq<char>>::empty());
                r
            },
        }
    }
}

proof fn lemma_keyed_map_domain_absent(s: Seq<OwnerRecord>, k: Seq<char>)
    requires
        !has_key(s, k),
    ensures
        !keyed_map(s).contains_key(k),
{
    crate::keyed::lemma_keyed_map_domain(s, k);
}

} // verus!

verus! {

/// Provisioning that a remote step fails refunds the organizer exactly the
/// fee and the initial balance, and a repeated continuation refunds nothing
/// more.
pub proof fn failed_provisioning_refunds_once(caller: String, first: Seq<bool>, second: Seq<bool>)
    requires
        !crate::saga::all_succeeded(first),
    ensures
        PROVISION_DEPOSIT == CREATE_CONTRACT_FEE + INITIAL_BALANCE,
        settle_spec(Saga::pending_spec(caller, PROVISION_DEPOSIT), first).1 == Some(
            Transfer { receiver: caller, amount: (CREATE_CONTRACT_FEE + INITIAL_BALANCE) as u128 },
        ),
        settle_spec(settle_spec(Saga::pending_spec(caller, PROVISION_DEPOSIT), first).0, second).1 is None,
{
}

} // verus!
