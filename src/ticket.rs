use vstd::prelude::*;
use crate::access::AccessControl;
use crate::error::TicketError;
use crate::price::{Decimal, price_for, price_spec, is_negative, minimal_units, pow10, UNIT_DIGITS};
use crate::saga::{Saga, Transfer, settle_spec};
use crate::token_id::{token_id, token_id_spec};
use crate::keyed::{Keyed, keyed_map, keys_unique, has_key, find_key, lemma_keyed_map_index, lemma_keyed_map_update, lemma_keys_unique_push};

verus! {

/// The fee, in minimal units, folded into every ticket price and attached to
/// the mint to pay for the token ledger's storage.
pub const MINT_FEE: u128 = 10_000_000_000_000_000_000_000;

/// The payment that redeeming a ticket asks for, against spam.
pub const REDEEM_FEE: u128 = 1;

/// Gas for the privileged mint.
pub const MINT_GAS: u64 = 15_000_000_000_000;

/// Gas for the continuation that settles a sale.
pub const CHECK_MINT_GAS: u64 = 50_000_000_000_000;

/// What a sales deployment says of itself: the token standard's version, the
/// collection's name and symbol, and an optional description.
#[derive(Clone, Debug)]
pub struct TicketContractMetadata {
    pub spec: String,
    pub name: String,
    pub symbol: String,
    pub description: Option<String>,
}

/// A ticket type of a show: how many there are, how many are sold, and the
/// unit price in minimal units with the fee folded in.
#[derive(Clone, Debug)]
pub struct TicketInfo {
    pub supply: u32,
    pub ticket_type: String,
    pub price: u128,
    pub sold: u32,
    pub selling_start_time: Option<u64>,
    pub selling_end_time: Option<u64>,
}

/// A show: its key, title and description, its sale window
/// `[selling_start_time, selling_end_time)`, and its ticket types.
#[derive(Clone, Debug)]
pub struct ShowMetadata {
    pub show_id: String,
    pub show_title: Option<String>,
    pub show_description: Option<String>,
    pub ticket_infos: Vec<TicketInfo>,
    pub selling_start_time: u64,
    pub selling_end_time: u64,
}

/// What the deployment records of a minted ticket.
#[derive(Clone, Debug)]
pub struct TicketMetadata {
    pub ticket_id: String,
    pub show_id: String,
    pub ticket_type: String,
    pub is_used: bool,
    pub issued_at: u64,
}

impl Keyed for TicketInfo {
    open spec fn key(&self) -> Seq<char> {
        self.ticket_type@
    }

    fn key_str(&self) -> (r: &String) {
        &self.ticket_type
    }
}

impl Keyed for ShowMetadata {
    open spec fn key(&self) -> Seq<char> {
        self.show_id@
    }

    fn key_str(&self) -> (r: &String) {
        &self.show_id
    }
}

impl Keyed for TicketMetadata {
    open spec fn key(&self) -> Seq<char> {
        self.ticket_id@
    }

    fn key_str(&self) -> (r: &String) {
        &self.ticket_id
    }
}

fn copy_opt(o: &Option<String>) -> (r: Option<String>)
    ensures
        r == *o,
{
    match o {
        Some(s) => Some(s.clone()),
        None => None,
    }
}

impl TicketContractMetadata {
    pub fn duplicate(&self) -> (r: Self)
        ensures
            r == *self,
    {
        TicketContractMetadata {
            spec: self.spec.clone(),
            name: self.name.clone(),
            symbol: self.symbol.clone(),
            description: copy_opt(&self.description),
        }
    }
}

impl TicketInfo {
    pub fn duplicate(&self) -> (r: Self)
        ensures
            r == *self,
    {
        TicketInfo {
            supply: self.supply,
            ticket_type: self.ticket_type.clone(),
            price: self.price,
            sold: self.sold,
            selling_start_time: self.selling_start_time,
            selling_end_time: self.selling_end_time,
        }
    }
}

impl ShowMetadata {
    pub fn duplicate(&self) -> (r: Self)
        ensures
            same_show(r, *self),
    {
        let mut infos: Vec<TicketInfo> = Vec::new();
        let mut i: usize = 0;
        while i < self.ticket_infos.len()
            invariant
                i <= self.ticket_infos@.len(),
                infos@ == self.ticket_infos@.subrange(0, i as int),
            decreases self.ticket_infos.len() - i,
        {
            infos.push(self.ticket_infos[i].duplicate());
            i = i + 1;
            assert(infos@ =~= self.ticket_infos@.subrange(0, i as int));
        }
        assert(infos@ =~= self.ticket_infos@);
        ShowMetadata {
            show_id: self.show_id.clone(),
            show_title: copy_opt(&self.show_title),
            show_description: copy_opt(&self.show_description),
            ticket_infos: infos,
            selling_start_time: self.selling_start_time,
            selling_end_time: self.selling_end_time,
        }
    }
}

impl TicketMetadata {
    pub fn duplicate(&self) -> (r: Self)
        ensures
            r == *self,
    {
        TicketMetadata {
            ticket_id: self.ticket_id.clone(),
            show_id: self.show_id.clone(),
            ticket_type: self.ticket_type.clone(),
            is_used: self.is_used,
            issued_at: self.issued_at,
        }
    }
}

/// The ticket types of a show, by name.
pub open spec fn types_of(s: ShowMetadata) -> Map<Seq<char>, TicketInfo> {
    keyed_map(s.ticket_infos@)
}

/// Type names are unique within the show and no type has sold more than its supply.
pub open spec fn show_wf(s: ShowMetadata) -> bool {
    &&& keys_unique(s.ticket_infos@)
    &&& forall|j: int|
        0 <= j < s.ticket_infos@.len() ==> #[trigger] s.ticket_infos@[j].sold
            <= s.ticket_infos@[j].supply
}

/// The two shows agree in all but their ticket types.
pub open spec fn same_header(a: ShowMetadata, b: ShowMetadata) -> bool {
    &&& a.show_id == b.show_id
    &&& a.show_title == b.show_title
    &&& a.show_description == b.show_description
    &&& a.selling_start_time == b.selling_start_time
    &&& a.selling_end_time == b.selling_end_time
}

/// The two shows agree in every field; their ticket types as sequences.
pub open spec fn same_show(a: ShowMetadata, b: ShowMetadata) -> bool {
    same_header(a, b) && a.ticket_infos@ == b.ticket_infos@
}

/// `new` is `old` with the type `info.ticket_type` of show `show_id` set to
/// `info`, and nothing else changed.
pub open spec fn with_type(
    new: Map<Seq<char>, ShowMetadata>,
    old: Map<Seq<char>, ShowMetadata>,
    show_id: Seq<char>,
    info: TicketInfo,
) -> bool {
    &&& old.contains_key(show_id)
    &&& new.dom() == old.dom()
    &&& forall|k: Seq<char>| old.contains_key(k) && k != show_id ==> #[trigger] new[k] == old[k]
    &&& same_header(new[show_id], old[show_id])
    &&& types_of(new[show_id]) == types_of(old[show_id]).insert(info.ticket_type@, info)
}

/// A new ticket type: nothing sold yet, no window of its own.
pub open spec fn initial_info(ticket_type: String, supply: u32, price: Decimal) -> TicketInfo {
    TicketInfo {
        supply,
        ticket_type,
        price: price_spec(price, MINT_FEE)->Ok_0,
        sold: 0,
        selling_start_time: None,
        selling_end_time: None,
    }
}

/// The ticket types that the first `n` entries of the three lists make, a
/// later entry replacing an earlier one of the same name.
pub open spec fn initial_types(
    types: Seq<String>,
    supply: Seq<u32>,
    prices: Seq<Decimal>,
    n: nat,
) -> Map<Seq<char>, TicketInfo>
    decreases n,
{
    if n == 0 {
        Map::empty()
    } else {
        let k = (n - 1) as int;
        initial_types(types, supply, prices, (n - 1) as nat).insert(
            types[k]@,
            initial_info(types[k], supply[k], prices[k]),
        )
    }
}

/// Some price among the first `n` is negative or too large.
pub open spec fn some_price_invalid(prices: Seq<Decimal>, n: nat) -> bool {
    exists|i: int| 0 <= i < n && #[trigger] price_spec(prices[i], MINT_FEE) is Err
}

/// The show is selling at time `now`.
pub open spec fn is_active(s: ShowMetadata, now: u64) -> bool {
    s.selling_start_time <= now < s.selling_end_time
}

/// The shows of `s` that are selling at `now`, in order.
pub open spec fn active_shows(s: Seq<ShowMetadata>, now: u64) -> Seq<ShowMetadata>
    decreases s.len(),
{
    if s.len() == 0 {
        Seq::empty()
    } else if is_active(s.last(), now) {
        active_shows(s.drop_last(), now).push(s.last())
    } else {
        active_shows(s.drop_last(), now)
    }
}

/// The tickets recorded under the ids of `ids`, in order, skipping unknown ids.
pub open spec fn tickets_for(ids: Seq<String>, m: Map<Seq<char>, TicketMetadata>) -> Seq<
    TicketMetadata,
>
    decreases ids.len(),
{
    if ids.len() == 0 {
        Seq::empty()
    } else if m.contains_key(ids.last()@) {
        tickets_for(ids.drop_last(), m).push(m[ids.last()@])
    } else {
        tickets_for(ids.drop_last(), m)
    }
}

/// Two sequences of shows agree show by show.
pub open spec fn same_shows(a: Seq<ShowMetadata>, b: Seq<ShowMetadata>) -> bool {
    a.len() == b.len() && forall|i: int| 0 <= i < a.len() ==> same_show(#[trigger] a[i], b[i])
}

/// How many tickets of type `ticket_type` of show `show_id` are sold.
pub open spec fn sold_of(c: Contract, show_id: Seq<char>, ticket_type: Seq<char>) -> nat {
    types_of(c.shows_map()[show_id])[ticket_type].sold as nat
}

/// `c1` is `c0` after the confirmed mint of ticket `id` of the type: the id
/// carries the number of tickets sold before, the count grew by one, and the
/// ticket is recorded.
pub open spec fn mint_confirmed(
    c0: Contract,
    c1: Contract,
    show_id: Seq<char>,
    ticket_type: Seq<char>,
    id: Seq<char>,
) -> bool {
    &&& c0.shows_map().contains_key(show_id)
    &&& types_of(c0.shows_map()[show_id]).contains_key(ticket_type)
    &&& c1.shows_map().contains_key(show_id)
    &&& types_of(c1.shows_map()[show_id]).contains_key(ticket_type)
    &&& id == token_id_spec(show_id, ticket_type, sold_of(c0, show_id, ticket_type))
    &&& sold_of(c1, show_id, ticket_type) == sold_of(c0, show_id, ticket_type) + 1
    &&& c1.tickets_map().contains_key(id)
}

/// What a validated purchase hands the host: the privileged mint to issue
/// (token id, show, type, receiver, the fee to attach, gas) and the saga that
/// its continuation settles.
#[derive(Debug)]
pub struct MintOrder {
    pub token_id: String,
    pub show_id: String,
    pub ticket_type: String,
    pub receiver_id: String,
    pub attached: u128,
    pub gas: u64,
    pub callback_gas: u64,
    pub saga: Saga,
}

/// A sales deployment: its owner, its own metadata, its shows, and the
/// tickets minted so far. Ownership of the tickets is the token ledger's.
#[derive(Debug)]
pub struct Contract {
    pub owner: AccessControl,
    pub metadata: TicketContractMetadata,
    pub shows: Vec<ShowMetadata>,
    pub tickets: Vec<TicketMetadata>,
}

impl Contract {
    /// Show keys are unique, every show is well formed, ticket ids are unique.
    pub open spec fn wf(&self) -> bool {
        &&& keys_unique(self.shows@)
        &&& forall|i: int| 0 <= i < self.shows@.len() ==> show_wf(#[trigger] self.shows@[i])
        &&& keys_unique(self.tickets@)
    }

    /// The shows by key.
    pub open spec fn shows_map(&self) -> Map<Seq<char>, ShowMetadata> {
        keyed_map(self.shows@)
    }

    /// The minted tickets by id.
    pub open spec fn tickets_map(&self) -> Map<Seq<char>, TicketMetadata> {
        keyed_map(self.tickets@)
    }

    /// Why adding `info` to show `show_id` is refused, if it is.
    pub open spec fn add_check(&self, caller: Seq<char>, show_id: Seq<char>, info: TicketInfo) -> Option<
        TicketError,
    > {
        if !self.shows_map().contains_key(show_id) {
            Some(TicketError::NotFound)
        } else if !self.owner.owned_by(caller) {
            Some(TicketError::Unauthorized)
        } else if types_of(self.shows_map()[show_id]).contains_key(info.ticket_type@) {
            Some(TicketError::AlreadyExists)
        } else {
            None
        }
    }

    /// Why replacing a type of show `show_id` by `info` is refused, if it is.
    /// A supply below the tickets already sold is refused.
    pub open spec fn edit_check(&self, caller: Seq<char>, show_id: Seq<char>, info: TicketInfo) -> Option<
        TicketError,
    > {
        if !self.shows_map().contains_key(show_id) {
            Some(TicketError::NotFound)
        } else if !self.owner.owned_by(caller) {
            Some(TicketError::Unauthorized)
        } else if !types_of(self.shows_map()[show_id]).contains_key(info.ticket_type@) {
            Some(TicketError::NotFound)
        } else if info.supply < types_of(self.shows_map()[show_id])[info.ticket_type@].sold {
            Some(TicketError::SoldOut)
        } else {
            None
        }
    }

    /// Why creating show `show_id` is refused, if it is.
    pub open spec fn create_check(
        &self,
        caller: Seq<char>,
        show_id: Seq<char>,
        prices: Seq<Decimal>,
        n: nat,
    ) -> Option<TicketError> {
        if self.shows_map().contains_key(show_id) {
            Some(TicketError::AlreadyExists)
        } else if !self.owner.owned_by(caller) {
            Some(TicketError::Unauthorized)
        } else if some_price_invalid(prices, n) {
            Some(TicketError::InvalidPrice)
        } else {
            None
        }
    }

    /// Why a purchase of type `ticket_type` of show `show_id` with `deposit`
    /// attached at time `now` is refused, if it is.
    pub open spec fn buy_check(
        &self,
        show_id: Seq<char>,
        ticket_type: Seq<char>,
        deposit: u128,
        now: u64,
    ) -> Option<TicketError> {
        let m = self.shows_map();
        if !m.contains_key(show_id) {
            Some(TicketError::NotFound)
        } else if now < m[show_id].selling_start_time {
            Some(TicketError::NotStarted)
        } else if now >= m[show_id].selling_end_time {
            Some(TicketError::Ended)
        } else if !types_of(m[show_id]).contains_key(ticket_type) {
            Some(TicketError::NotFound)
        } else if types_of(m[show_id])[ticket_type].sold >= types_of(m[show_id])[ticket_type].supply {
            Some(TicketError::SoldOut)
        } else if deposit < types_of(m[show_id])[ticket_type].price {
            Some(TicketError::InsufficientDeposit)
        } else {
            None
        }
    }

    /// Why the privileged mint of `token_id` is refused, if it is. The id must
    /// carry the type's current `sold` as its sequence number; an id whose
    /// number is taken, or not the next one, is refused as existing.
    pub open spec fn mint_check(
        &self,
        caller: Seq<char>,
        current_account: Seq<char>,
        token_id: Seq<char>,
        show_id: Seq<char>,
        ticket_type: Seq<char>,
    ) -> Option<TicketError> {
        let m = self.shows_map();
        if caller != current_account {
            Some(TicketError::Unauthorized)
        } else if !m.contains_key(show_id) {
            Some(TicketError::NotFound)
        } else if !types_of(m[show_id]).contains_key(ticket_type) {
            Some(TicketError::NotFound)
        } else if types_of(m[show_id])[ticket_type].sold >= types_of(m[show_id])[ticket_type].supply {
            Some(TicketError::SoldOut)
        } else if token_id != token_id_spec(
            show_id,
            ticket_type,
            types_of(m[show_id])[ticket_type].sold as nat,
        ) || self.tickets_map().contains_key(token_id) {
            Some(TicketError::AlreadyExists)
        } else {
            None
        }
    }

    /// Why redeeming `ticket_id` is refused, if it is. `token_owner` is the
    /// ticket's owner as the token ledger has it.
    pub open spec fn redeem_check(
        &self,
        caller: Seq<char>,
        ticket_id: Seq<char>,
        deposit: u128,
        token_owner: Option<String>,
    ) -> Option<TicketError> {
        if deposit != REDEEM_FEE {
            Some(TicketError::InsufficientDeposit)
        } else if !(token_owner is Some && token_owner->0@ == caller) {
            Some(TicketError::NotOwner)
        } else if !self.tickets_map().contains_key(ticket_id) {
            Some(TicketError::NotFound)
        } else {
            None
        }
    }

    /// A deployment owned by `owner_id`, with no shows and no tickets.
    pub fn new(owner_id: String, metadata: TicketContractMetadata) -> (r: Self)
        ensures
            r.wf(),
            r.owner.owner == Some(owner_id),
            r.metadata == metadata,
            r.shows@.len() == 0,
            r.tickets@.len() == 0,
    {
        Contract {
            owner: AccessControl::new(owner_id),
            metadata,
            shows: Vec::new(),
            tickets: Vec::new(),
        }
    }

    /// Hands ownership to `new_owner`; only the owner may.
    pub fn transfer_ownership(&mut self, caller: &String, new_owner: String) -> (r: Result<
        (),
        TicketError,
    >)
        requires
            old(self).wf(),
        ensures
            final(self).wf(),
            old(self).owner.owned_by(caller@) ==> r is Ok && final(self).owner.owner == Some(
                new_owner,
            ),
            !old(self).owner.owned_by(caller@) ==> r == Err::<(), TicketError>(
                TicketError::Unauthorized,
            ) && final(self).owner == old(self).owner,
            final(self).shows == old(self).shows,
            final(self).tickets == old(self).tickets,
            final(self).metadata == old(self).metadata,
    {
        self.owner.transfer_ownership(caller, new_owner)
    }

    /// Gives ownership up for good; only the owner may.
    pub fn renounce_ownership(&mut self, caller: &String) -> (r: Result<(), TicketError>)
        requires
            old(self).wf(),
        ensures
            final(self).wf(),
            old(self).owner.owned_by(caller@) ==> r is Ok && final(self).owner.owner is None,
            !old(self).owner.owned_by(caller@) ==> r == Err::<(), TicketError>(
                TicketError::Unauthorized,
            ) && final(self).owner == old(self).owner,
            final(self).shows == old(self).shows,
            final(self).tickets == old(self).tickets,
            final(self).metadata == old(self).metadata,
    {
        self.owner.renounce_ownership(caller)
    }

    /// Adds ticket type `info` to show `show_id`; only the owner may, and only
    /// under a name the show does not have yet. The new type starts with
    /// nothing sold, whatever `info.sold` says.
    pub fn add_ticket_info(&mut self, caller: &String, show_id: &String, info: TicketInfo) -> (r:
        Result<(), TicketError>)
        requires
            old(self).wf(),
        ensures
            final(self).wf(),
            match old(self).add_check(caller@, show_id@, info) {
                Some(e) => r == Err::<(), TicketError>(e) && *final(self) == *old(self),
                None => {
                    &&& r is Ok
                    &&& with_type(
                        final(self).shows_map(),
                        old(self).shows_map(),
                        show_id@,
                        TicketInfo { sold: 0, ..info },
                    )
                    &&& final(self).owner == old(self).owner
                    &&& final(self).metadata == old(self).metadata
                    &&& final(self).tickets == old(self).tickets
                },
            },
    {
        let si = match find_key(&self.shows, show_id) {
            Some(i) => i,
            None => {
                return Err(TicketError::NotFound);
            },
        };
        self.owner.guard(caller)?;
        let ti = find_key(&self.shows[si].ticket_infos, &info.ticket_type);
        if ti.is_some() {
            return Err(TicketError::AlreadyExists);
        }
        self.put_type(si, None, TicketInfo { sold: 0, ..info });
        Ok(())
    }

    /// Replaces the supply, price and window of the ticket type of show
    /// `show_id` that has the name of `info`; only the owner may. The type keeps
    /// its own `sold`, and a supply below it is refused.
    pub fn edit_ticket_info(&mut self, caller: &String, show_id: &String, info: TicketInfo) -> (r:
        Result<(), TicketError>)
        requires
            old(self).wf(),
        ensures
            final(self).wf(),
            match old(self).edit_check(caller@, show_id@, info) {
                Some(e) => r == Err::<(), TicketError>(e) && *final(self) == *old(self),
                None => {
                    let old_sold = types_of(old(self).shows_map()[show_id@])[info.ticket_type@].sold;
                    &&& r is Ok
                    &&& with_type(
                        final(self).shows_map(),
                        old(self).shows_map(),
                        show_id@,
                        TicketInfo { sold: old_sold, ..info },
                    )
                    &&& final(self).owner == old(self).owner
                    &&& final(self).metadata == old(self).metadata
                    &&& final(self).tickets == old(self).tickets
                },
            },
    {
        let si = match find_key(&self.shows, show_id) {
            Some(i) => i,
            None => {
                return Err(TicketError::NotFound);
            },
        };
        self.owner.guard(caller)?;
        let ti = match find_key(&self.shows[si].ticket_infos, &info.ticket_type) {
            Some(t) => t,
            None => {
                return Err(TicketError::NotFound);
            },
        };
        proof { assert(show_wf(self.shows@[si as int])); }
        let sold = self.shows[si].ticket_infos[ti].sold;
        if info.supply < sold {
            return Err(TicketError::SoldOut);
        }
        self.put_type(si, Some(ti), TicketInfo { sold, ..info });
        Ok(())
    }

    /// Creates show `show_id` with one ticket type per entry of `ticket_types`,
    /// its supply and its organizer's price at the same index; only the owner
    /// may, and only under a key that is free. Each price is converted to
    /// minimal units with `MINT_FEE` folded in. Of two entries with one name
    /// the later one stands.
    pub fn create_new_show(
        &mut self,
        caller: &String,
        show_id: String,
        show_title: Option<String>,
        show_description: Option<String>,
        ticket_types: Vec<String>,
        tickets_supply: Vec<u32>,
        ticket_prices: Vec<Decimal>,
        selling_start_time: u64,
        selling_end_time: u64,
    ) -> (r: Result<(), TicketError>)
        requires
            old(self).wf(),
            tickets_supply@.len() >= ticket_types@.len(),
            ticket_prices@.len() >= ticket_types@.len(),
        ensures
            final(self).wf(),
            match old(self).create_check(
                caller@,
                show_id@,
                ticket_prices@,
                ticket_types@.len(),
            ) {
                Some(e) => r == Err::<(), TicketError>(e) && *final(self) == *old(self),
                None => {
                    let s = final(self).shows_map()[show_id@];
                    &&& r is Ok
                    &&& final(self).shows_map() == old(self).shows_map().insert(show_id@, s)
                    &&& s.show_id == show_id
                    &&& s.show_title == show_title
                    &&& s.show_description == show_description
                    &&& s.selling_start_time == selling_start_time
                    &&& s.selling_end_time == selling_end_time
                    &&& types_of(s) == initial_types(
                        ticket_types@,
                        tickets_supply@,
                        ticket_prices@,
                        ticket_types@.len(),
                    )
                    &&& final(self).owner == old(self).owner
                    &&& final(self).metadata == old(self).metadata
                    &&& final(self).tickets == old(self).tickets
                },
            },
    {
        if find_key(&self.shows, &show_id).is_some() {
            return Err(TicketError::AlreadyExists);
        }
        self.owner.guard(caller)?;
        let mut infos: Vec<TicketInfo> = Vec::new();
        let mut i: usize = 0;
        while i < ticket_types.len()
            invariant
                *self == *old(self),
                old(self).wf(),
                !old(self).shows_map().contains_key(show_id@),
                old(self).owner.owned_by(caller@),
                i <= ticket_types@.len(),
                tickets_supply@.len() >= ticket_types@.len(),
                ticket_prices@.len() >= ticket_types@.len(),
                keys_unique(infos@),
                keyed_map(infos@) == initial_types(
                    ticket_types@,
                    tickets_supply@,
                    ticket_prices@,
                    i as nat,
                ),
                !some_price_invalid(ticket_prices@, i as nat),
                forall|j: int| 0 <= j < infos@.len() ==> #[trigger] infos@[j].sold == 0,
            decreases ticket_types.len() - i,
        {
            let price = match price_for(&ticket_prices[i], MINT_FEE) {
                Ok(p) => p,
                Err(e) => {
                    assert(price_spec(ticket_prices@[i as int], MINT_FEE) is Err);
                    assert(some_price_invalid(ticket_prices@, ticket_types@.len()));
                    return Err(e);
                },
            };
            let info = TicketInfo {
                supply: tickets_supply[i],
                ticket_type: ticket_types[i].clone(),
                price,
                sold: 0,
                selling_start_time: None,
                selling_end_time: None,
            };
            let ghost before = infos@;
            match find_key(&infos, &ticket_types[i]) {
                Some(t) => {
                    infos.set(t, info);
                    proof { lemma_keyed_map_update(before, t as int, info); }
                },
                None => {
                    infos.push(info);
                    proof { lemma_keys_unique_push(before, info); }
                },
            }
            proof {
                assert(info == initial_info(
                    ticket_types@[i as int],
                    tickets_supply@[i as int],
                    ticket_prices@[i as int],
                ));
                assert forall|j: int| 0 <= j < infos@.len() implies #[trigger] infos@[j].sold
                    == 0 by {
                    if j < before.len() && infos@[j] != info {
                        assert(infos@[j] == before[j]);
                    }
                }
                assert forall|j: int| 0 <= j < i + 1 implies !(#[trigger] price_spec(
                    ticket_prices@[j],
                    MINT_FEE,
                ) is Err) by {
                    if j < i {
                        assert(!(price_spec(ticket_prices@[j], MINT_FEE) is Err));
                    }
                }
            }
            i = i + 1;
        }
        let show = ShowMetadata {
            show_id,
            show_title,
            show_description,
            ticket_infos: infos,
            selling_start_time,
            selling_end_time,
        };
        let ghost before = self.shows@;
        proof {
            lemma_keys_unique_push(before, show);
        }
        self.shows.push(show);
        proof {
            lemma_keyed_map_index(self.shows@, before.len() as int);
            assert forall|i: int| 0 <= i < self.shows@.len() implies show_wf(
                #[trigger] self.shows@[i],
            ) by {
                if i < before.len() {
                    assert(self.shows@[i] == before[i]);
                }
            }
        }
        Ok(())
    }

    /// Validates a purchase and, where it passes, describes the privileged mint
    /// to issue. Nothing changes here: `sold` grows only when the mint is
    /// confirmed. The ticket's sequence number is the current `sold`. The saga
    /// refunds the unit price, not the deposit: an overpayment is kept.
    pub fn buy_ticket(
        &self,
        caller: &String,
        show_id: &String,
        ticket_type: &String,
        deposit: u128,
        now: u64,
    ) -> (r: Result<MintOrder, TicketError>)
        requires
            self.wf(),
        ensures
            match self.buy_check(show_id@, ticket_type@, deposit, now) {
                Some(e) => r == Err::<MintOrder, TicketError>(e),
                None => {
                    let info = types_of(self.shows_map()[show_id@])[ticket_type@];
                    &&& r is Ok
                    &&& r->Ok_0.token_id@ == token_id_spec(
                        show_id@,
                        ticket_type@,
                        info.sold as nat,
                    )
                    &&& r->Ok_0.show_id == *show_id
                    &&& r->Ok_0.ticket_type == *ticket_type
                    &&& r->Ok_0.receiver_id == *caller
                    &&& r->Ok_0.attached == MINT_FEE
                    &&& r->Ok_0.gas == MINT_GAS
                    &&& r->Ok_0.callback_gas == CHECK_MINT_GAS
                    &&& r->Ok_0.saga == Saga::pending_spec(*caller, info.price)
                },
            },
    {
        let si = match find_key(&self.shows, show_id) {
            Some(i) => i,
            None => {
                return Err(TicketError::NotFound);
            },
        };
        let show = &self.shows[si];
        if now < show.selling_start_time {
            return Err(TicketError::NotStarted);
        }
        if now >= show.selling_end_time {
            return Err(TicketError::Ended);
        }
        let ti = match find_key(&show.ticket_infos, ticket_type) {
            Some(t) => t,
            None => {
                assert(show_wf(self.shows@[si as int]));
                return Err(TicketError::NotFound);
            },
        };
        proof { assert(show_wf(self.shows@[si as int])); }
        let info = &show.ticket_infos[ti];
        if info.sold >= info.supply {
            return Err(TicketError::SoldOut);
        }
        if deposit < info.price {
            return Err(TicketError::InsufficientDeposit);
        }
        Ok(
            MintOrder {
                token_id: token_id(show_id, ticket_type, info.sold),
                show_id: show_id.clone(),
                ticket_type: ticket_type.clone(),
                receiver_id: caller.clone(),
                attached: MINT_FEE,
                gas: MINT_GAS,
                callback_gas: CHECK_MINT_GAS,
                saga: Saga::pending(caller.clone(), info.price),
            },
        )
    }

    /// The privileged mint, callable by the deployment itself only: counts the
    /// sale and records ticket `token_id` as unused, issued at `now`. A ticket
    /// id is minted once; a type is never sold beyond its supply.
    pub fn nft_private_mint(
        &mut self,
        caller: &String,
        current_account: &String,
        token_id: String,
        show_id: &String,
        ticket_type: &String,
        now: u64,
    ) -> (r: Result<TicketMetadata, TicketError>)
        requires
            old(self).wf(),
        ensures
            final(self).wf(),
            match old(self).mint_check(
                caller@,
                current_account@,
                token_id@,
                show_id@,
                ticket_type@,
            ) {
                Some(e) => r == Err::<TicketMetadata, TicketError>(e) && *final(self) == *old(self),
                None => {
                    let info = types_of(old(self).shows_map()[show_id@])[ticket_type@];
                    let t = TicketMetadata {
                        ticket_id: token_id,
                        show_id: *show_id,
                        ticket_type: *ticket_type,
                        is_used: false,
                        issued_at: now,
                    };
                    &&& r == Ok::<TicketMetadata, TicketError>(t)
                    &&& with_type(
                        final(self).shows_map(),
                        old(self).shows_map(),
                        show_id@,
                        TicketInfo { sold: (info.sold + 1) as u32, ..info },
                    )
                    &&& final(self).tickets_map() == old(self).tickets_map().insert(token_id@, t)
                    &&& mint_confirmed(*old(self), *final(self), show_id@, ticket_type@, token_id@)
                    &&& final(self).owner == old(self).owner
                    &&& final(self).metadata == old(self).metadata
                },
            },
    {
        if *caller != *current_account {
            return Err(TicketError::Unauthorized);
        }
        let si = match find_key(&self.shows, show_id) {
            Some(i) => i,
            None => {
                return Err(TicketError::NotFound);
            },
        };
        proof { assert(show_wf(self.shows@[si as int])); }
        let ti = match find_key(&self.shows[si].ticket_infos, ticket_type) {
            Some(t) => t,
            None => {
                return Err(TicketError::NotFound);
            },
        };
        let cur = &self.shows[si].ticket_infos[ti];
        if cur.sold >= cur.supply {
            return Err(TicketError::SoldOut);
        }
        let expected = crate::token_id::token_id(show_id, ticket_type, cur.sold);
        if token_id != expected || find_key(&self.tickets, &token_id).is_some() {
            return Err(TicketError::AlreadyExists);
        }
        let info = TicketInfo { sold: cur.sold + 1, ..cur.duplicate() };
        let ticket = TicketMetadata {
            ticket_id: token_id,
            show_id: show_id.clone(),
            ticket_type: ticket_type.clone(),
            is_used: false,
            issued_at: now,
        };
        let ghost before = self.tickets@;
        let result = ticket.duplicate();
        self.put_type(si, Some(ti), info);
        proof { lemma_keys_unique_push(before, ticket); }
        self.tickets.push(ticket);
        Ok(result)
    }

    /// The continuation of a sale: where the mint failed, the buyer gets the
    /// unit price back, once.
    pub fn check_mint(&self, saga: &mut Saga, results: &Vec<bool>) -> (r: Option<Transfer>)
        ensures
            (*final(saga), r) == settle_spec(*old(saga), results@),
    {
        saga.settle(results)
    }

    /// Redeems ticket `ticket_id`: with exactly `REDEEM_FEE` attached, by the
    /// ticket's owner, marks it used. Redeeming it again is allowed.
    pub fn check_ticket(
        &mut self,
        caller: &String,
        ticket_id: &String,
        deposit: u128,
        token_owner: &Option<String>,
    ) -> (r: Result<(), TicketError>)
        requires
            old(self).wf(),
        ensures
            final(self).wf(),
            match old(self).redeem_check(caller@, ticket_id@, deposit, *token_owner) {
                Some(e) => r == Err::<(), TicketError>(e) && *final(self) == *old(self),
                None => {
                    let t = old(self).tickets_map()[ticket_id@];
                    &&& r is Ok
                    &&& final(self).tickets_map() == old(self).tickets_map().insert(
                        ticket_id@,
                        TicketMetadata { is_used: true, ..t },
                    )
                    &&& final(self).shows == old(self).shows
                    &&& final(self).owner == old(self).owner
                    &&& final(self).metadata == old(self).metadata
                },
            },
    {
        if deposit != REDEEM_FEE {
            return Err(TicketError::InsufficientDeposit);
        }
        let owns = match token_owner {
            Some(o) => *o == *caller,
            None => false,
        };
        if !owns {
            return Err(TicketError::NotOwner);
        }
        let i = match find_key(&self.tickets, ticket_id) {
            Some(i) => i,
            None => {
                return Err(TicketError::NotFound);
            },
        };
        let t = TicketMetadata { is_used: true, ..self.tickets[i].duplicate() };
        proof { lemma_keyed_map_update(self.tickets@, i as int, t); }
        self.tickets.set(i, t);
        Ok(())
    }

    /// The shows whose sale window holds `now`.
    pub fn get_active_shows(&self, now: u64) -> (r: Vec<ShowMetadata>)
        ensures
            same_shows(r@, active_shows(self.shows@, now)),
    {
        let mut r: Vec<ShowMetadata> = Vec::new();
        let mut i: usize = 0;
        while i < self.shows.len()
            invariant
                i <= self.shows@.len(),
                same_shows(r@, active_shows(self.shows@.subrange(0, i as int), now)),
            decreases self.shows.len() - i,
        {
            let ghost prev = r@;
            let show = &self.shows[i];
            if show.selling_start_time <= now && now < show.selling_end_time {
                r.push(show.duplicate());
            }
            proof {
                let sub = self.shows@.subrange(0, i + 1);
                assert(sub.drop_last() =~= self.shows@.subrange(0, i as int));
                assert(sub.last() == self.shows@[i as int]);
            }
            i = i + 1;
        }
        assert(self.shows@.subrange(0, self.shows@.len() as int) =~= self.shows@);
        r
    }

    /// Every show, in the order of creation.
    pub fn get_all_shows(&self) -> (r: Vec<ShowMetadata>)
        ensures
            same_shows(r@, self.shows@),
    {
        let mut r: Vec<ShowMetadata> = Vec::new();
        let mut i: usize = 0;
        while i < self.shows.len()
            invariant
                i <= self.shows@.len(),
                same_shows(r@, self.shows@.subrange(0, i as int)),
            decreases self.shows.len() - i,
        {
            r.push(self.shows[i].duplicate());
            i = i + 1;
        }
        assert(self.shows@.subrange(0, self.shows@.len() as int) =~= self.shows@);
        r
    }

    /// The show under `show_id`, if any.
    pub fn show_metadata(&self, show_id: &String) -> (r: Option<ShowMetadata>)
        requires
            self.wf(),
        ensures
            r is Some <==> self.shows_map().contains_key(show_id@),
            r is Some ==> same_show(r->0, self.shows_map()[show_id@]),
    {
        match find_key(&self.shows, show_id) {
            Some(i) => Some(self.shows[i].duplicate()),
            None => None,
        }
    }

    /// The ticket under `token_id`, if any.
    pub fn ticket_metadata(&self, token_id: &String) -> (r: Option<TicketMetadata>)
        requires
            self.wf(),
        ensures
            r == (if self.tickets_map().contains_key(token_id@) {
                Some(self.tickets_map()[token_id@])
            } else {
                None
            }),
    {
        match find_key(&self.tickets, token_id) {
            Some(i) => Some(self.tickets[i].duplicate()),
            None => None,
        }
    }

    /// The tickets under `token_ids`, the ids that the token ledger lists for
    /// one owner, in order; ids without a record are skipped.
    pub fn get_tickets_by_owner(&self, token_ids: &Vec<String>) -> (r: Vec<TicketMetadata>)
        requires
            self.wf(),
        ensures
            r@ == tickets_for(token_ids@, self.tickets_map()),
    {
        let mut r: Vec<TicketMetadata> = Vec::new();
        let mut i: usize = 0;
        while i < token_ids.len()
            invariant
                self.wf(),
                i <= token_ids@.len(),
                r@ == tickets_for(token_ids@.subrange(0, i as int), self.tickets_map()),
            decreases token_ids.len() - i,
        {
            if let Some(j) = find_key(&self.tickets, &token_ids[i]) {
                r.push(self.tickets[j].duplicate());
            }
            proof {
                let sub = token_ids@.subrange(0, i + 1);
                assert(sub.drop_last() =~= token_ids@.subrange(0, i as int));
                assert(sub.last() == token_ids@[i as int]);
            }
            i = i + 1;
        }
        assert(token_ids@.subrange(0, token_ids@.len() as int) =~= token_ids@);
        r
    }

    /// The deployment's own metadata.
    pub fn ticket_contract_metadata(&self) -> (r: TicketContractMetadata)
        ensures
            r == self.metadata,
    {
        self.metadata.duplicate()
    }

    /// Sets `info` as a type of show `si`, in place of the type at `ti` or
    /// appended where `ti` is `None`.
    fn put_type(&mut self, si: usize, ti: Option<usize>, info: TicketInfo)
        requires
            old(self).wf(),
            si < old(self).shows@.len(),
            info.sold <= info.supply,
            match ti {
                Some(t) => t < old(self).shows@[si as int].ticket_infos@.len()
                    && old(self).shows@[si as int].ticket_infos@[t as int].key() == info.key(),
                None => !has_key(old(self).shows@[si as int].ticket_infos@, info.key()),
            },
        ensures
            final(self).wf(),
            with_type(
                final(self).shows_map(),
                old(self).shows_map(),
                old(self).shows@[si as int].show_id@,
                info,
            ),
            final(self).owner == old(self).owner,
            final(self).metadata == old(self).metadata,
            final(self).tickets == old(self).tickets,
    {
        let ghost old_shows = self.shows@;
        let ghost old_show = self.shows@[si as int];
        let mut show = self.shows.remove(si);
        let ghost infos0 = show.ticket_infos@;
        match ti {
            Some(t) => {
                show.ticket_infos.set(t, info);
                proof { lemma_keyed_map_update(infos0, t as int, info); }
            },
            None => {
                show.ticket_infos.push(info);
                proof { lemma_keys_unique_push(infos0, info); }
            },
        }
        self.shows.insert(si, show);
        proof {
            assert(self.shows@ =~= old_shows.update(si as int, show));
            let infos1 = show.ticket_infos@;
            assert forall|j: int| 0 <= j < infos1.len() implies #[trigger] infos1[j].sold
                <= infos1[j].supply by {
                if j < infos0.len() && infos1[j] != info {
                    assert(infos1[j] == infos0[j]);
                    assert(show_wf(old_shows[si as int]));
                }
            }
            assert(show_wf(show));
            lemma_keyed_map_index(old_shows, si as int);
            lemma_keyed_map_update(old_shows, si as int, show);
            let key = old_show.show_id@;
            assert(old_show.key() == key);
            assert(show.key() == key);
            let om = keyed_map(old_shows);
            let nm = keyed_map(self.shows@);
            assert(om.contains_key(key));
            assert(om[key] == old_show);
            assert(nm == om.insert(key, show));
            assert(nm.dom() =~= om.dom());
            assert(nm[key] == show);
            assert(same_header(show, old_show));
            assert(types_of(show) == types_of(old_show).insert(info.ticket_type@, info));
            assert forall|i: int| 0 <= i < self.shows@.len() implies show_wf(
                #[trigger] self.shows@[i],
            ) by {
                if i != si {
                    assert(self.shows@[i] == old_shows[i]);
                }
            }
        }
    }
}

} // verus!

verus! {

/// No ticket type of any show of a well-formed deployment has sold more than
/// its supply; every operation that changes a deployment keeps it well formed.
pub proof fn sold_never_exceeds_supply(c: Contract, show_id: Seq<char>, ticket_type: Seq<char>)
    requires
        c.wf(),
        c.shows_map().contains_key(show_id),
        types_of(c.shows_map()[show_id]).contains_key(ticket_type),
    ensures
        types_of(c.shows_map()[show_id])[ticket_type].sold <= types_of(
            c.shows_map()[show_id],
        )[ticket_type].supply,
{
    crate::keyed::lemma_keyed_map_domain(c.shows@, show_id);
    let i = choose|i: int| 0 <= i < c.shows@.len() && #[trigger] c.shows@[i].key() == show_id;
    lemma_keyed_map_index(c.shows@, i);
    let s = c.shows@[i];
    assert(show_wf(s));
    crate::keyed::lemma_keyed_map_domain(s.ticket_infos@, ticket_type);
    let j = choose|j: int|
        0 <= j < s.ticket_infos@.len() && #[trigger] s.ticket_infos@[j].key() == ticket_type;
    lemma_keyed_map_index(s.ticket_infos@, j);
}

/// A purchase of a type whose `sold` has reached its supply is refused as
/// sold out, whatever the deposit; nothing is issued.
pub proof fn sold_out_is_refused(
    c: Contract,
    show_id: Seq<char>,
    ticket_type: Seq<char>,
    deposit: u128,
    now: u64,
)
    requires
        c.shows_map().contains_key(show_id),
        is_active(c.shows_map()[show_id], now),
        types_of(c.shows_map()[show_id]).contains_key(ticket_type),
        types_of(c.shows_map()[show_id])[ticket_type].sold == types_of(
            c.shows_map()[show_id],
        )[ticket_type].supply,
    ensures
        c.buy_check(show_id, ticket_type, deposit, now) == Some(TicketError::SoldOut),
{
}

/// With a ticket left and the window open, a deposit of the unit price or
/// more is accepted and one unit less is refused as insufficient.
pub proof fn deposit_meets_price(
    c: Contract,
    show_id: Seq<char>,
    ticket_type: Seq<char>,
    deposit: u128,
    now: u64,
)
    requires
        c.shows_map().contains_key(show_id),
        is_active(c.shows_map()[show_id], now),
        types_of(c.shows_map()[show_id]).contains_key(ticket_type),
        types_of(c.shows_map()[show_id])[ticket_type].sold < types_of(
            c.shows_map()[show_id],
        )[ticket_type].supply,
    ensures
        deposit >= types_of(c.shows_map()[show_id])[ticket_type].price ==> c.buy_check(
            show_id,
            ticket_type,
            deposit,
            now,
        ) is None,
        deposit < types_of(c.shows_map()[show_id])[ticket_type].price ==> c.buy_check(
            show_id,
            ticket_type,
            deposit,
            now,
        ) == Some(TicketError::InsufficientDeposit),
{
}

/// A well-formed deployment never records two tickets under one id, and
/// tickets of one show and type with different sequence numbers have
/// different ids.
pub proof fn ticket_ids_unique(
    c: Contract,
    i: int,
    j: int,
    show_id: Seq<char>,
    ticket_type: Seq<char>,
    a: nat,
    b: nat,
)
    requires
        c.wf(),
        0 <= i < c.tickets@.len(),
        0 <= j < c.tickets@.len(),
        i != j,
        a != b,
    ensures
        c.tickets@[i].ticket_id@ != c.tickets@[j].ticket_id@,
        token_id_spec(show_id, ticket_type, a) != token_id_spec(show_id, ticket_type, b),
{
    assert(c.tickets@[i].key() != c.tickets@[j].key());
    crate::token_id::token_ids_distinct(show_id, ticket_type, a, b);
}

} // verus!

verus! {

proof fn lemma_sold_counts(
    cs: Seq<Contract>,
    ids: Seq<Seq<char>>,
    show_id: Seq<char>,
    ticket_type: Seq<char>,
    j: int,
)
    requires
        cs.len() == ids.len() + 1,
        forall|i: int|
            0 <= i < ids.len() ==> mint_confirmed(cs[i], cs[i + 1], show_id, ticket_type, #[trigger] ids[i]),
        sold_of(cs[0], show_id, ticket_type) == 0,
        0 <= j <= ids.len(),
    ensures
        sold_of(cs[j], show_id, ticket_type) == j,
    decreases j,
{
    if j > 0 {
        lemma_sold_counts(cs, ids, show_id, ticket_type, j - 1);
        assert(mint_confirmed(cs[j - 1], cs[j], show_id, ticket_type, ids[j - 1]));
    }
}

/// Mints of one ticket type confirmed one after another, from nothing sold,
/// number the tickets 0, 1, 2, ...: the `j`-th id is
/// `{show_id}.{ticket_type}.{j}`, no two ids are equal, and `sold` ends at
/// the number of mints.
pub proof fn sequential_mints_number_tickets(
    cs: Seq<Contract>,
    ids: Seq<Seq<char>>,
    show_id: Seq<char>,
    ticket_type: Seq<char>,
)
    requires
        cs.len() == ids.len() + 1,
        forall|i: int|
            0 <= i < ids.len() ==> mint_confirmed(cs[i], cs[i + 1], show_id, ticket_type, #[trigger] ids[i]),
        sold_of(cs[0], show_id, ticket_type) == 0,
    ensures
        forall|j: int| 0 <= j < ids.len() ==> #[trigger] ids[j] == token_id_spec(show_id, ticket_type, j as nat),
        forall|i: int, j: int| 0 <= i < j < ids.len() ==> #[trigger] ids[i] != #[trigger] ids[j],
        sold_of(cs[ids.len() as int], show_id, ticket_type) == ids.len(),
{
    assert forall|j: int| 0 <= j < ids.len() implies #[trigger] ids[j] == token_id_spec(
        show_id,
        ticket_type,
        j as nat,
    ) by {
        lemma_sold_counts(cs, ids, show_id, ticket_type, j);
    }
    assert forall|i: int, j: int| 0 <= i < j < ids.len() implies #[trigger] ids[i] != #[trigger] ids[j] by {
        assert(ids[i] == token_id_spec(show_id, ticket_type, i as nat));
        assert(ids[j] == token_id_spec(show_id, ticket_type, j as nat));
        crate::token_id::token_ids_distinct(show_id, ticket_type, i as nat, j as nat);
    }
    lemma_sold_counts(cs, ids, show_id, ticket_type, ids.len() as int);
}

} // verus!

verus! {

/// A show created from the lists holds, under each name, the type made from
/// the last entry of that name, priced by `price_for` with `MINT_FEE`.
pub proof fn stored_type_is_last_entry(
    types: Seq<String>,
    supply: Seq<u32>,
    prices: Seq<Decimal>,
    n: nat,
    i: int,
)
    requires
        0 <= i < n,
        n <= types.len(),
        n <= supply.len(),
        n <= prices.len(),
        forall|j: int| i < j < n ==> (#[trigger] types[j])@ != types[i]@,
    ensures
        initial_types(types, supply, prices, n).contains_key(types[i]@),
        initial_types(types, supply, prices, n)[types[i]@] == initial_info(
            types[i],
            supply[i],
            prices[i],
        ),
        initial_types(types, supply, prices, n)[types[i]@].price == price_spec(
            prices[i],
            MINT_FEE,
        )->Ok_0,
    decreases n,
{
    if i < n - 1 {
        assert(types[n - 1]@ != types[i]@);
        stored_type_is_last_entry(types, supply, prices, (n - 1) as nat, i);
    }
}

/// Equal decimal prices are stored as equal unit prices, in any show and
/// under any name.
pub proof fn equal_decimals_store_equal_prices(
    t1: String,
    s1: u32,
    p1: Decimal,
    t2: String,
    s2: u32,
    p2: Decimal,
)
    requires
        p1 == p2,
    ensures
        initial_info(t1, s1, p1).price == initial_info(t2, s2, p2).price,
{
}

/// The stored unit price of a valid decimal price is its exact value in
/// minimal units, rounded half away from zero, plus `MINT_FEE` (ten to the
/// twenty-second); an exact half rounds up.
pub proof fn stored_price_rounds_half_away_from_zero(t: String, s: u32, p: Decimal)
    requires
        !is_negative(p),
        minimal_units(p) + MINT_FEE <= u128::MAX,
    ensures
        MINT_FEE == 10_000_000_000_000_000_000_000,
        p.scale <= UNIT_DIGITS ==> initial_info(t, s, p).price == p.mantissa as nat * pow10(
            (UNIT_DIGITS - p.scale) as nat,
        ) + MINT_FEE,
        p.scale > UNIT_DIGITS ==> ({
            let d = pow10((p.scale - UNIT_DIGITS) as nat);
            let m = p.mantissa as nat;
            &&& initial_info(t, s, p).price == m / d + (if 2 * (m % d) >= d {
                1nat
            } else {
                0nat
            }) + MINT_FEE
            &&& 2 * (m % d) == d ==> initial_info(t, s, p).price == m / d + 1 + MINT_FEE
        }),
{
    if p.scale > UNIT_DIGITS {
        crate::price::price_rounds_half_away_from_zero(p);
    }
}

} // verus!
