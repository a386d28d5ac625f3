use vstd::prelude::*;

use crate::fees::{fee_of, split_sale};
use crate::types::{Address, Auth, Error, Payment};

verus! {

/// One ticket: its holder, its number, and whether it was checked in.
#[derive(Clone, Copy, Debug, PartialEq, Eq, Structural)]
pub struct TicketData {
    pub owner: Address,
    pub ticket_id: u32,
    pub is_used: bool,
}

/// An offer to resell a ticket at `price`.
#[derive(Clone, Copy, Debug, PartialEq, Eq, Structural)]
pub struct SecondaryListing {
    pub ticket_id: u32,
    pub seller: Address,
    pub price: i128,
}

/// The parameters of an event, fixed when its ticket program is set up.
#[derive(Debug)]
pub struct EventInfo {
    pub event_creator: Address,
    pub total_supply: u32,
    pub primary_price: i128,
    pub creator_fee_bps: u32,
    pub event_metadata: String,
    pub payment_token: Address,
    pub name: String,
    pub symbol: String,
}

impl Clone for EventInfo {
    fn clone(&self) -> (r: Self)
        ensures
            r == *self,
    {
        EventInfo {
            event_creator: self.event_creator,
            total_supply: self.total_supply,
            primary_price: self.primary_price,
            creator_fee_bps: self.creator_fee_bps,
            event_metadata: self.event_metadata.clone(),
            payment_token: self.payment_token,
            name: self.name.clone(),
            symbol: self.symbol.clone(),
        }
    }
}

/// The ticket program of one event.
#[derive(Debug)]
pub struct TicketMarketplace {
    info: Option<EventInfo>,
    /// The ticket numbered `n` is at position `n - 1`.
    tickets: Vec<TicketData>,
    /// The live resale offer, if any, of the ticket at the same position.
    listings: Vec<Option<SecondaryListing>>,
    /// Every ticket number once, ordered by when its holder obtained it:
    /// a holder's tickets are read from it in the order they were obtained.
    acquired: Vec<u32>,
}

/// The abstract state of a ticket program.
pub struct MarketView {
    pub info: Option<EventInfo>,
    pub tickets: Seq<TicketData>,
    pub listings: Seq<Option<SecondaryListing>>,
    pub acquired: Seq<u32>,
}

impl View for TicketMarketplace {
    type V = MarketView;

    closed spec fn view(&self) -> MarketView {
        MarketView {
            info: self.info,
            tickets: self.tickets@,
            listings: self.listings@,
            acquired: self.acquired@,
        }
    }
}

/// The ticket numbers in `acquired` whose ticket `owner` holds, in order.
pub open spec fn holdings(acquired: Seq<u32>, tickets: Seq<TicketData>, owner: Address) -> Seq<u32>
    decreases acquired.len(),
{
    if acquired.len() == 0 {
        Seq::empty()
    } else {
        let rest = holdings(acquired.drop_last(), tickets, owner);
        let id = acquired.last();
        if 1 <= id <= tickets.len() && tickets[id - 1].owner == owner {
            rest.push(id)
        } else {
            rest
        }
    }
}

/// The live offers among `listings`, in order.
pub open spec fn live_listings(listings: Seq<Option<SecondaryListing>>) -> Seq<SecondaryListing>
    decreases listings.len(),
{
    if listings.len() == 0 {
        Seq::empty()
    } else {
        let rest = live_listings(listings.drop_last());
        match listings.last() {
            Some(l) => rest.push(l),
            None => rest,
        }
    }
}

/// Whether the parameters of an event are acceptable.
pub open spec fn valid_params(total_supply: u32, primary_price: i128, creator_fee_bps: u32) -> bool {
    total_supply > 0 && primary_price > 0 && creator_fee_bps <= 10000
}

impl MarketView {
    pub open spec fn minted(self) -> nat {
        self.tickets.len()
    }

    pub open spec fn ticket(self, id: u32) -> Option<TicketData> {
        if 1 <= id <= self.tickets.len() {
            Some(self.tickets[id - 1])
        } else {
            None
        }
    }

    pub open spec fn listing(self, id: u32) -> Option<SecondaryListing> {
        if 1 <= id <= self.listings.len() {
            self.listings[id - 1]
        } else {
            None
        }
    }

    pub open spec fn user_tickets(self, owner: Address) -> Seq<u32> {
        holdings(self.acquired, self.tickets, owner)
    }

    /// The invariant of a ticket program.
    pub open spec fn wf(self) -> bool {
        &&& match self.info {
            None => self.tickets.len() == 0,
            Some(i) => valid_params(i.total_supply, i.primary_price, i.creator_fee_bps)
                && self.tickets.len() <= i.total_supply,
        }
        &&& self.listings.len() == self.tickets.len()
        &&& forall|k: int| 0 <= k < self.tickets.len() ==> #[trigger] self.tickets[k].ticket_id == k + 1
        &&& forall|k: int| 0 <= k < self.listings.len() && (#[trigger] self.listings[k]) is Some ==> {
            let l = self.listings[k]->Some_0;
            &&& l.ticket_id == k + 1
            &&& l.seller == self.tickets[k].owner
            &&& !self.tickets[k].is_used
            &&& l.price > 0
        }
        &&& self.acquired.no_duplicates()
        &&& forall|k: int| 0 <= k < self.acquired.len() ==> 1 <= #[trigger] self.acquired[k] <= self.tickets.len()
        &&& forall|id: u32| 1 <= id <= self.tickets.len() ==> #[trigger] self.acquired.contains(id)
    }

    pub open spec fn init_error(self, total_supply: u32, primary_price: i128, creator_fee_bps: u32) -> Option<Error> {
        if self.info is Some {
            Some(Error::AlreadyInitialized)
        } else if !valid_params(total_supply, primary_price, creator_fee_bps) {
            Some(Error::InvalidArgument)
        } else {
            None
        }
    }

    pub open spec fn mint_error(self, auth: &Auth, buyer: Address) -> Option<Error> {
        if !auth.authorizes(buyer) {
            Some(Error::Unauthorized)
        } else {
            match self.info {
                None => Some(Error::NotInitialized),
                Some(i) => if self.tickets.len() >= i.total_supply {
                    Some(Error::SoldOut)
                } else {
                    None
                },
            }
        }
    }

    /// A ticket program just set up with `info`, with no ticket issued.
    pub open spec fn fresh(info: EventInfo) -> MarketView {
        MarketView { info: Some(info), tickets: Seq::empty(), listings: Seq::empty(), acquired: Seq::empty() }
    }

    /// The state after the event is set up with `info`.
    pub open spec fn after_init(self, info: EventInfo) -> MarketView {
        MarketView { info: Some(info), ..self }
    }

    /// The state after a new ticket is issued to `buyer`.
    pub open spec fn after_mint(self, buyer: Address) -> MarketView {
        let id = (self.tickets.len() + 1) as u32;
        MarketView {
            info: self.info,
            tickets: self.tickets.push(TicketData { owner: buyer, ticket_id: id, is_used: false }),
            listings: self.listings.push(None),
            acquired: self.acquired.push(id),
        }
    }

    pub open spec fn list_error(self, auth: &Auth, seller: Address, id: u32, price: i128) -> Option<Error> {
        if !auth.authorizes(seller) {
            Some(Error::Unauthorized)
        } else if price <= 0 {
            Some(Error::InvalidArgument)
        } else {
            match self.ticket(id) {
                None => Some(Error::NotFound),
                Some(t) => if t.owner != seller {
                    Some(Error::Unauthorized)
                } else if t.is_used {
                    Some(Error::InvalidState)
                } else if self.listing(id) is Some {
                    Some(Error::AlreadyListed)
                } else {
                    None
                },
            }
        }
    }

    /// The error of an operation by `seller` on the offer for ticket `id`.
    pub open spec fn seller_error(self, auth: &Auth, seller: Address, id: u32) -> Option<Error> {
        if !auth.authorizes(seller) {
            Some(Error::Unauthorized)
        } else {
            match self.listing(id) {
                None => Some(Error::NotFound),
                Some(l) => if l.seller != seller {
                    Some(Error::Unauthorized)
                } else {
                    None
                },
            }
        }
    }

    pub open spec fn delist_error(self, auth: &Auth, seller: Address, id: u32) -> Option<Error> {
        self.seller_error(auth, seller, id)
    }

    pub open spec fn reprice_error(self, auth: &Auth, seller: Address, id: u32, new_price: i128) -> Option<Error> {
        if !auth.authorizes(seller) {
            Some(Error::Unauthorized)
        } else if new_price <= 0 {
            Some(Error::InvalidArgument)
        } else {
            self.seller_error(auth, seller, id)
        }
    }

    pub open spec fn mark_used_error(self, auth: &Auth, caller: Address, id: u32) -> Option<Error> {
        if !auth.authorizes(caller) {
            Some(Error::Unauthorized)
        } else {
            match self.info {
                None => Some(Error::NotInitialized),
                Some(i) => if caller != i.event_creator {
                    Some(Error::Unauthorized)
                } else {
                    match self.ticket(id) {
                        None => Some(Error::NotFound),
                        Some(t) => if t.is_used {
                            Some(Error::InvalidState)
                        } else {
                            None
                        },
                    }
                },
            }
        }
    }

    /// The state with the offer for ticket `id` set to `l`.
    pub open spec fn with_listing(self, id: u32, l: Option<SecondaryListing>) -> MarketView {
        MarketView { listings: self.listings.update(id - 1, l), ..self }
    }

    /// The state after ticket `id` is checked in; any offer for it is gone.
    pub open spec fn after_mark_used(self, id: u32) -> MarketView {
        let t = self.tickets[id - 1];
        MarketView {
            tickets: self.tickets.update(id - 1, TicketData { is_used: true, ..t }),
            listings: self.listings.update(id - 1, None),
            ..self
        }
    }

    pub open spec fn transfer_error(self, auth: &Auth, from: Address, id: u32) -> Option<Error> {
        if !auth.authorizes(from) {
            Some(Error::Unauthorized)
        } else {
            match self.ticket(id) {
                None => Some(Error::NotFound),
                Some(t) => if t.owner != from {
                    Some(Error::Unauthorized)
                } else if t.is_used {
                    Some(Error::InvalidState)
                } else if self.listing(id) is Some {
                    Some(Error::InvalidState)
                } else {
                    None
                },
            }
        }
    }

    pub open spec fn buy_error(self, auth: &Auth, buyer: Address, id: u32) -> Option<Error> {
        if !auth.authorizes(buyer) {
            Some(Error::Unauthorized)
        } else if self.listing(id) is None {
            Some(Error::NotFound)
        } else {
            match self.ticket(id) {
                None => Some(Error::NotFound),
                Some(t) => if t.is_used {
                    Some(Error::InvalidState)
                } else if self.info is None {
                    Some(Error::NotInitialized)
                } else {
                    None
                },
            }
        }
    }

    /// The state after ticket `id` passes to `to`, who obtains it last.
    pub open spec fn after_move(self, id: u32, to: Address) -> MarketView {
        let t = self.tickets[id - 1];
        MarketView {
            tickets: self.tickets.update(id - 1, TicketData { owner: to, ..t }),
            acquired: self.acquired.remove(self.acquired.index_of(id)).push(id),
            ..self
        }
    }

    pub proof fn lemma_after_mint_wf(self, buyer: Address)
        requires
            self.wf(),
            self.info is Some,
            self.tickets.len() < self.info->Some_0.total_supply,
        ensures
            self.after_mint(buyer).wf(),
    {
        let v = self.after_mint(buyer);
        let n = self.tickets.len();
        let id = (n + 1) as u32;
        assert(v.acquired.no_duplicates()) by {
            assert(forall|k: int| 0 <= k < v.acquired.len() - 1 ==> v.acquired[k] <= n);
        }
        assert forall|t: u32| 1 <= t <= v.tickets.len() implies #[trigger] v.acquired.contains(t) by {
            if t == id {
                assert(v.acquired[v.acquired.len() - 1] == t);
            } else {
                assert(self.acquired.contains(t));
                let j = choose|j: int| 0 <= j < self.acquired.len() && self.acquired[j] == t;
                assert(v.acquired[j] == t);
            }
        }
    }

    /// Where a minted ticket's number stands in `acquired`.
    pub proof fn lemma_index_of_acquired(self, id: u32)
        requires
            self.wf(),
            1 <= id <= self.tickets.len(),
        ensures
            0 <= self.acquired.index_of(id) < self.acquired.len(),
            self.acquired[self.acquired.index_of(id)] == id,
            forall|i: int| 0 <= i < self.acquired.len() && self.acquired[i] == id ==> i == self.acquired.index_of(id),
    {
        assert(self.acquired.contains(id));
    }

    pub proof fn lemma_after_move_wf(self, id: u32, to: Address)
        requires
            self.wf(),
            1 <= id <= self.tickets.len(),
            self.listing(id) is None,
        ensures
            self.after_move(id, to).wf(),
    {
        let v = self.after_move(id, to);
        self.lemma_index_of_acquired(id);
        let j = self.acquired.index_of(id);
        let k = id - 1;
        let r = self.acquired.remove(j);
        self.acquired.remove_ensures(j);
        assert(v.acquired == r.push(id));
        assert forall|i: int| 0 <= i < r.len() implies #[trigger] r[i] != id by {
            if i < j {
                assert(r[i] == self.acquired[i]);
            } else {
                assert(r[i] == self.acquired[i + 1]);
            }
        }
        assert forall|a: int, b: int| 0 <= a < v.acquired.len() && 0 <= b < v.acquired.len() && a != b
            implies v.acquired[a] != v.acquired[b] by {
            if a < r.len() && b < r.len() {
                let oa = if a < j { a } else { a + 1 };
                let ob = if b < j { b } else { b + 1 };
                assert(r[a] == self.acquired[oa]);
                assert(r[b] == self.acquired[ob]);
            }
        }
        assert forall|i: int| 0 <= i < v.acquired.len() implies 1 <= #[trigger] v.acquired[i] <= v.tickets.len() by {
            if i < r.len() {
                let oi = if i < j { i } else { i + 1 };
                assert(r[i] == self.acquired[oi]);
            }
        }
        assert forall|t2: u32| 1 <= t2 <= v.tickets.len() implies #[trigger] v.acquired.contains(t2) by {
            if t2 == id {
                assert(v.acquired[v.acquired.len() - 1] == t2);
            } else {
                assert(self.acquired.contains(t2));
                let i = choose|i: int| 0 <= i < self.acquired.len() && self.acquired[i] == t2;
                assert(i != j);
                let ni = if i < j { i } else { i - 1 };
                assert(r[ni] == t2);
                assert(v.acquired[ni] == t2);
            }
        }
        assert forall|i: int| 0 <= i < v.listings.len() && (#[trigger] v.listings[i]) is Some implies
            v.listings[i]->Some_0.seller == v.tickets[i].owner by {
            assert(i != k);
        }
    }

    pub proof fn lemma_after_mark_used_wf(self, id: u32)
        requires
            self.wf(),
            1 <= id <= self.tickets.len(),
        ensures
            self.after_mark_used(id).wf(),
    {
        let v = self.after_mark_used(id);
        assert forall|j: int| 0 <= j < v.acquired.len() implies 1 <= #[trigger] v.acquired[j] <= v.tickets.len() by {
            assert(self.acquired[j] == v.acquired[j]);
        }
    }

    /// The state after `buyer` buys the offered ticket `id`.
    pub open spec fn after_buy(self, id: u32, buyer: Address) -> MarketView {
        self.with_listing(id, None).after_move(id, buyer)
    }
}

/// The payments that settle a resale of `l` to `buyer`: the creator's fee,
/// when it is not zero, then the rest of the price to the seller.
pub open spec fn sale_payments(info: EventInfo, buyer: Address, l: SecondaryListing) -> Seq<Payment> {
    let fee = fee_of(l.price as int, info.creator_fee_bps as int);
    let to_seller = Payment { asset: info.payment_token, from: buyer, to: l.seller, amount: (l.price - fee) as i128 };
    if fee > 0 {
        seq![Payment { asset: info.payment_token, from: buyer, to: info.event_creator, amount: fee as i128 }, to_seller]
    } else {
        seq![to_seller]
    }
}

/// The payment that buys a ticket on the primary market.
pub open spec fn primary_payment(info: EventInfo, buyer: Address) -> Payment {
    Payment { asset: info.payment_token, from: buyer, to: info.event_creator, amount: info.primary_price }
}

impl Clone for TicketMarketplace {
    /// A copy of the whole state, which a host keeps to restore when the
    /// payments of an operation cannot be settled.
    fn clone(&self) -> (r: Self)
        ensures
            r@ == self@,
    {
        let info = match &self.info {
            None => None,
            Some(i) => Some(i.clone()),
        };
        let tickets = self.tickets.clone();
        let listings = self.listings.clone();
        let acquired = self.acquired.clone();
        proof {
            assert(tickets@ =~= self.tickets@);
            assert(listings@ =~= self.listings@);
            assert(acquired@ =~= self.acquired@);
        }
        TicketMarketplace { info, tickets, listings, acquired }
    }
}

impl TicketMarketplace {
    /// A ticket program that has not been set up.
    pub fn new() -> (r: TicketMarketplace)
        ensures
            r@.info is None,
            r@.tickets.len() == 0,
            r@.listings.len() == 0,
            r@.acquired.len() == 0,
            r@.wf(),
    {
        TicketMarketplace { info: None, tickets: Vec::new(), listings: Vec::new(), acquired: Vec::new() }
    }

    /// Sets up the event once: the supply and price must be positive and
    /// the fee at most 10000 basis points.
    pub fn init(
        &mut self,
        event_creator: Address,
        total_supply: u32,
        primary_price: i128,
        creator_fee_bps: u32,
        event_metadata: String,
        name: String,
        symbol: String,
        payment_token: Address,
    ) -> (r: Result<(), Error>)
        requires
            old(self)@.wf(),
        ensures
            final(self)@.wf(),
            match r {
                Err(e) => old(self)@.init_error(total_supply, primary_price, creator_fee_bps) == Some(e)
                    && final(self)@ == old(self)@,
                Ok(()) => old(self)@.init_error(total_supply, primary_price, creator_fee_bps) is None
                    && final(self)@ == old(self)@.after_init((EventInfo {
                            event_creator,
                            total_supply,
                            primary_price,
                            creator_fee_bps,
                            event_metadata,
                            payment_token,
                            name,
                            symbol,
                        })),
            },
    {
        if self.info.is_some() {
            return Err(Error::AlreadyInitialized);
        }
        if total_supply == 0 || primary_price <= 0 || creator_fee_bps > 10000 {
            return Err(Error::InvalidArgument);
        }
        self.info = Some(EventInfo {
            event_creator,
            total_supply,
            primary_price,
            creator_fee_bps,
            event_metadata,
            payment_token,
            name,
            symbol,
        });
        Ok(())
    }

    /// Issues the next ticket to `buyer`, who owes the primary price to the
    /// creator: the one payment returned.
    pub fn mint_ticket(&mut self, auth: &Auth, buyer: Address) -> (r: Result<(u32, Vec<Payment>), Error>)
        requires
            old(self)@.wf(),
        ensures
            final(self)@.wf(),
            match r {
                Err(e) => old(self)@.mint_error(auth, buyer) == Some(e) && final(self)@ == old(self)@,
                Ok((id, pays)) => old(self)@.mint_error(auth, buyer) is None
                    && id == old(self)@.minted() + 1
                    && final(self)@ == old(self)@.after_mint(buyer)
                    && pays@ == seq![primary_payment(old(self)@.info->Some_0, buyer)],
            },
    {
        if !auth.allows(buyer) {
            return Err(Error::Unauthorized);
        }
        let (total_supply, payment) = match &self.info {
            None => {
                return Err(Error::NotInitialized);
            },
            Some(info) => (
                info.total_supply,
                Payment {
                    asset: info.payment_token,
                    from: buyer,
                    to: info.event_creator,
                    amount: info.primary_price,
                },
            ),
        };
        let minted: usize = self.tickets.len();
        if minted >= total_supply as usize {
            return Err(Error::SoldOut);
        }
        let id: u32 = (minted + 1) as u32;
        self.tickets.push(TicketData { owner: buyer, ticket_id: id, is_used: false });
        self.listings.push(None);
        self.acquired.push(id);
        proof {
            assert(self@ =~= old(self)@.after_mint(buyer));
            old(self)@.lemma_after_mint_wf(buyer);
        }
        let mut pays: Vec<Payment> = Vec::new();
        pays.push(payment);
        Ok((id, pays))
    }

    /// Offers ticket `ticket_id` for resale by its holder at `price`.
    pub fn list_ticket(&mut self, auth: &Auth, seller: Address, ticket_id: u32, price: i128) -> (r: Result<(), Error>)
        requires
            old(self)@.wf(),
        ensures
            final(self)@.wf(),
            match r {
                Err(e) => old(self)@.list_error(auth, seller, ticket_id, price) == Some(e)
                    && final(self)@ == old(self)@,
                Ok(()) => old(self)@.list_error(auth, seller, ticket_id, price) is None
                    && final(self)@ == old(self)@.with_listing(
                        ticket_id,
                        Some((SecondaryListing { ticket_id, seller, price })),
                    ),
            },
    {
        if !auth.allows(seller) {
            return Err(Error::Unauthorized);
        }
        if price <= 0 {
            return Err(Error::InvalidArgument);
        }
        if ticket_id == 0 || ticket_id as usize > self.tickets.len() {
            return Err(Error::NotFound);
        }
        let k: usize = (ticket_id - 1) as usize;
        let t = self.tickets[k];
        if t.owner != seller {
            return Err(Error::Unauthorized);
        }
        if t.is_used {
            return Err(Error::InvalidState);
        }
        if self.listings[k].is_some() {
            return Err(Error::AlreadyListed);
        }
        self.listings.set(k, Some(SecondaryListing { ticket_id, seller, price }));
        proof {
            assert(self@ =~= old(self)@.with_listing(ticket_id, Some(SecondaryListing { ticket_id, seller, price })));
        }
        Ok(())
    }

    /// Position of the live offer for ticket `ticket_id` whose seller is `seller`.
    fn seller_listing(&self, auth: &Auth, seller: Address, ticket_id: u32) -> (r: Result<usize, Error>)
        requires
            self@.wf(),
        ensures
            match r {
                Err(e) => self@.seller_error(auth, seller, ticket_id) == Some(e),
                Ok(k) => self@.seller_error(auth, seller, ticket_id) is None && k == ticket_id - 1
                    && k < self@.listings.len(),
            },
    {
        if !auth.allows(seller) {
            return Err(Error::Unauthorized);
        }
        if ticket_id == 0 || ticket_id as usize > self.listings.len() {
            return Err(Error::NotFound);
        }
        let k: usize = (ticket_id - 1) as usize;
        match self.listings[k] {
            None => Err(Error::NotFound),
            Some(l) => if l.seller != seller {
                Err(Error::Unauthorized)
            } else {
                Ok(k)
            },
        }
    }

    /// Withdraws the resale offer for ticket `ticket_id`; only its seller may.
    pub fn delist_ticket(&mut self, auth: &Auth, seller: Address, ticket_id: u32) -> (r: Result<(), Error>)
        requires
            old(self)@.wf(),
        ensures
            final(self)@.wf(),
            match r {
                Err(e) => old(self)@.delist_error(auth, seller, ticket_id) == Some(e)
                    && final(self)@ == old(self)@,
                Ok(()) => old(self)@.delist_error(auth, seller, ticket_id) is None
                    && final(self)@ == old(self)@.with_listing(ticket_id, None),
            },
    {
        let k = self.seller_listing(auth, seller, ticket_id)?;
        self.listings.set(k, None);
        proof {
            assert(self@ =~= old(self)@.with_listing(ticket_id, None));
        }
        Ok(())
    }

    /// Changes the price of the resale offer for ticket `ticket_id`; only its
    /// seller may, and the new price must be positive.
    pub fn update_listing_price(&mut self, auth: &Auth, seller: Address, ticket_id: u32, new_price: i128) -> (r: Result<(), Error>)
        requires
            old(self)@.wf(),
        ensures
            final(self)@.wf(),
            match r {
                Err(e) => old(self)@.reprice_error(auth, seller, ticket_id, new_price) == Some(e)
                    && final(self)@ == old(self)@,
                Ok(()) => old(self)@.reprice_error(auth, seller, ticket_id, new_price) is None
                    && final(self)@ == old(self)@.with_listing(
                        ticket_id,
                        Some((SecondaryListing { ticket_id, seller, price: new_price })),
                    ),
            },
    {
        if !auth.allows(seller) {
            return Err(Error::Unauthorized);
        }
        if new_price <= 0 {
            return Err(Error::InvalidArgument);
        }
        let k = self.seller_listing(auth, seller, ticket_id)?;
        self.listings.set(k, Some(SecondaryListing { ticket_id, seller, price: new_price }));
        proof {
            assert(self@ =~= old(self)@.with_listing(ticket_id, Some(SecondaryListing { ticket_id, seller, price: new_price })));
        }
        Ok(())
    }

    /// Checks ticket `ticket_id` in; only the event's creator may, and only once.
    /// Any resale offer for the ticket is withdrawn.
    pub fn mark_ticket_used(&mut self, auth: &Auth, creator: Address, ticket_id: u32) -> (r: Result<(), Error>)
        requires
            old(self)@.wf(),
        ensures
            final(self)@.wf(),
            match r {
                Err(e) => old(self)@.mark_used_error(auth, creator, ticket_id) == Some(e)
                    && final(self)@ == old(self)@,
                Ok(()) => old(self)@.mark_used_error(auth, creator, ticket_id) is None
                    && final(self)@ == old(self)@.after_mark_used(ticket_id),
            },
    {
        if !auth.allows(creator) {
            return Err(Error::Unauthorized);
        }
        let event_creator = match &self.info {
            None => {
                return Err(Error::NotInitialized);
            },
            Some(info) => info.event_creator,
        };
        if creator != event_creator {
            return Err(Error::Unauthorized);
        }
        if ticket_id == 0 || ticket_id as usize > self.tickets.len() {
            return Err(Error::NotFound);
        }
        let k: usize = (ticket_id - 1) as usize;
        let t = self.tickets[k];
        if t.is_used {
            return Err(Error::InvalidState);
        }
        self.tickets.set(k, TicketData { is_used: true, ..t });
        self.listings.set(k, None);
        proof {
            assert(self@ =~= old(self)@.after_mark_used(ticket_id));
            old(self)@.lemma_after_mark_used_wf(ticket_id);
        }
        Ok(())
    }

    /// Hands ticket `ticket_id` to `to`, who obtains it last.
    fn move_ticket(&mut self, ticket_id: u32, to: Address)
        requires
            old(self)@.wf(),
            1 <= ticket_id <= old(self)@.tickets.len(),
            old(self)@.listing(ticket_id) is None,
        ensures
            final(self)@.wf(),
            final(self)@ == old(self)@.after_move(ticket_id, to),
    {
        let ghost s0 = self@;
        proof {
            s0.lemma_index_of_acquired(ticket_id);
        }
        let mut j: usize = 0;
        while j < self.acquired.len()
            invariant
                self@ == s0,
                j <= s0.acquired.len(),
                forall|i: int| 0 <= i < j ==> s0.acquired[i] != ticket_id,
            ensures
                self@ == s0,
                j <= s0.acquired.len(),
                forall|i: int| 0 <= i < j ==> s0.acquired[i] != ticket_id,
                j == s0.acquired.len() || s0.acquired[j as int] == ticket_id,
            decreases s0.acquired.len() - j,
        {
            if self.acquired[j] == ticket_id {
                break;
            }
            j = j + 1;
        }
        proof {
            let i = s0.acquired.index_of(ticket_id);
            assert(s0.acquired[i] == ticket_id);
            // the number is present, so the search stopped on it
            assert(j < s0.acquired.len());
        }
        self.acquired.remove(j);
        self.acquired.push(ticket_id);
        let k: usize = (ticket_id - 1) as usize;
        let t = self.tickets[k];
        self.tickets.set(k, TicketData { owner: to, ..t });
        proof {
            assert(self@ =~= s0.after_move(ticket_id, to));
            s0.lemma_after_move_wf(ticket_id, to);
        }
    }

    /// Hands ticket `ticket_id` from its holder `from` to `to`. A checked-in
    /// ticket, or one offered for resale, cannot be handed over.
    pub fn transfer_ticket(&mut self, auth: &Auth, from: Address, to: Address, ticket_id: u32) -> (r: Result<(), Error>)
        requires
            old(self)@.wf(),
        ensures
            final(self)@.wf(),
            match r {
                Err(e) => old(self)@.transfer_error(auth, from, ticket_id) == Some(e)
                    && final(self)@ == old(self)@,
                Ok(()) => old(self)@.transfer_error(auth, from, ticket_id) is None
                    && final(self)@ == old(self)@.after_move(ticket_id, to),
            },
    {
        if !auth.allows(from) {
            return Err(Error::Unauthorized);
        }
        if ticket_id == 0 || ticket_id as usize > self.tickets.len() {
            return Err(Error::NotFound);
        }
        let k: usize = (ticket_id - 1) as usize;
        let t = self.tickets[k];
        if t.owner != from {
            return Err(Error::Unauthorized);
        }
        if t.is_used {
            return Err(Error::InvalidState);
        }
        if self.listings[k].is_some() {
            return Err(Error::InvalidState);
        }
        self.move_ticket(ticket_id, to);
        Ok(())
    }

    /// Buys the ticket offered under `ticket_id`. The returned payments are owed
    /// by `buyer`: the creator's fee, unless it is zero, then the rest of
    /// the price to the seller.
    pub fn buy_secondary_ticket(&mut self, auth: &Auth, buyer: Address, ticket_id: u32) -> (r: Result<Vec<Payment>, Error>)
        requires
            old(self)@.wf(),
        ensures
            final(self)@.wf(),
            match r {
                Err(e) => old(self)@.buy_error(auth, buyer, ticket_id) == Some(e)
                    && final(self)@ == old(self)@,
                Ok(pays) => old(self)@.buy_error(auth, buyer, ticket_id) is None
                    && final(self)@ == old(self)@.after_buy(ticket_id, buyer)
                    && pays@ == sale_payments(
                        old(self)@.info->Some_0,
                        buyer,
                        old(self)@.listing(ticket_id)->Some_0,
                    ),
            },
    {
        if !auth.allows(buyer) {
            return Err(Error::Unauthorized);
        }
        if ticket_id == 0 || ticket_id as usize > self.listings.len() {
            return Err(Error::NotFound);
        }
        let k: usize = (ticket_id - 1) as usize;
        let l = match self.listings[k] {
            None => {
                return Err(Error::NotFound);
            },
            Some(l) => l,
        };
        if self.tickets[k].is_used {
            return Err(Error::InvalidState);
        }
        let (token, creator, bps) = match &self.info {
            None => {
                return Err(Error::NotInitialized);
            },
            Some(info) => (info.payment_token, info.event_creator, info.creator_fee_bps),
        };
        let (fee, seller_amount) = split_sale(l.price, bps);
        let mut pays: Vec<Payment> = Vec::new();
        if fee > 0 {
            pays.push(Payment { asset: token, from: buyer, to: creator, amount: fee });
        }
        pays.push(Payment { asset: token, from: buyer, to: l.seller, amount: seller_amount });
        self.listings.set(k, None);
        proof {
            let v = self@;
            assert(v =~= old(self)@.with_listing(ticket_id, None));
            assert(pays@ =~= sale_payments(old(self)@.info->Some_0, buyer, l));
        }
        self.move_ticket(ticket_id, buyer);
        Ok(pays)
    }

    /// The event's name.
    pub fn name(&self) -> (r: Result<String, Error>)
        ensures
            r == match self@.info {
                None => Err(Error::NotInitialized),
                Some(i) => Ok(i.name),
            },
    {
        match &self.info {
            None => Err(Error::NotInitialized),
            Some(info) => Ok(info.name.clone()),
        }
    }

    /// The event's ticket symbol.
    pub fn symbol(&self) -> (r: Result<String, Error>)
        ensures
            r == match self@.info {
                None => Err(Error::NotInitialized),
                Some(i) => Ok(i.symbol),
            },
    {
        match &self.info {
            None => Err(Error::NotInitialized),
            Some(info) => Ok(info.symbol.clone()),
        }
    }

    pub fn get_ticket(&self, ticket_id: u32) -> (r: Result<TicketData, Error>)
        requires
            self@.wf(),
        ensures
            r == match self@.ticket(ticket_id) {
                None => Err(Error::NotFound),
                Some(t) => Ok(t),
            },
    {
        if ticket_id == 0 || ticket_id as usize > self.tickets.len() {
            return Err(Error::NotFound);
        }
        Ok(self.tickets[(ticket_id - 1) as usize])
    }

    pub fn get_event_info(&self) -> (r: Result<EventInfo, Error>)
        ensures
            r == match self@.info {
                None => Err(Error::NotInitialized),
                Some(i) => Ok(i),
            },
    {
        match &self.info {
            None => Err(Error::NotInitialized),
            Some(info) => Ok(info.clone()),
        }
    }

    /// The tickets that `user` holds, in the order obtained.
    pub fn get_user_tickets(&self, user: Address) -> (r: Vec<u32>)
        requires
            self@.wf(),
        ensures
            r@ == self@.user_tickets(user),
    {
        let mut out: Vec<u32> = Vec::new();
        let mut i: usize = 0;
        while i < self.acquired.len()
            invariant
                self@.wf(),
                i <= self@.acquired.len(),
                out@ == holdings(self@.acquired.subrange(0, i as int), self@.tickets, user),
            decreases self@.acquired.len() - i,
        {
            let id = self.acquired[i];
            proof {
                assert(self@.acquired.subrange(0, i + 1).drop_last() =~= self@.acquired.subrange(0, i as int));
                assert(1 <= self@.acquired[i as int] <= self@.tickets.len());
            }
            if self.tickets[(id - 1) as usize].owner == user {
                out.push(id);
            }
            i = i + 1;
        }
        proof {
            assert(self@.acquired.subrange(0, i as int) =~= self@.acquired);
        }
        out
    }

    pub fn get_secondary_listing(&self, ticket_id: u32) -> (r: Option<SecondaryListing>)
        requires
            self@.wf(),
        ensures
            r == self@.listing(ticket_id),
    {
        if ticket_id == 0 || ticket_id as usize > self.listings.len() {
            return None;
        }
        self.listings[(ticket_id - 1) as usize]
    }

    /// Every live resale offer, by ticket number.
    pub fn get_all_secondary_listings(&self) -> (r: Vec<SecondaryListing>)
        ensures
            r@ == live_listings(self@.listings),
    {
        let mut out: Vec<SecondaryListing> = Vec::new();
        let mut i: usize = 0;
        while i < self.listings.len()
            invariant
                i <= self@.listings.len(),
                out@ == live_listings(self@.listings.subrange(0, i as int)),
            decreases self@.listings.len() - i,
        {
            proof {
                assert(self@.listings.subrange(0, i + 1).drop_last() =~= self@.listings.subrange(0, i as int));
            }
            if let Some(l) = self.listings[i] {
                out.push(l);
            }
            i = i + 1;
        }
        proof {
            assert(self@.listings.subrange(0, i as int) =~= self@.listings);
        }
        out
    }

    pub fn get_tickets_minted(&self) -> (r: u32)
        requires
            self@.wf(),
        ensures
            r == self@.minted(),
    {
        self.tickets.len() as u32
    }

    /// How many tickets the primary market can still issue.
    pub fn get_tickets_available(&self) -> (r: Result<u32, Error>)
        requires
            self@.wf(),
        ensures
            r == match self@.info {
                None => Err(Error::NotInitialized),
                Some(i) => Ok((i.total_supply - self@.minted()) as u32),
            },
    {
        match &self.info {
            None => Err(Error::NotInitialized),
            Some(info) => Ok(info.total_supply - self.tickets.len() as u32),
        }
    }
}

} // verus!
