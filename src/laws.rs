use vstd::prelude::*;

use crate::factory::{EventRecord, FactoryView};
use crate::marketplace::{holdings, EventInfo, MarketView, TicketData};
use crate::types::{Address, Auth, Error};

verus! {

/// A number is among an owner's holdings exactly when it is in `acquired`
/// and names a ticket of that owner.
pub proof fn lemma_holdings_contains(acquired: Seq<u32>, tickets: Seq<TicketData>, owner: Address, id: u32)
    ensures
        holdings(acquired, tickets, owner).contains(id) <==> (acquired.contains(id) && 1 <= id
            <= tickets.len() && tickets[id - 1].owner == owner),
    decreases acquired.len(),
{
    if acquired.len() > 0 {
        let init = acquired.drop_last();
        lemma_holdings_contains(init, tickets, owner, id);
        let rest = holdings(init, tickets, owner);
        let last = acquired.last();
        if acquired.contains(id) && id != last {
            let i = choose|i: int| 0 <= i < acquired.len() && acquired[i] == id;
            assert(init[i] == id);
        }
        if init.contains(id) {
            let i = choose|i: int| 0 <= i < init.len() && init[i] == id;
            assert(acquired[i] == id);
        }
        if 1 <= last <= tickets.len() && tickets[last - 1].owner == owner {
            if rest.contains(id) {
                let i = choose|i: int| 0 <= i < rest.len() && rest[i] == id;
                assert(rest.push(last)[i] == id);
            }
            if id == last {
                assert(rest.push(last)[rest.len() as int] == id);
                assert(acquired[acquired.len() - 1] == id);
            }
            if rest.push(last).contains(id) && id != last {
                let i = choose|i: int| 0 <= i < rest.len() + 1 && rest.push(last)[i] == id;
                assert(rest[i] == id);
            }
        } else if id == last {
            assert(acquired[acquired.len() - 1] == id);
        }
    }
}

/// An owner's holdings repeat no ticket when `acquired` repeats none.
pub proof fn lemma_holdings_no_duplicates(acquired: Seq<u32>, tickets: Seq<TicketData>, owner: Address)
    requires
        acquired.no_duplicates(),
    ensures
        holdings(acquired, tickets, owner).no_duplicates(),
    decreases acquired.len(),
{
    if acquired.len() > 0 {
        let init = acquired.drop_last();
        let last = acquired.last();
        assert(init.no_duplicates());
        lemma_holdings_no_duplicates(init, tickets, owner);
        lemma_holdings_contains(init, tickets, owner, last);
        if init.contains(last) {
            let i = choose|i: int| 0 <= i < init.len() && init[i] == last;
            assert(acquired[i] == acquired[acquired.len() - 1]);
        }
    }
}

/// In a well-formed ticket program each ticket appears, once, among the
/// tickets of its holder, and among no one else's.
pub proof fn user_index_is_inverse_of_owner(s: MarketView, user: Address, id: u32)
    requires
        s.wf(),
    ensures
        s.user_tickets(user).contains(id) <==> (s.ticket(id) is Some && s.ticket(id)->Some_0.owner == user),
        s.user_tickets(user).no_duplicates(),
{
    lemma_holdings_contains(s.acquired, s.tickets, user, id);
    lemma_holdings_no_duplicates(s.acquired, s.tickets, user);
    if 1 <= id <= s.tickets.len() {
        assert(s.acquired.contains(id));
    }
}

/// Each successful issue adds exactly one ticket and never goes past the
/// supply; once the whole supply is issued, every further issue fails,
/// as sold out whenever the buyer has authorized it.
pub proof fn mint_counts_up_to_supply(s: MarketView, auth: &Auth, buyer: Address)
    requires
        s.wf(),
    ensures
        s.mint_error(auth, buyer) is None ==> {
            let s2 = s.after_mint(buyer);
            &&& s2.wf()
            &&& s2.minted() == s.minted() + 1
            &&& s2.minted() <= s.info->Some_0.total_supply
            &&& s2.info == s.info
        },
        s.info is Some && s.minted() == s.info->Some_0.total_supply ==> s.mint_error(auth, buyer) is Some,
        auth.authorizes(buyer) && s.info is Some && s.minted() == s.info->Some_0.total_supply
            ==> s.mint_error(auth, buyer) == Some(Error::SoldOut),
{
    if s.mint_error(auth, buyer) is None {
        s.lemma_after_mint_wf(buyer);
    }
}

/// A resale takes away the offer for the ticket sold and no other, hands
/// the ticket to the buyer, and keeps every holder's list of tickets the
/// exact inverse of ownership.
pub proof fn buy_removes_only_its_listing(s: MarketView, auth: &Auth, buyer: Address, id: u32)
    requires
        s.wf(),
        s.buy_error(auth, buyer, id) is None,
    ensures
        s.listing(id) is Some,
        s.after_buy(id, buyer).listing(id) is None,
        forall|k: u32| k != id ==> #[trigger] s.after_buy(id, buyer).listing(k) == s.listing(k),
        s.after_buy(id, buyer).ticket(id)->Some_0.owner == buyer,
        s.after_buy(id, buyer).wf(),
        forall|user: Address, t: u32| #[trigger] s.after_buy(id, buyer).user_tickets(user).contains(t)
            <==> (s.after_buy(id, buyer).ticket(t) is Some && s.after_buy(id, buyer).ticket(t)->Some_0.owner == user),
{
    let s1 = s.with_listing(id, None);
    let s2 = s.after_buy(id, buyer);
    assert(s1.wf());
    s1.lemma_after_move_wf(id, buyer);
    assert forall|user: Address, t: u32| #[trigger] s2.user_tickets(user).contains(t)
        <==> (s2.ticket(t) is Some && s2.ticket(t)->Some_0.owner == user) by {
        user_index_is_inverse_of_owner(s2, user, t);
    }
}

/// Checking a ticket in a second time fails, with `InvalidState` whenever
/// the creator has authorized it; after the first, no offer for the ticket
/// is left.
pub proof fn mark_used_twice_fails(s: MarketView, auth: &Auth, creator: Address, id: u32, again: &Auth)
    requires
        s.wf(),
        s.mark_used_error(auth, creator, id) is None,
    ensures
        s.after_mark_used(id).wf(),
        s.after_mark_used(id).listing(id) is None,
        s.after_mark_used(id).mark_used_error(again, creator, id) is Some,
        again.authorizes(creator) ==> s.after_mark_used(id).mark_used_error(again, creator, id) == Some(
            Error::InvalidState,
        ),
{
    s.lemma_after_mark_used_wf(id);
}

/// A ticket on offer cannot be handed over: the attempt fails, with
/// `InvalidState` whenever its holder has authorized it; once the offer is
/// withdrawn, the holder can hand the ticket over.
pub proof fn listed_ticket_not_transferable(s: MarketView, auth: &Auth, from: Address, id: u32)
    requires
        s.wf(),
        s.listing(id) is Some,
        s.ticket(id) is Some,
        s.ticket(id)->Some_0.owner == from,
    ensures
        s.transfer_error(auth, from, id) is Some,
        auth.authorizes(from) ==> s.transfer_error(auth, from, id) == Some(Error::InvalidState),
        s.delist_error(auth, from, id) is None ==> s.with_listing(id, None).transfer_error(auth, from, id) is None,
{
    assert(!s.tickets[id - 1].is_used);
}

/// A ticket program is set up once: after a successful set-up, any other
/// fails with `AlreadyInitialized`.
pub proof fn init_only_once(
    s: MarketView,
    info: EventInfo,
    total_supply: u32,
    primary_price: i128,
    creator_fee_bps: u32,
)
    requires
        s.init_error(info.total_supply, info.primary_price, info.creator_fee_bps) is None,
    ensures
        s.after_init(info).init_error(total_supply, primary_price, creator_fee_bps) == Some(Error::AlreadyInitialized),
{
}

/// Once an event is recorded at an address, creating another event there
/// fails, with `AlreadyInitialized` whenever its creator has authorized it
/// and the registry is set up: one address never holds two programs.
pub proof fn address_used_once(
    f: FactoryView,
    record: EventRecord,
    auth: &Auth,
    creator: Address,
    total_supply: u32,
    primary_price: i128,
    creator_fee_bps: u32,
)
    requires
        f.wf(),
    ensures
        f.after_create(record).address_taken(record.event_contract),
        ({
            let g = f.after_create(record);
            &&& g.create_error(auth, record.event_contract, creator, total_supply, primary_price, creator_fee_bps) is Some
            &&& auth.authorizes(creator) && g.wasm_hash is Some ==> g.create_error(
                auth,
                record.event_contract,
                creator,
                total_supply,
                primary_price,
                creator_fee_bps,
            ) == Some(Error::AlreadyInitialized)
        }),
{
    let g = f.after_create(record);
    assert(g.events[f.events.len() as int].event_contract == record.event_contract);
}

} // verus!
