use vstd::prelude::*;

use crate::marketplace::{valid_params, EventInfo, MarketView, TicketMarketplace};
use crate::types::{Address, Auth, Error};

verus! {

/// What the registry keeps of one event it created.
#[derive(Debug)]
pub struct EventRecord {
    pub event_contract: Address,
    pub event_creator: Address,
    pub name: String,
    pub symbol: String,
    pub created_at: u64,
}

impl Clone for EventRecord {
    fn clone(&self) -> (r: Self)
        ensures
            r == *self,
    {
        EventRecord {
            event_contract: self.event_contract,
            event_creator: self.event_creator,
            name: self.name.clone(),
            symbol: self.symbol.clone(),
            created_at: self.created_at,
        }
    }
}

/// The registry: it sets up one ticket program per event and keeps the
/// events findable. Event `n` is the `n`-th created.
#[derive(Debug)]
pub struct TicketFactory {
    wasm_hash: Option<[u8; 32]>,
    events: Vec<EventRecord>,
}

/// The abstract state of the registry.
pub struct FactoryView {
    pub wasm_hash: Option<[u8; 32]>,
    pub events: Seq<EventRecord>,
}

impl View for TicketFactory {
    type V = FactoryView;

    closed spec fn view(&self) -> FactoryView {
        FactoryView { wasm_hash: self.wasm_hash, events: self.events@ }
    }
}

/// The records in `events` whose creator is `creator`, in order.
pub open spec fn events_of(events: Seq<EventRecord>, creator: Address) -> Seq<EventRecord>
    decreases events.len(),
{
    if events.len() == 0 {
        Seq::empty()
    } else {
        let rest = events_of(events.drop_last(), creator);
        if events.last().event_creator == creator {
            rest.push(events.last())
        } else {
            rest
        }
    }
}

impl FactoryView {
    pub open spec fn wf(self) -> bool {
        &&& self.events.len() <= u32::MAX
        &&& self.wasm_hash is None ==> self.events.len() == 0
    }

    /// The state after `record` is added as the newest event.
    pub open spec fn after_create(self, record: EventRecord) -> FactoryView {
        FactoryView { events: self.events.push(record), ..self }
    }

    /// Whether some recorded event already stands at `addr`.
    pub open spec fn address_taken(self, addr: Address) -> bool {
        exists|i: int| 0 <= i < self.events.len() && #[trigger] self.events[i].event_contract == addr
    }

    pub open spec fn event(self, id: u32) -> Option<EventRecord> {
        if 1 <= id <= self.events.len() {
            Some(self.events[id - 1])
        } else {
            None
        }
    }

    pub open spec fn create_error(
        self,
        auth: &Auth,
        event_contract: Address,
        creator: Address,
        total_supply: u32,
        primary_price: i128,
        creator_fee_bps: u32,
    ) -> Option<Error> {
        if !auth.authorizes(creator) {
            Some(Error::Unauthorized)
        } else if self.wasm_hash is None {
            Some(Error::NotInitialized)
        } else if self.address_taken(event_contract) {
            Some(Error::AlreadyInitialized)
        } else if !valid_params(total_supply, primary_price, creator_fee_bps) {
            Some(Error::InvalidArgument)
        } else {
            None
        }
    }
}

impl Clone for TicketFactory {
    /// A copy of the whole state, which a host keeps to restore when a
    /// step of creating an event fails.
    fn clone(&self) -> (r: Self)
        ensures
            r@ == self@,
    {
        let mut events: Vec<EventRecord> = Vec::new();
        let mut i: usize = 0;
        while i < self.events.len()
            invariant
                i <= self@.events.len(),
                events@ == self@.events.subrange(0, i as int),
            decreases self@.events.len() - i,
        {
            events.push(self.events[i].clone());
            proof {
                assert(events@ =~= self@.events.subrange(0, i + 1));
            }
            i = i + 1;
        }
        proof {
            assert(self@.events.subrange(0, i as int) =~= self@.events);
        }
        TicketFactory { wasm_hash: self.wasm_hash, events }
    }
}

impl TicketFactory {
    /// A registry that has not been set up.
    pub fn new() -> (r: TicketFactory)
        ensures
            r@.wasm_hash is None,
            r@.events.len() == 0,
            r@.wf(),
    {
        TicketFactory { wasm_hash: None, events: Vec::new() }
    }

    /// Sets up the registry once with the reference of the ticket program
    /// it deploys.
    pub fn initialize(&mut self, wasm_hash: [u8; 32]) -> (r: Result<(), Error>)
        requires
            old(self)@.wf(),
        ensures
            final(self)@.wf(),
            final(self)@.events == old(self)@.events,
            match r {
                Err(e) => e == Error::AlreadyInitialized && old(self)@.wasm_hash is Some
                    && final(self)@ == old(self)@,
                Ok(()) => old(self)@.wasm_hash is None && final(self)@.wasm_hash == Some(wasm_hash)
                    && final(self)@.events.len() == 0,
            },
    {
        if self.wasm_hash.is_some() {
            return Err(Error::AlreadyInitialized);
        }
        self.wasm_hash = Some(wasm_hash);
        Ok(())
    }

    /// Creates an event: sets up a ticket program for it, which the host
    /// places at `event_contract`, the address it derived for the program,
    /// and records the event under the next number with the time
    /// `created_at`. An address already recorded is refused: one derivation
    /// never yields two programs. If the program cannot be set up, nothing
    /// is recorded.
    pub fn create_event(
        &mut self,
        auth: &Auth,
        event_contract: Address,
        created_at: u64,
        event_creator: Address,
        total_supply: u32,
        primary_price: i128,
        creator_fee_bps: u32,
        event_metadata: String,
        name: String,
        symbol: String,
        payment_token: Address,
    ) -> (r: Result<(Address, TicketMarketplace), Error>)
        requires
            old(self)@.wf(),
            old(self)@.events.len() < u32::MAX,
        ensures
            final(self)@.wf(),
            match r {
                Err(e) => old(self)@.create_error(auth, event_contract, event_creator, total_supply, primary_price, creator_fee_bps)
                    == Some(e) && final(self)@ == old(self)@,
                Ok((addr, program)) => old(self)@.create_error(
                    auth,
                    event_contract,
                    event_creator,
                    total_supply,
                    primary_price,
                    creator_fee_bps,
                ) is None && addr == event_contract
                    && program@ == MarketView::fresh((EventInfo {
                        event_creator,
                        total_supply,
                        primary_price,
                        creator_fee_bps,
                        event_metadata,
                        payment_token,
                        name,
                        symbol,
                    }))
                    && program@.wf()
                    && final(self)@ == old(self)@.after_create((EventRecord {
                        event_contract,
                        event_creator,
                        name,
                        symbol,
                        created_at,
                    })),
            },
    {
        if !auth.allows(event_creator) {
            return Err(Error::Unauthorized);
        }
        if self.wasm_hash.is_none() {
            return Err(Error::NotInitialized);
        }
        let mut i: usize = 0;
        while i < self.events.len()
            invariant
                self@ == old(self)@,
                old(self)@.wf(),
                old(self)@.wasm_hash is Some,
                auth.authorizes(event_creator),
                i <= self@.events.len(),
                forall|k: int| 0 <= k < i ==> #[trigger] self@.events[k].event_contract != event_contract,
            decreases self@.events.len() - i,
        {
            if self.events[i].event_contract == event_contract {
                proof {
                    assert(self@.events[i as int].event_contract == event_contract);
                }
                return Err(Error::AlreadyInitialized);
            }
            i = i + 1;
        }
        let record = EventRecord {
            event_contract,
            event_creator,
            name: name.clone(),
            symbol: symbol.clone(),
            created_at,
        };
        let mut program = TicketMarketplace::new();
        let set_up = program.init(
            event_creator,
            total_supply,
            primary_price,
            creator_fee_bps,
            event_metadata,
            name,
            symbol,
            payment_token,
        );
        match set_up {
            Err(e) => {
                return Err(e);
            },
            Ok(()) => {},
        }
        self.events.push(record);
        proof {
            let f = MarketView::fresh(program@.info->Some_0);
            assert(program@.tickets =~= f.tickets);
            assert(program@.listings =~= f.listings);
            assert(program@.acquired =~= f.acquired);
        }
        Ok((event_contract, program))
    }

    pub fn get_event(&self, event_id: u32) -> (r: Result<EventRecord, Error>)
        ensures
            r == match self@.event(event_id) {
                None => Err(Error::NotFound),
                Some(e) => Ok(e),
            },
    {
        if event_id == 0 || event_id as usize > self.events.len() {
            return Err(Error::NotFound);
        }
        Ok(self.events[(event_id - 1) as usize].clone())
    }

    /// The events of `creator`, in the order created.
    pub fn get_creator_events(&self, creator: Address) -> (r: Vec<EventRecord>)
        ensures
            r@ == events_of(self@.events, creator),
    {
        let mut out: Vec<EventRecord> = Vec::new();
        let mut i: usize = 0;
        while i < self.events.len()
            invariant
                i <= self@.events.len(),
                out@ == events_of(self@.events.subrange(0, i as int), creator),
            decreases self@.events.len() - i,
        {
            proof {
                assert(self@.events.subrange(0, i + 1).drop_last() =~= self@.events.subrange(0, i as int));
            }
            if self.events[i].event_creator == creator {
                out.push(self.events[i].clone());
            }
            i = i + 1;
        }
        proof {
            assert(self@.events.subrange(0, i as int) =~= self@.events);
        }
        out
    }

    /// Every event, in the order created.
    pub fn get_all_events(&self) -> (r: Vec<EventRecord>)
        ensures
            r@ == self@.events,
    {
        let mut out: Vec<EventRecord> = Vec::new();
        let mut i: usize = 0;
        while i < self.events.len()
            invariant
                i <= self@.events.len(),
                out@ == self@.events.subrange(0, i as int),
            decreases self@.events.len() - i,
        {
            out.push(self.events[i].clone());
            proof {
                assert(out@ =~= self@.events.subrange(0, i + 1));
            }
            i = i + 1;
        }
        proof {
            assert(self@.events.subrange(0, i as int) =~= self@.events);
        }
        out
    }

    pub fn get_event_count(&self) -> (r: u32)
        requires
            self@.wf(),
        ensures
            r == self@.events.len(),
    {
        self.events.len() as u32
    }

    /// The reference of the ticket program that the registry deploys.
    pub fn get_wasm_hash(&self) -> (r: Result<[u8; 32], Error>)
        ensures
            r == match self@.wasm_hash {
                None => Err(Error::NotInitialized),
                Some(h) => Ok(h),
            },
    {
        match self.wasm_hash {
            None => Err(Error::NotInitialized),
            Some(h) => Ok(h),
        }
    }
}

} // verus!
