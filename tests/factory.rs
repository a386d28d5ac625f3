use event_tickets::factory::TicketFactory;
use event_tickets::types::{Address, Auth, Error};

fn hash() -> [u8; 32] {
    [7u8; 32]
}

fn create(
    f: &mut TicketFactory,
    at: u64,
    contract: u64,
    creator: Address,
    name: &str,
) -> Result<(Address, event_tickets::marketplace::TicketMarketplace), Error> {
    f.create_event(
        &Auth::All,
        Address::new(contract),
        at,
        creator,
        100,
        10_000_000,
        250,
        "meta".to_string(),
        name.to_string(),
        "SYM".to_string(),
        Address::new(900),
    )
}

#[test]
fn factory_initialize_once() {
    let mut f = TicketFactory::new();
    assert_eq!(f.get_wasm_hash().unwrap_err(), Error::NotInitialized);
    f.initialize(hash()).unwrap();
    assert_eq!(f.initialize([1u8; 32]).unwrap_err(), Error::AlreadyInitialized);
    assert_eq!(f.get_wasm_hash().unwrap(), hash());
    assert_eq!(f.get_event_count(), 0);
}

#[test]
fn create_event_before_initialize() {
    let mut f = TicketFactory::new();
    let r = create(&mut f, 10, 500, Address::new(1), "A");
    assert_eq!(r.unwrap_err(), Error::NotInitialized);
    assert_eq!(f.get_event_count(), 0);
}

#[test]
fn create_event_records_and_sets_up_program() {
    let mut f = TicketFactory::new();
    f.initialize(hash()).unwrap();
    let creator = Address::new(1);
    let (addr, program) = create(&mut f, 42, 500, creator, "Concert").unwrap();
    assert_eq!(addr, Address::new(500));
    let info = program.get_event_info().unwrap();
    assert_eq!(info.event_creator, creator);
    assert_eq!(info.total_supply, 100);
    assert_eq!(info.primary_price, 10_000_000);
    assert_eq!(info.creator_fee_bps, 250);
    assert_eq!(info.payment_token, Address::new(900));
    assert_eq!(program.name().unwrap(), "Concert");
    assert_eq!(program.get_tickets_minted(), 0);
    assert_eq!(f.get_event_count(), 1);
    let rec = f.get_event(1).unwrap();
    assert_eq!(rec.event_contract, addr);
    assert_eq!(rec.event_creator, creator);
    assert_eq!(rec.name, "Concert");
    assert_eq!(rec.symbol, "SYM");
    assert_eq!(rec.created_at, 42);
    assert_eq!(f.get_event(2).unwrap_err(), Error::NotFound);
    assert_eq!(f.get_event(0).unwrap_err(), Error::NotFound);
}

#[test]
fn create_event_with_bad_parameters_records_nothing() {
    let mut f = TicketFactory::new();
    f.initialize(hash()).unwrap();
    let r = f.create_event(
        &Auth::All,
        Address::new(500),
        1,
        Address::new(1),
        0,
        10,
        0,
        String::new(),
        String::new(),
        String::new(),
        Address::new(900),
    );
    assert_eq!(r.unwrap_err(), Error::InvalidArgument);
    assert_eq!(f.get_event_count(), 0);
    assert!(f.get_all_events().is_empty());
}

#[test]
fn create_event_needs_creator_authorization() {
    let mut f = TicketFactory::new();
    f.initialize(hash()).unwrap();
    let r = f.create_event(
        &Auth::Signers(vec![Address::new(2)]),
        Address::new(500),
        1,
        Address::new(1),
        10,
        10,
        0,
        String::new(),
        String::new(),
        String::new(),
        Address::new(900),
    );
    assert_eq!(r.unwrap_err(), Error::Unauthorized);
    assert_eq!(f.get_event_count(), 0);
}

#[test]
fn creator_and_global_indices() {
    let mut f = TicketFactory::new();
    f.initialize(hash()).unwrap();
    let alice = Address::new(1);
    let bob = Address::new(2);
    create(&mut f, 1, 501, alice, "A1").unwrap();
    create(&mut f, 2, 502, bob, "B1").unwrap();
    create(&mut f, 3, 503, alice, "A2").unwrap();
    assert_eq!(f.get_event_count(), 3);
    let all: Vec<String> = f.get_all_events().into_iter().map(|e| e.name).collect();
    assert_eq!(all, vec!["A1", "B1", "A2"]);
    let of_alice: Vec<Address> = f.get_creator_events(alice).into_iter().map(|e| e.event_contract).collect();
    assert_eq!(of_alice, vec![Address::new(501), Address::new(503)]);
    assert_eq!(f.get_creator_events(bob).len(), 1);
    assert!(f.get_creator_events(Address::new(3)).is_empty());
}

#[test]
fn create_event_refuses_a_recorded_address() {
    let mut f = TicketFactory::new();
    f.initialize(hash()).unwrap();
    let alice = Address::new(1);
    create(&mut f, 1, 501, alice, "A1").unwrap();
    let again = create(&mut f, 2, 501, Address::new(2), "B1");
    assert_eq!(again.unwrap_err(), Error::AlreadyInitialized);
    assert_eq!(f.get_event_count(), 1);
    assert_eq!(f.get_event(1).unwrap().name, "A1");
    create(&mut f, 3, 502, alice, "A2").unwrap();
    assert_eq!(f.get_event_count(), 2);
}

#[test]
fn registry_snapshot_restores_state() {
    let mut f = TicketFactory::new();
    f.initialize(hash()).unwrap();
    create(&mut f, 1, 501, Address::new(1), "A1").unwrap();
    let snapshot = f.clone();
    create(&mut f, 2, 502, Address::new(1), "A2").unwrap();
    assert_eq!(f.get_event_count(), 2);
    f = snapshot;
    assert_eq!(f.get_event_count(), 1);
    assert_eq!(f.get_creator_events(Address::new(1)).len(), 1);
    assert_eq!(f.get_wasm_hash().unwrap(), hash());
}
