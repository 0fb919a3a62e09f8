use anchor_lang::solana_program::hash::hash;
use anchor_lang::solana_program::pubkey::Pubkey;
use hello_solana::adder::{add, Add};
use hello_solana::counter::{self, counter_seed_bytes, Counter, Increment, COUNTER_DISCRIMINATOR};
use hello_solana::derivation::derive_address;
use hello_solana::emit_log::{self, MyEvent, MySecondEvent};
use hello_solana::error::ProgramError;
use hello_solana::favorites::{
    favorites_seed_bytes, set_favorites, Favorites, SetFavorites, FAVORITES_DISCRIMINATOR,
};
use hello_solana::identity::Identity;
use hello_solana::lifecycle::{obtain_or_create, AccountRef, Freshness};
use hello_solana::store_number::{self, DataStore, DATA_STORE_DISCRIMINATOR};

const START_BALANCE: u64 = 10_000_000_000;

fn program() -> Identity {
    Identity::new([7u8; 32])
}

fn wallet(seed: u8) -> AccountRef {
    AccountRef {
        key: Identity::new([seed; 32]),
        owner: Identity::system_program(),
        lamports: START_BALANCE,
        data: Vec::new(),
        is_signer: true,
        is_writable: true,
    }
}

fn empty_at(key: Identity) -> AccountRef {
    AccountRef {
        key,
        owner: Identity::system_program(),
        lamports: 0,
        data: Vec::new(),
        is_signer: false,
        is_writable: true,
    }
}

fn counter_ctx(seed: u8) -> Increment {
    let user = wallet(seed);
    let (address, _) = derive_address(&counter_seed_bytes(), &user.key, &program()).unwrap();
    Increment { user, counter: empty_at(address) }
}

fn favorites_ctx(seed: u8) -> SetFavorites {
    let user = wallet(seed);
    let (address, _) = derive_address(&favorites_seed_bytes(), &user.key, &program()).unwrap();
    SetFavorites { user, favorites: empty_at(address) }
}

fn stored_count(ctx: &Increment) -> u64 {
    Counter::decode(&ctx.counter.data).unwrap().count
}

fn anchor_tag(name: &str) -> u64 {
    let digest = hash(name.as_bytes()).to_bytes();
    let mut first = [0u8; 8];
    first.copy_from_slice(&digest[..8]);
    u64::from_le_bytes(first)
}

#[test]
fn discriminators_follow_the_anchor_convention() {
    assert_eq!(COUNTER_DISCRIMINATOR, anchor_tag("account:Counter"));
    assert_eq!(FAVORITES_DISCRIMINATOR, anchor_tag("account:Favorites"));
    assert_eq!(DATA_STORE_DISCRIMINATOR, anchor_tag("account:DataStore"));
    assert_eq!(emit_log::MY_EVENT_DISCRIMINATOR, anchor_tag("event:MyEvent"));
    assert_eq!(emit_log::MY_SECOND_EVENT_DISCRIMINATOR, anchor_tag("event:MySecondEvent"));
}

#[test]
fn seeds_are_the_namespace_names() {
    assert_eq!(counter_seed_bytes(), b"counter".to_vec());
    assert_eq!(favorites_seed_bytes(), b"favorites".to_vec());
}

#[test]
fn derivation_matches_find_program_address() {
    let owner = Identity::new([3u8; 32]);
    let (address, nonce) = derive_address(b"counter", &owner, &program()).unwrap();
    let (expected, expected_nonce) = Pubkey::find_program_address(
        &[b"counter", &[3u8; 32]],
        &Pubkey::new_from_array([7u8; 32]),
    );
    assert_eq!(address.bytes, expected.to_bytes());
    assert_eq!(nonce, expected_nonce);
    assert_ne!(address.bytes, owner.bytes);
    assert!(!expected.is_on_curve());
}

#[test]
fn derivation_is_deterministic() {
    let owner = Identity::new([9u8; 32]);
    let first = derive_address(b"favorites", &owner, &program()).unwrap();
    let second = derive_address(b"favorites", &owner, &program()).unwrap();
    assert_eq!(first.0.bytes, second.0.bytes);
    assert_eq!(first.1, second.1);
}

#[test]
fn distinct_owners_get_distinct_addresses() {
    let mut seen: Vec<[u8; 32]> = Vec::new();
    for seed in 0u8..40 {
        let mut bytes = [seed; 32];
        bytes[31] = seed.wrapping_mul(37);
        let (address, _) = derive_address(b"counter", &Identity::new(bytes), &program()).unwrap();
        assert!(!seen.contains(&address.bytes));
        seen.push(address.bytes);
    }
}

#[test]
fn namespace_tags_separate_addresses() {
    let owner = Identity::new([4u8; 32]);
    let (a, _) = derive_address(b"counter", &owner, &program()).unwrap();
    let (b, _) = derive_address(b"favorites", &owner, &program()).unwrap();
    assert_ne!(a.bytes, b.bytes);
}

#[test]
fn overlong_seed_fails_derivation() {
    let owner = Identity::new([4u8; 32]);
    let tag = [1u8; 33];
    assert_eq!(
        derive_address(&tag, &owner, &program()).err(),
        Some(ProgramError::DerivationFailure)
    );
}

#[test]
fn counter_scenario() {
    let mut one = counter_ctx(1);
    counter::initialize(&program(), &mut one).unwrap();
    assert_eq!(stored_count(&one), 0);
    for _ in 0..3 {
        counter::increment(&program(), &mut one).unwrap();
    }
    assert_eq!(stored_count(&one), 3);
    let mut two = counter_ctx(2);
    assert_ne!(one.counter.key.bytes, two.counter.key.bytes);
    counter::initialize(&program(), &mut two).unwrap();
    assert_eq!(stored_count(&two), 0);
    assert_eq!(stored_count(&one), 3);
}

#[test]
fn initialize_twice_charges_once_and_keeps_fields() {
    let mut ctx = counter_ctx(1);
    counter::initialize(&program(), &mut ctx).unwrap();
    let charge = (128 + 16) * 6960;
    assert_eq!(ctx.user.lamports, START_BALANCE - charge);
    assert_eq!(ctx.counter.lamports, charge);
    assert_eq!(ctx.counter.data.len(), 16);
    assert_eq!(ctx.counter.owner.bytes, program().bytes);
    counter::increment(&program(), &mut ctx).unwrap();
    let data = ctx.counter.data.clone();
    counter::initialize(&program(), &mut ctx).unwrap();
    assert_eq!(ctx.user.lamports, START_BALANCE - charge);
    assert_eq!(ctx.counter.lamports, charge);
    assert_eq!(ctx.counter.data, data);
    assert_eq!(stored_count(&ctx), 1);
}

#[test]
fn increment_creates_a_missing_counter() {
    let mut ctx = counter_ctx(5);
    counter::increment(&program(), &mut ctx).unwrap();
    assert_eq!(stored_count(&ctx), 1);
}

#[test]
fn increment_without_signature_is_unauthorized() {
    let mut ctx = counter_ctx(1);
    counter::initialize(&program(), &mut ctx).unwrap();
    let data = ctx.counter.data.clone();
    let lamports = ctx.user.lamports;
    ctx.user.is_signer = false;
    assert_eq!(counter::increment(&program(), &mut ctx), Err(ProgramError::Unauthorized));
    assert_eq!(ctx.counter.data, data);
    assert_eq!(ctx.user.lamports, lamports);
}

#[test]
fn initialize_without_signature_allocates_nothing() {
    let mut ctx = counter_ctx(1);
    ctx.user.is_signer = false;
    assert_eq!(counter::initialize(&program(), &mut ctx), Err(ProgramError::Unauthorized));
    assert!(ctx.counter.data.is_empty());
    assert_eq!(ctx.user.lamports, START_BALANCE);
}

#[test]
fn increment_at_the_largest_count_overflows() {
    let mut ctx = counter_ctx(1);
    counter::initialize(&program(), &mut ctx).unwrap();
    ctx.counter.data = Counter { count: u64::MAX }.encode();
    let data = ctx.counter.data.clone();
    assert_eq!(
        counter::increment(&program(), &mut ctx),
        Err(ProgramError::ArithmeticOverflow)
    );
    assert_eq!(ctx.counter.data, data);
}

#[test]
fn wrong_record_address_is_rejected() {
    let mut ctx = counter_ctx(1);
    ctx.counter = empty_at(Identity::new([8u8; 32]));
    assert_eq!(counter::initialize(&program(), &mut ctx), Err(ProgramError::Unauthorized));
    assert!(ctx.counter.data.is_empty());
    assert_eq!(ctx.user.lamports, START_BALANCE);
}

#[test]
fn read_only_record_is_rejected() {
    let mut ctx = counter_ctx(1);
    ctx.counter.is_writable = false;
    assert_eq!(counter::initialize(&program(), &mut ctx), Err(ProgramError::NotWritable));
}

#[test]
fn poor_payer_is_rejected() {
    let mut ctx = counter_ctx(1);
    ctx.user.lamports = 1000;
    assert_eq!(
        counter::initialize(&program(), &mut ctx),
        Err(ProgramError::InsufficientPayerBalance)
    );
    assert_eq!(ctx.user.lamports, 1000);
    assert!(ctx.counter.data.is_empty());
}

#[test]
fn prefunded_record_is_charged_the_difference() {
    let mut ctx = counter_ctx(1);
    ctx.counter.lamports = 2_000;
    counter::initialize(&program(), &mut ctx).unwrap();
    let minimum = (128 + 16) * 6960;
    assert_eq!(ctx.counter.lamports, minimum);
    assert_eq!(ctx.user.lamports, START_BALANCE - (minimum - 2_000));
}

#[test]
fn foreign_record_is_a_schema_mismatch() {
    let mut ctx = counter_ctx(1);
    ctx.counter.owner = Identity::new([6u8; 32]);
    ctx.counter.data = Counter { count: 4 }.encode();
    assert_eq!(counter::initialize(&program(), &mut ctx), Err(ProgramError::SchemaMismatch));
}

#[test]
fn differently_typed_record_is_a_schema_mismatch() {
    let mut ctx = counter_ctx(1);
    ctx.counter.owner = program();
    ctx.counter.data = DataStore { data: 4 }.encode();
    let data = ctx.counter.data.clone();
    assert_eq!(counter::increment(&program(), &mut ctx), Err(ProgramError::SchemaMismatch));
    assert_eq!(ctx.counter.data, data);
}

#[test]
fn system_owned_account_with_data_is_in_use() {
    let mut ctx = counter_ctx(1);
    ctx.counter.data = vec![0u8; 16];
    assert_eq!(counter::initialize(&program(), &mut ctx), Err(ProgramError::AccountInUse));
}

#[test]
fn favorites_scenario() {
    let mut ctx = favorites_ctx(1);
    set_favorites(&program(), &mut ctx, 7, "blue".to_string()).unwrap();
    let stored = Favorites::decode(&ctx.favorites.data).unwrap();
    assert_eq!(stored.number, 7);
    assert_eq!(stored.color, "blue");
    let lamports = ctx.user.lamports;
    let space = ctx.favorites.data.len();
    set_favorites(&program(), &mut ctx, 9, "red".to_string()).unwrap();
    let stored = Favorites::decode(&ctx.favorites.data).unwrap();
    assert_eq!(stored.number, 9);
    assert_eq!(stored.color, "red");
    assert_eq!(ctx.user.lamports, lamports);
    assert_eq!(ctx.favorites.data.len(), space);
    assert_eq!(space, 70);
}

#[test]
fn overlong_color_is_rejected() {
    let mut ctx = favorites_ctx(1);
    set_favorites(&program(), &mut ctx, 7, "blue".to_string()).unwrap();
    let data = ctx.favorites.data.clone();
    let color = "x".repeat(51);
    assert_eq!(
        set_favorites(&program(), &mut ctx, 8, color),
        Err(ProgramError::LengthOverflow)
    );
    assert_eq!(ctx.favorites.data, data);
}

#[test]
fn color_of_the_largest_length_is_accepted() {
    let mut ctx = favorites_ctx(1);
    let color = "y".repeat(50);
    set_favorites(&program(), &mut ctx, 1, color.clone()).unwrap();
    assert_eq!(Favorites::decode(&ctx.favorites.data).unwrap().color, color);
}

#[test]
fn multibyte_color_counts_bytes() {
    let color = "é".repeat(26);
    let record = Favorites { number: 1, color };
    assert_eq!(record.encode(), Err(ProgramError::LengthOverflow));
    let record = Favorites { number: 1, color: "é".repeat(25) };
    let bytes = record.encode().unwrap();
    assert_eq!(Favorites::decode(&bytes).unwrap().color, "é".repeat(25));
}

#[test]
fn favorites_without_signature_are_unauthorized() {
    let mut ctx = favorites_ctx(1);
    set_favorites(&program(), &mut ctx, 7, "blue".to_string()).unwrap();
    let data = ctx.favorites.data.clone();
    ctx.user.is_signer = false;
    assert_eq!(
        set_favorites(&program(), &mut ctx, 9, "red".to_string()),
        Err(ProgramError::Unauthorized)
    );
    assert_eq!(ctx.favorites.data, data);
}

#[test]
fn favorites_layout() {
    let bytes = Favorites { number: 0x0102, color: "ab".to_string() }.encode().unwrap();
    let mut expected = FAVORITES_DISCRIMINATOR.to_le_bytes().to_vec();
    expected.extend_from_slice(&0x0102u64.to_le_bytes());
    expected.extend_from_slice(&2u32.to_le_bytes());
    expected.extend_from_slice(b"ab");
    assert_eq!(bytes, expected);
}

#[test]
fn counter_layout() {
    let bytes = Counter { count: 0x0a0b0c }.encode();
    let mut expected = COUNTER_DISCRIMINATOR.to_le_bytes().to_vec();
    expected.extend_from_slice(&0x0a0b0cu64.to_le_bytes());
    assert_eq!(bytes, expected);
    assert_eq!(Counter::decode(&bytes), Ok(Counter { count: 0x0a0b0c }));
}

#[test]
fn schemas_do_not_read_each_other() {
    let counter_bytes = Counter { count: 3 }.encode();
    let favorites_bytes = Favorites { number: 3, color: "blue".to_string() }.encode().unwrap();
    let store_bytes = DataStore { data: 3 }.encode();
    assert_eq!(
        Favorites::decode(&counter_bytes).err(),
        Some(ProgramError::DiscriminatorMismatch)
    );
    assert_eq!(DataStore::decode(&counter_bytes), Err(ProgramError::DiscriminatorMismatch));
    assert_eq!(Counter::decode(&favorites_bytes), Err(ProgramError::DiscriminatorMismatch));
    assert_eq!(DataStore::decode(&favorites_bytes), Err(ProgramError::DiscriminatorMismatch));
    assert_eq!(Counter::decode(&store_bytes), Err(ProgramError::DiscriminatorMismatch));
    assert_eq!(
        Favorites::decode(&store_bytes).err(),
        Some(ProgramError::DiscriminatorMismatch)
    );
}

#[test]
fn short_buffers_are_rejected() {
    assert_eq!(Counter::decode(&[1, 2, 3]), Err(ProgramError::DiscriminatorMismatch));
    let bytes = COUNTER_DISCRIMINATOR.to_le_bytes();
    assert_eq!(Counter::decode(&bytes), Err(ProgramError::BufferTooShort));
}

#[test]
fn oversized_length_prefix_is_rejected() {
    let mut bytes = FAVORITES_DISCRIMINATOR.to_le_bytes().to_vec();
    bytes.extend_from_slice(&5u64.to_le_bytes());
    bytes.extend_from_slice(&51u32.to_le_bytes());
    bytes.extend_from_slice(&[b'a'; 51]);
    assert_eq!(Favorites::decode(&bytes).err(), Some(ProgramError::LengthOverflow));
    let mut short = FAVORITES_DISCRIMINATOR.to_le_bytes().to_vec();
    short.extend_from_slice(&5u64.to_le_bytes());
    short.extend_from_slice(&10u32.to_le_bytes());
    short.extend_from_slice(b"abc");
    assert_eq!(Favorites::decode(&short).err(), Some(ProgramError::LengthOverflow));
}

#[test]
fn malformed_text_is_rejected() {
    let mut bytes = FAVORITES_DISCRIMINATOR.to_le_bytes().to_vec();
    bytes.extend_from_slice(&5u64.to_le_bytes());
    bytes.extend_from_slice(&2u32.to_le_bytes());
    bytes.extend_from_slice(&[0xff, 0xfe]);
    assert_eq!(Favorites::decode(&bytes).err(), Some(ProgramError::InvalidText));
}

#[test]
fn store_number_creates_once() {
    let mut ctx = store_number::Initialize {
        new_account: AccountRef { is_signer: true, ..empty_at(Identity::new([11u8; 32])) },
        signer: wallet(1),
    };
    store_number::initialize(&program(), &mut ctx, 42).unwrap();
    assert_eq!(DataStore::decode(&ctx.new_account.data), Ok(DataStore { data: 42 }));
    assert_eq!(ctx.signer.lamports, START_BALANCE - (128 + 16) * 6960);
    let data = ctx.new_account.data.clone();
    assert_eq!(
        store_number::initialize(&program(), &mut ctx, 43),
        Err(ProgramError::AccountInUse)
    );
    assert_eq!(ctx.new_account.data, data);
}

#[test]
fn store_number_needs_the_new_account_signature() {
    let mut ctx = store_number::Initialize {
        new_account: empty_at(Identity::new([11u8; 32])),
        signer: wallet(1),
    };
    assert_eq!(
        store_number::initialize(&program(), &mut ctx, 42),
        Err(ProgramError::Unauthorized)
    );
    assert!(ctx.new_account.data.is_empty());
}

#[test]
fn obtain_reports_freshness() {
    let mut payer = wallet(1);
    let address = Identity::new([12u8; 32]);
    let mut account = empty_at(address);
    let default_record = DataStore { data: 0 }.encode();
    let first = obtain_or_create(
        &mut account, &mut payer, &program(), &address, DATA_STORE_DISCRIMINATOR, 20,
        &default_record,
    );
    assert_eq!(first, Ok(Freshness::Created));
    assert_eq!(account.data.len(), 20);
    assert_eq!(&account.data[..16], &default_record[..]);
    assert_eq!(&account.data[16..], &[0u8; 4]);
    let second = obtain_or_create(
        &mut account, &mut payer, &program(), &address, DATA_STORE_DISCRIMINATOR, 20,
        &default_record,
    );
    assert_eq!(second, Ok(Freshness::Reused));
    assert_eq!(payer.lamports, START_BALANCE - (128 + 20) * 6960);
}

#[test]
fn add_sums() {
    assert_eq!(add(&Add {}, 2, 3), Ok(5));
    assert_eq!(add(&Add {}, u64::MAX, 0), Ok(u64::MAX));
    assert_eq!(add(&Add {}, u64::MAX, 1), Err(ProgramError::ArithmeticOverflow));
}

#[test]
fn emit_log_events() {
    let events = emit_log::initialize(&program(), &emit_log::Initialize {});
    assert_eq!(events.len(), 2);
    assert_eq!(events[0], MyEvent { value: 12 }.encode());
    let mut first = emit_log::MY_EVENT_DISCRIMINATOR.to_le_bytes().to_vec();
    first.extend_from_slice(&12u64.to_le_bytes());
    assert_eq!(events[0], first);
    let second = MySecondEvent { value: 3, message: "hello world".to_string() }.encode().unwrap();
    assert_eq!(events[1], second);
    let mut expected = emit_log::MY_SECOND_EVENT_DISCRIMINATOR.to_le_bytes().to_vec();
    expected.extend_from_slice(&3u64.to_le_bytes());
    expected.extend_from_slice(&11u32.to_le_bytes());
    expected.extend_from_slice(b"hello world");
    assert_eq!(events[1], expected);
}

#[test]
fn system_program_is_all_zero() {
    assert_eq!(Identity::system_program().bytes, [0u8; 32]);
    assert!(Identity::new([1u8; 32]).same_as(&Identity::new([1u8; 32])));
    assert!(!Identity::new([1u8; 32]).same_as(&Identity::new([2u8; 32])));
}

#[test]
fn another_owners_counter_is_unauthorized() {
    let mut one = counter_ctx(1);
    counter::increment(&program(), &mut one).unwrap();
    let data = one.counter.data.clone();
    let lamports = one.counter.lamports;
    let mut intruder = Increment { user: wallet(2), counter: one.counter };
    assert_eq!(
        counter::increment(&program(), &mut intruder),
        Err(ProgramError::Unauthorized)
    );
    assert_eq!(intruder.counter.data, data);
    assert_eq!(intruder.counter.lamports, lamports);
    assert_eq!(intruder.user.lamports, START_BALANCE);
    assert_eq!(
        counter::initialize(&program(), &mut intruder),
        Err(ProgramError::Unauthorized)
    );
    assert_eq!(intruder.counter.data, data);
}

#[test]
fn another_owners_favorites_are_unauthorized() {
    let mut one = favorites_ctx(1);
    set_favorites(&program(), &mut one, 7, "blue".to_string()).unwrap();
    let data = one.favorites.data.clone();
    let mut intruder = SetFavorites { user: wallet(2), favorites: one.favorites };
    assert_eq!(
        set_favorites(&program(), &mut intruder, 9, "red".to_string()),
        Err(ProgramError::Unauthorized)
    );
    assert_eq!(intruder.favorites.data, data);
    assert_eq!(
        set_favorites(&program(), &mut intruder, 9, "x".repeat(51)),
        Err(ProgramError::Unauthorized)
    );
    assert_eq!(intruder.favorites.data, data);
    assert_eq!(intruder.user.lamports, START_BALANCE);
}

#[test]
fn read_only_wrong_record_is_unauthorized() {
    let mut ctx = counter_ctx(1);
    ctx.counter = empty_at(Identity::new([8u8; 32]));
    ctx.counter.is_writable = false;
    assert_eq!(counter::initialize(&program(), &mut ctx), Err(ProgramError::Unauthorized));
}
