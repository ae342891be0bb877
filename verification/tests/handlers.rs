//! End-to-end scenarios through the dispatcher, with the real address
//! derivation: creation, update, replies, and every rejection the handlers
//! can surface.

use student_intro::account::Account;
use student_intro::address::{
    derive_counter_address, derive_intro_address, derive_reply_address, Address,
};
use student_intro::error::StudentIntroError;
use student_intro::processor::try_process_instruction;
use student_intro::state::{ReplyCounter, ReplyInfo, StudentInfo};

fn addr(fill: u8) -> Address {
    Address { bytes: vec![fill; 32] }
}

fn fresh_account(key: &Address, system: &Address) -> Account {
    Account { key: key.dup(), owner: system.dup(), data: Vec::new() }
}

fn field(b: &[u8]) -> Vec<u8> {
    let mut out = (b.len() as u32).to_le_bytes().to_vec();
    out.extend_from_slice(b);
    out
}

fn create_instruction(name: &[u8], message: &[u8]) -> Vec<u8> {
    let mut data = vec![0u8];
    data.extend_from_slice(&field(name));
    data.extend_from_slice(&field(message));
    data
}

fn update_instruction(name: &[u8], message: &[u8]) -> Vec<u8> {
    let mut data = vec![1u8];
    data.extend_from_slice(&field(name));
    data.extend_from_slice(&field(message));
    data
}

fn reply_instruction(body: &[u8]) -> Vec<u8> {
    let mut data = vec![2u8];
    data.extend_from_slice(&field(body));
    data
}

/// Runs a successful creation and returns (submitter, introduction account,
/// counter account, system key, program id).
fn created_intro(name: &[u8], message: &[u8]) -> (Address, Account, Account, Address, Address) {
    let program_id = addr(42);
    let system = addr(0);
    let submitter = addr(7);
    let (intro_pda, _bump) =
        derive_intro_address(&submitter, &program_id).expect("derivation succeeds");
    let (counter_pda, _bump) =
        derive_counter_address(&intro_pda, &program_id).expect("derivation succeeds");
    let mut accounts = vec![
        fresh_account(&submitter, &system),
        fresh_account(&intro_pda, &system),
        fresh_account(&counter_pda, &system),
        fresh_account(&system, &system),
    ];
    let r = try_process_instruction(&program_id, &mut accounts, &create_instruction(name, message));
    assert_eq!(r, Some(Ok(())));
    let counter_account = accounts.remove(2);
    let intro_account = accounts.remove(1);
    (submitter, intro_account, counter_account, system, program_id)
}

#[test]
fn create_intro_success() {
    let (_submitter, intro, counter, _system, program_id) = created_intro(b"Ada", b"Hello");

    assert_eq!(intro.data.len(), 1000);
    assert_eq!(intro.owner.bytes, program_id.bytes);
    let record = StudentInfo::decode(&intro.data).expect("decodes");
    assert!(record.is_initialized);
    assert_eq!(record.discriminator, b"student".to_vec());
    assert_eq!(record.name, b"Ada".to_vec());
    assert_eq!(record.msg, b"Hello".to_vec());

    assert_eq!(counter.data.len(), 20);
    assert_eq!(counter.owner.bytes, program_id.bytes);
    let counter_record = ReplyCounter::decode(&counter.data).expect("decodes");
    assert!(counter_record.is_initialized);
    assert_eq!(counter_record.discriminator, b"counter".to_vec());
    assert_eq!(counter_record.count, 0);
}

#[test]
fn create_intro_over_ceiling() {
    let program_id = addr(42);
    let system = addr(0);
    let submitter = addr(7);
    let (intro_pda, _bump) = derive_intro_address(&submitter, &program_id).expect("derives");
    let (counter_pda, _bump) = derive_counter_address(&intro_pda, &program_id).expect("derives");
    let mut accounts = vec![
        fresh_account(&submitter, &system),
        fresh_account(&intro_pda, &system),
        fresh_account(&counter_pda, &system),
        fresh_account(&system, &system),
    ];
    // (4+7) + 1 + (4+3) + (4+978) = 1001 bytes, one over the ceiling.
    let message = vec![b'x'; 978];
    let r = try_process_instruction(
        &program_id,
        &mut accounts,
        &create_instruction(b"Ada", &message),
    );
    assert_eq!(r, Some(Err(StudentIntroError::InvalidDataLength)));
    // Nothing was allocated.
    assert_eq!(accounts[1].data.len(), 0);
    assert_eq!(accounts[2].data.len(), 0);
    // One byte fewer fits exactly at the ceiling.
    let message = vec![b'x'; 977];
    let r = try_process_instruction(
        &program_id,
        &mut accounts,
        &create_instruction(b"Ada", &message),
    );
    assert_eq!(r, Some(Ok(())));
    assert_eq!(accounts[1].data.len(), 1000);
}

#[test]
fn create_intro_twice_fails() {
    let (submitter, intro, _counter, system, program_id) = created_intro(b"Ada", b"Hello");
    let (counter_pda, _bump) =
        derive_counter_address(&intro.key, &program_id).expect("derives");
    let mut accounts = vec![
        fresh_account(&submitter, &system),
        intro,
        fresh_account(&counter_pda, &system),
        fresh_account(&system, &system),
    ];
    let r = try_process_instruction(
        &program_id,
        &mut accounts,
        &create_instruction(b"Ada", b"again"),
    );
    assert_eq!(r, Some(Err(StudentIntroError::AccountInUse)));
}

#[test]
fn create_intro_pda_mismatch() {
    let program_id = addr(42);
    let system = addr(0);
    let submitter = addr(7);
    let mut accounts = vec![
        fresh_account(&submitter, &system),
        fresh_account(&addr(99), &system),
        fresh_account(&addr(98), &system),
        fresh_account(&system, &system),
    ];
    let r = try_process_instruction(
        &program_id,
        &mut accounts,
        &create_instruction(b"Ada", b"Hello"),
    );
    assert_eq!(r, Some(Err(StudentIntroError::InvalidPDA)));
    assert_eq!(accounts[1].data.len(), 0);
}

#[test]
fn create_intro_counter_pda_mismatch() {
    let program_id = addr(42);
    let system = addr(0);
    let submitter = addr(7);
    let (intro_pda, _bump) = derive_intro_address(&submitter, &program_id).expect("derives");
    let mut accounts = vec![
        fresh_account(&submitter, &system),
        fresh_account(&intro_pda, &system),
        fresh_account(&addr(98), &system),
        fresh_account(&system, &system),
    ];
    let r = try_process_instruction(
        &program_id,
        &mut accounts,
        &create_instruction(b"Ada", b"Hello"),
    );
    assert_eq!(r, Some(Err(StudentIntroError::InvalidArgument)));
}

#[test]
fn create_intro_not_enough_accounts() {
    let program_id = addr(42);
    let system = addr(0);
    let submitter = addr(7);
    let mut accounts = vec![fresh_account(&submitter, &system)];
    let r = try_process_instruction(
        &program_id,
        &mut accounts,
        &create_instruction(b"Ada", b"Hello"),
    );
    assert_eq!(r, Some(Err(StudentIntroError::NotEnoughAccountKeys)));
}

#[test]
fn update_intro_changes_only_message() {
    let (submitter, intro, _counter, _system, program_id) = created_intro(b"Ada", b"Hello");
    let mut accounts = vec![fresh_account(&submitter, &addr(0)), intro];
    let r = try_process_instruction(
        &program_id,
        &mut accounts,
        &update_instruction(b"ignored", b"Hello again"),
    );
    assert_eq!(r, Some(Ok(())));
    let record = StudentInfo::decode(&accounts[1].data).expect("decodes");
    assert!(record.is_initialized);
    assert_eq!(record.discriminator, b"student".to_vec());
    assert_eq!(record.name, b"Ada".to_vec());
    assert_eq!(record.msg, b"Hello again".to_vec());
    assert_eq!(accounts[1].data.len(), 1000);
}

#[test]
fn update_intro_uninitialized() {
    let program_id = addr(42);
    let submitter = addr(7);
    let (intro_pda, _bump) = derive_intro_address(&submitter, &program_id).expect("derives");
    // A freshly allocated but never written buffer: all zero.
    let target = Account {
        key: intro_pda.dup(),
        owner: program_id.dup(),
        data: vec![0u8; 1000],
    };
    let mut accounts = vec![fresh_account(&submitter, &addr(0)), target];
    let r = try_process_instruction(
        &program_id,
        &mut accounts,
        &update_instruction(b"x", b"y"),
    );
    assert_eq!(r, Some(Err(StudentIntroError::UninitializedAccount)));
    assert_eq!(accounts[1].data, vec![0u8; 1000]);
}

#[test]
fn update_intro_wrong_owner() {
    let (submitter, mut intro, _counter, system, program_id) = created_intro(b"Ada", b"Hello");
    intro.owner = system.dup();
    let mut accounts = vec![fresh_account(&submitter, &system), intro];
    let r = try_process_instruction(
        &program_id,
        &mut accounts,
        &update_instruction(b"x", b"y"),
    );
    assert_eq!(r, Some(Err(StudentIntroError::IllegalOwner)));
}

#[test]
fn update_intro_over_ceiling() {
    let (submitter, intro, _counter, _system, program_id) = created_intro(b"Ada", b"Hello");
    let mut accounts = vec![fresh_account(&submitter, &addr(0)), intro];
    // (4+7) + 1 + (4+3) + (4+978) = 1001 bytes, one over the ceiling.
    let message = vec![b'x'; 978];
    let r = try_process_instruction(
        &program_id,
        &mut accounts,
        &update_instruction(b"ignored", &message),
    );
    assert_eq!(r, Some(Err(StudentIntroError::InvalidDataLength)));
    let record = StudentInfo::decode(&accounts[1].data).expect("decodes");
    assert_eq!(record.msg, b"Hello".to_vec());
}

#[test]
fn update_intro_pda_mismatch() {
    let (_submitter, intro, _counter, system, program_id) = created_intro(b"Ada", b"Hello");
    // A different submitter derives a different address than the target's.
    let other = addr(8);
    let mut accounts = vec![fresh_account(&other, &system), intro];
    let r = try_process_instruction(
        &program_id,
        &mut accounts,
        &update_instruction(b"x", b"y"),
    );
    assert_eq!(r, Some(Err(StudentIntroError::InvalidPDA)));
}

#[test]
fn update_intro_buffer_too_small() {
    let (submitter, mut intro, _counter, _system, program_id) = created_intro(b"Ada", b"Hello");
    // Shrink the buffer to exactly the current record: a longer message can
    // no longer be written back.
    intro.data.truncate(28);
    let mut accounts = vec![fresh_account(&submitter, &addr(0)), intro];
    let r = try_process_instruction(
        &program_id,
        &mut accounts,
        &update_instruction(b"ignored", b"Hello!"),
    );
    assert_eq!(r, Some(Err(StudentIntroError::BorshIoError)));
}

#[test]
fn reply_sequence() {
    let program_id = addr(42);
    let system = addr(0);
    let replier = addr(9);
    let parent = addr(5);
    // The counter is read in its pre-ownership state: owned by the system
    // allocator, its buffer still all zero, so the count reads as zero.
    let mut counter = Account {
        key: addr(6),
        owner: system.dup(),
        data: vec![0u8; 20],
    };
    let bodies: [&[u8]; 3] = [b"first", b"second", b"third"];
    let mut reply_accounts: Vec<Account> = Vec::new();
    for (i, body) in bodies.iter().enumerate() {
        let (reply_pda, _bump) =
            derive_reply_address(&parent, i as u64, &program_id).expect("derives");
        let mut accounts = vec![
            fresh_account(&replier, &system),
            fresh_account(&parent, &system),
            counter,
            fresh_account(&reply_pda, &system),
            fresh_account(&system, &system),
        ];
        let r = try_process_instruction(&program_id, &mut accounts, &reply_instruction(body));
        assert_eq!(r, Some(Ok(())));
        let reply_account = accounts.remove(3);
        counter = accounts.remove(2);
        let counter_record = ReplyCounter::decode(&counter.data).expect("decodes");
        assert_eq!(counter_record.count, (i + 1) as u64);
        assert_eq!(counter_record.discriminator, b"counter".to_vec());
        reply_accounts.push(reply_account);
    }
    for (i, body) in bodies.iter().enumerate() {
        let (expected_pda, _bump) =
            derive_reply_address(&parent, i as u64, &program_id).expect("derives");
        assert_eq!(reply_accounts[i].key.bytes, expected_pda.bytes);
        assert_eq!(reply_accounts[i].owner.bytes, program_id.bytes);
        let record = ReplyInfo::decode(&reply_accounts[i].data).expect("decodes");
        assert!(record.is_initialized);
        assert_eq!(record.discriminator, b"reply".to_vec());
        assert_eq!(record.student_info, parent.bytes);
        assert_eq!(record.reply, body.to_vec());
    }
    // The next reply's slot is a different address than any created so far.
    let (next_pda, _bump) = derive_reply_address(&parent, 3, &program_id).expect("derives");
    for reply_account in &reply_accounts {
        assert_ne!(reply_account.key.bytes, next_pda.bytes);
    }
}

#[test]
fn reply_counter_wrong_owner() {
    let program_id = addr(42);
    let system = addr(0);
    // A counter already owned by this program fails the pre-ownership check.
    let counter = Account {
        key: addr(6),
        owner: program_id.dup(),
        data: vec![0u8; 20],
    };
    let (reply_pda, _bump) = derive_reply_address(&addr(5), 0, &program_id).expect("derives");
    let mut accounts = vec![
        fresh_account(&addr(9), &system),
        fresh_account(&addr(5), &system),
        counter,
        fresh_account(&reply_pda, &system),
        fresh_account(&system, &system),
    ];
    let r = try_process_instruction(&program_id, &mut accounts, &reply_instruction(b"hi"));
    assert_eq!(r, Some(Err(StudentIntroError::IllegalOwner)));
}

#[test]
fn reply_pda_mismatch() {
    let program_id = addr(42);
    let system = addr(0);
    let counter = Account {
        key: addr(6),
        owner: system.dup(),
        data: vec![0u8; 20],
    };
    let mut accounts = vec![
        fresh_account(&addr(9), &system),
        fresh_account(&addr(5), &system),
        counter,
        fresh_account(&addr(77), &system),
        fresh_account(&system, &system),
    ];
    let r = try_process_instruction(&program_id, &mut accounts, &reply_instruction(b"hi"));
    assert_eq!(r, Some(Err(StudentIntroError::InvalidPDA)));
}

#[test]
fn derivation_is_deterministic_and_fresh() {
    let program_id = addr(42);
    let submitter = addr(7);
    let (a, bump_a) = derive_intro_address(&submitter, &program_id).expect("derives");
    let (b, bump_b) = derive_intro_address(&submitter, &program_id).expect("derives");
    assert_eq!(a.bytes, b.bytes);
    assert_eq!(bump_a, bump_b);
    assert_eq!(a.bytes.len(), 32);
    // The derived address is not the seed handed in.
    assert_ne!(a.bytes, submitter.bytes);
    // Another submitter lands elsewhere.
    let (c, _bump) = derive_intro_address(&addr(8), &program_id).expect("derives");
    assert_ne!(a.bytes, c.bytes);
}
