//! The loyalty contract driven the way its entry points are called on a
//! ledger: a simulated environment holding the contract's state.
use contracts_revo::common::{Address, Bytes32};
use contracts_revo::loyalty::{LoyaltyContract, LoyaltyProgram, RedemptionOption};
use std::cell::RefCell;
use std::rc::Rc;
use contracts_revo::loyalty::earn::award_in_range;

#[derive(Clone)]
struct Env {
    world: Rc<RefCell<(LoyaltyContract, u64)>>,
}

impl Env {
    fn default() -> Env {
        Env { world: Rc::new(RefCell::new((LoyaltyContract::new(), 1))) }
    }

    fn register(&self, _contract: LoyaltyContractType, _args: ()) -> Address {
        Address::generate(self)
    }

    fn as_contract<T>(&self, _contract: &Address, f: impl FnOnce() -> T) -> T {
        f()
    }
}

struct LoyaltyContractType;

trait Generate {
    fn generate(env: &Env) -> Self;
}

impl Generate for Address {
    fn generate(env: &Env) -> Address {
        let mut w = env.world.borrow_mut();
        let a = Address { id: w.1 };
        w.1 += 1;
        a
    }
}

trait TextOnLedger {
    fn from_str(env: &Env, s: &str) -> Self;
}

impl TextOnLedger for String {
    fn from_str(_env: &Env, s: &str) -> String {
        s.to_string()
    }
}

trait PushBack<T> {
    fn push_back(&mut self, x: T);
}

impl<T> PushBack<T> for Vec<T> {
    fn push_back(&mut self, x: T) {
        self.push(x)
    }
}

struct Hash32;

impl Hash32 {
    fn from_array(_env: &Env, bytes: &[u8; 32]) -> Bytes32 {
        let mut hi = [0u8; 16];
        let mut lo = [0u8; 16];
        hi.copy_from_slice(&bytes[..16]);
        lo.copy_from_slice(&bytes[16..]);
        Bytes32 { hi: u128::from_be_bytes(hi), lo: u128::from_be_bytes(lo) }
    }
}

/// The contract's entry points, called with the environment they run in;
/// a refusal panics with its message, as the contract does.
struct Loyalty;

impl Loyalty {
    fn create_loyalty_program(env: Env, program_id: Bytes32, points_per_transaction: u32, redemption_options: Vec<RedemptionOption>) {
        let r = env.world.borrow_mut().0.create_loyalty_program(program_id, points_per_transaction, redemption_options);
        if let Err(e) = r {
            panic!("{}", e.message());
        }
    }

    fn award_points(env: Env, program_id: Bytes32, user_address: Address, transaction_amount: u32) {
        let r = env.world.borrow_mut().0.award_points(program_id, user_address, transaction_amount);
        if let Err(e) = r {
            panic!("{}", e.message());
        }
    }

    fn redeem_reward(env: Env, program_id: Bytes32, user_address: Address, redemption_option_id: u32) {
        let r = env.world.borrow_mut().0.redeem_reward(program_id, user_address, redemption_option_id);
        if let Err(e) = r {
            panic!("{}", e.message());
        }
    }

    fn get_program_info(env: Env, program_id: Bytes32) -> LoyaltyProgram {
        let r = env.world.borrow().0.get_program_info(program_id);
        match r {
            Ok(p) => p,
            Err(e) => panic!("{}", e.message()),
        }
    }

    fn list_available_rewards(env: Env, program_id: Bytes32) -> Vec<RedemptionOption> {
        let r = env.world.borrow().0.list_available_rewards(program_id);
        match r {
            Ok(v) => v,
            Err(e) => panic!("{}", e.message()),
        }
    }
}

fn setup_test() -> (Env, Address, Bytes32) {
    let env = Env::default();
    let contract_address = env.register(LoyaltyContractType, ());
    let program_id = Hash32::from_array(&env, &[1u8; 32]);
    (env, contract_address, program_id)
}

fn create_user(env: &Env) -> Address {
    Address::generate(env)
}

fn get_user_points(env: &Env, program_id: Bytes32, user_address: Address) -> u64 {
    env.world.borrow().0.get_points(program_id, user_address)
}

fn create_program_with_id(env: &Env, id: u8) -> Bytes32 {
    let mut program_id_bytes = [0u8; 32];
    program_id_bytes[0] = id;
    Hash32::from_array(env, &program_id_bytes)
}

fn setup_loyalty_program(
    env: &Env,
    contract_address: &Address,
    program_id: Bytes32,
    points_per_transaction: u32,
    rewards: Vec<RedemptionOption>,
) {
    env.as_contract(contract_address, || {
        Loyalty::create_loyalty_program(env.clone(), program_id, points_per_transaction, rewards);
    });
}

fn setup_basic_program(env: &Env, contract_address: &Address, program_id: Bytes32) {
    let rewards = create_basic_rewards(env);
    setup_loyalty_program(env, contract_address, program_id, 1, rewards);
}

fn award_points_to_user(env: &Env, contract_address: &Address, program_id: Bytes32, user: Address, transaction_amount: u32) {
    env.as_contract(contract_address, || {
        Loyalty::award_points(env.clone(), program_id, user, transaction_amount);
    });
}

fn redeem_reward_for_user(env: &Env, contract_address: &Address, program_id: Bytes32, user: Address, reward_id: u32) {
    env.as_contract(contract_address, || {
        Loyalty::redeem_reward(env.clone(), program_id, user, reward_id);
    });
}

fn get_program_details(env: &Env, contract_address: &Address, program_id: Bytes32) -> LoyaltyProgram {
    env.as_contract(contract_address, || Loyalty::get_program_info(env.clone(), program_id))
}

fn get_available_rewards(env: &Env, contract_address: &Address, program_id: Bytes32) -> Vec<RedemptionOption> {
    env.as_contract(contract_address, || Loyalty::list_available_rewards(env.clone(), program_id))
}

fn create_rewards(env: &Env) -> Vec<RedemptionOption> {
    let mut rewards = Vec::new();
    rewards.push_back(RedemptionOption {
        id: 1,
        name: String::from_str(env, "Gift Card"),
        points_required: 200,
        available_quantity: 1,
    });
    rewards.push_back(RedemptionOption {
        id: 2,
        name: String::from_str(env, "Discount Coupon"),
        points_required: 100,
        available_quantity: 2,
    });
    rewards
}

fn create_basic_rewards(env: &Env) -> Vec<RedemptionOption> {
    let mut rewards = Vec::new();
    rewards.push_back(RedemptionOption {
        id: 1,
        name: String::from_str(env, "Gift Card"),
        points_required: 200,
        available_quantity: 10,
    });
    rewards.push_back(RedemptionOption {
        id: 2,
        name: String::from_str(env, "Discount Coupon"),
        points_required: 100,
        available_quantity: 5,
    });
    rewards.push_back(RedemptionOption {
        id: 3,
        name: String::from_str(env, "Free Shipping"),
        points_required: 50,
        available_quantity: 20,
    });
    rewards
}

fn create_premium_rewards(env: &Env) -> Vec<RedemptionOption> {
    let mut rewards = Vec::new();
    rewards.push_back(RedemptionOption {
        id: 1,
        name: String::from_str(env, "Premium Gift Card"),
        points_required: 1000,
        available_quantity: 2,
    });
    rewards.push_back(RedemptionOption {
        id: 2,
        name: String::from_str(env, "VIP Experience"),
        points_required: 5000,
        available_quantity: 1,
    });
    rewards
}

fn create_single_reward(env: &Env, id: u32, name: &str, points: u32, quantity: u32) -> Vec<RedemptionOption> {
    let mut rewards = Vec::new();
    rewards.push_back(RedemptionOption {
        id,
        name: String::from_str(env, name),
        points_required: points,
        available_quantity: quantity,
    });
    rewards
}

fn assert_reward_exists(rewards: &Vec<RedemptionOption>, reward_id: u32) {
    let exists = rewards.iter().any(|r| r.id == reward_id);
    assert!(exists, "Reward with ID {} should exist", reward_id);
}

fn assert_reward_not_exists(rewards: &Vec<RedemptionOption>, reward_id: u32) {
    let exists = rewards.iter().any(|r| r.id == reward_id);
    assert!(!exists, "Reward with ID {} should not exist", reward_id);
}

fn assert_reward_quantity(rewards: &Vec<RedemptionOption>, reward_id: u32, expected_quantity: u32) {
    let reward = rewards.iter().find(|r| r.id == reward_id).expect("Reward not found");
    assert_eq!(reward.available_quantity, expected_quantity,
               "Reward {} should have {} quantity", reward_id, expected_quantity);
}

fn create_multiple_users(env: &Env, count: u32) -> Vec<Address> {
    let mut users = Vec::new();
    for _ in 0..count {
        users.push_back(Address::generate(env));
    }
    users
}

#[test]
fn test_test_award_points_after_transaction() {
    let (env, contract_address, program_id) = setup_test();
    let user = create_user(&env);
    let rewards = create_rewards(&env);
    env.as_contract(&contract_address, || {
        Loyalty::create_loyalty_program(env.clone(), program_id.clone(), 1, rewards);
        Loyalty::award_points(env.clone(), program_id.clone(), user.clone(), 50);
        // Points per transaction = 1, amount = 50, expect 50 points
        let points: u64 = get_user_points(&env, program_id.clone(), user.clone());
        assert_eq!(points, 50);
    });
}


#[test]
fn earn_test_award_points_after_transaction() {
    let (env, contract_address, program_id) = setup_test();
    let user = create_user(&env);
    let rewards = create_rewards(&env);
    env.as_contract(&contract_address, || {
        Loyalty::create_loyalty_program(env.clone(), program_id.clone(), 1, rewards);
        Loyalty::award_points(env.clone(), program_id.clone(), user.clone(), 50);
        // Points per transaction = 1, amount = 50, expect 50 points

        let points: u64 = get_user_points(&env, program_id, user.clone());
        assert_eq!(points, 50);
    });
}

#[test]
fn test_dynamic_point_rate_handling() {
    let (env, contract_address, program_id) = setup_test();
    let user = create_user(&env);
    let rewards = create_rewards(&env);
    env.as_contract(&contract_address, || {
        Loyalty::create_loyalty_program(env.clone(), program_id.clone(), 2, rewards);
        Loyalty::award_points(env.clone(), program_id.clone(), user.clone(), 50);
        // Points per transaction = 2, amount = 50, expect 100 points
        let points: u64 = get_user_points(&env, program_id, user.clone());

        assert_eq!(points, 100);
    });
}

#[test]
fn test_accurate_user_point_balances() {
    let (env, contract_address, program_id) = setup_test();
    let user = create_user(&env);
    let rewards = create_rewards(&env);
    env.as_contract(&contract_address, || {
        Loyalty::create_loyalty_program(env.clone(), program_id.clone(), 1, rewards);
        Loyalty::award_points(env.clone(), program_id.clone(), user.clone(), 100);
        Loyalty::award_points(env.clone(), program_id.clone(), user.clone(), 50);
        // User should have 150 points
        let points: u64 = get_user_points(&env, program_id, user.clone());

        assert_eq!(points, 150);
    });
}

// ============ NEW COMPREHENSIVE TESTS ============

#[test]
fn test_basic_point_awarding() {
    let (env, contract_address, program_id) = setup_test();
    let user = create_user(&env);
    let rewards = create_basic_rewards(&env);

    env.as_contract(&contract_address, || {
        Loyalty::create_loyalty_program(env.clone(), program_id.clone(), 1, rewards);
        Loyalty::award_points(env.clone(), program_id.clone(), user.clone(), 50);

        let points = get_user_points(&env, program_id, user);
        assert_eq!(points, 50);
    });
}

#[test]
fn test_dynamic_point_rates() {
    let (env, contract_address, _program_id) = setup_test();
    let user = create_user(&env);
    let rewards = create_basic_rewards(&env);

    // Test different point rates
    let test_cases = [(2, 100, 200), (5, 50, 250), (10, 20, 200)];

    for (i, (rate, amount, expected)) in test_cases.iter().enumerate() {
        let test_program_id = create_program_with_id(&env, i as u8 + 2);

        env.as_contract(&contract_address, || {
            Loyalty::create_loyalty_program(
                env.clone(),
                test_program_id.clone(),
                *rate,
                rewards.clone(),
            );
            Loyalty::award_points(
                env.clone(),
                test_program_id.clone(),
                user.clone(),
                *amount,
            );

            let points = get_user_points(&env, test_program_id, user.clone());
            assert_eq!(points, *expected);
        });
    }
}

#[test]
fn test_cumulative_point_accumulation() {
    let (env, contract_address, program_id) = setup_test();
    let user = create_user(&env);
    let rewards = create_basic_rewards(&env);

    env.as_contract(&contract_address, || {
        Loyalty::create_loyalty_program(env.clone(), program_id.clone(), 1, rewards);

        // Multiple transactions
        Loyalty::award_points(env.clone(), program_id.clone(), user.clone(), 50);
        Loyalty::award_points(env.clone(), program_id.clone(), user.clone(), 30);
        Loyalty::award_points(env.clone(), program_id.clone(), user.clone(), 20);

        let points = get_user_points(&env, program_id, user);
        assert_eq!(points, 100);
    });
}


#[test]
fn test_create_basic_loyalty_program() {
    let (env, contract_address, program_id) = setup_test();
    let rewards = create_basic_rewards(&env);

    setup_loyalty_program(
        &env,
        &contract_address,
        program_id.clone(),
        1,
        rewards.clone(),
    );

    let program = get_program_details(&env, &contract_address, program_id.clone());
    assert_eq!(program.program_id, program_id);
    assert_eq!(program.points_per_transaction, 1);
    assert_eq!(program.redemption_options.len(), 3);
}

#[test]
fn test_create_program_with_different_point_rates() {
    let (env, contract_address, _default_program_id) = setup_test();
    let rewards = create_basic_rewards(&env);

    let test_rates = [1, 5, 10, 100, 1000];

    for (i, &rate) in test_rates.iter().enumerate() {
        let program_id = create_program_with_id(&env, i as u8 + 2);
        setup_loyalty_program(
            &env,
            &contract_address,
            program_id.clone(),
            rate,
            rewards.clone(),
        );

        let program = get_program_details(&env, &contract_address, program_id);
        assert_eq!(program.points_per_transaction, rate);
    }
}

#[test]
fn test_create_program_with_no_rewards() {
    let (env, contract_address, program_id) = setup_test();
    let empty_rewards = Vec::new();

    setup_loyalty_program(
        &env,
        &contract_address,
        program_id.clone(),
        1,
        empty_rewards,
    );

    let program = get_program_details(&env, &contract_address, program_id);
    assert_eq!(program.redemption_options.len(), 0);
}

#[test]
fn test_create_program_with_single_reward() {
    let (env, contract_address, program_id) = setup_test();
    let single_reward = create_single_reward(&env, 1, "Exclusive Gift", 500, 1);

    setup_loyalty_program(
        &env,
        &contract_address,
        program_id.clone(),
        2,
        single_reward,
    );

    let program = get_program_details(&env, &contract_address, program_id);
    assert_eq!(program.redemption_options.len(), 1);

    let reward = program.redemption_options.get(0).unwrap();
    assert_eq!(reward.id, 1);
    assert_eq!(reward.name, String::from_str(&env, "Exclusive Gift"));
    assert_eq!(reward.points_required, 500);
    assert_eq!(reward.available_quantity, 1);
}

#[test]
#[should_panic(expected = "Program already exists")]
fn test_create_duplicate_program() {
    let (env, contract_address, program_id) = setup_test();
    let rewards = create_basic_rewards(&env);

    // Create program first time
    setup_loyalty_program(
        &env,
        &contract_address,
        program_id.clone(),
        1,
        rewards.clone(),
    );

    // Attempt to create same program again
    setup_loyalty_program(&env, &contract_address, program_id, 2, rewards);
}

#[test]
fn test_create_multiple_different_programs() {
    let (env, contract_address, _default_program_id) = setup_test();
    let basic_rewards = create_basic_rewards(&env);
    let premium_rewards = create_premium_rewards(&env);

    let program1 = create_program_with_id(&env, 10);
    let program2 = create_program_with_id(&env, 11);
    let program3 = create_program_with_id(&env, 12);

    setup_loyalty_program(&env, &contract_address, program1.clone(), 1, basic_rewards);
    setup_loyalty_program(
        &env,
        &contract_address,
        program2.clone(),
        5,
        premium_rewards,
    );
    setup_loyalty_program(
        &env,
        &contract_address,
        program3.clone(),
        10,
        Vec::new(),
    );

    // Verify each program
    let retrieved_program1 = get_program_details(&env, &contract_address, program1);
    let retrieved_program2 = get_program_details(&env, &contract_address, program2);
    let retrieved_program3 = get_program_details(&env, &contract_address, program3);

    assert_eq!(retrieved_program1.points_per_transaction, 1);
    assert_eq!(retrieved_program1.redemption_options.len(), 3);

    assert_eq!(retrieved_program2.points_per_transaction, 5);
    assert_eq!(retrieved_program2.redemption_options.len(), 2);

    assert_eq!(retrieved_program3.points_per_transaction, 10);
    assert_eq!(retrieved_program3.redemption_options.len(), 0);
}

#[test]
#[should_panic(expected = "Program not found")]
fn test_get_nonexistent_program() {
    let (env, contract_address, _program_id) = setup_test();
    let fake_program_id = create_program_with_id(&env, 99);

    get_program_details(&env, &contract_address, fake_program_id);
}

#[test]
fn test_program_with_varying_reward_quantities() {
    let (env, contract_address, program_id) = setup_test();

    let mut rewards = Vec::new();
    rewards.push_back(create_test_reward(&env, 1, "Common", 50, 100));
    rewards.push_back(create_test_reward(&env, 2, "Rare", 200, 10));
    rewards.push_back(create_test_reward(&env, 3, "Ultra Rare", 1000, 1));

    setup_loyalty_program(&env, &contract_address, program_id.clone(), 1, rewards);

    let program = get_program_details(&env, &contract_address, program_id);
    assert_eq!(program.redemption_options.len(), 3);

    let common = program
        .redemption_options
        .iter()
        .find(|r| r.id == 1)
        .unwrap();
    let rare = program
        .redemption_options
        .iter()
        .find(|r| r.id == 2)
        .unwrap();
    let ultra_rare = program
        .redemption_options
        .iter()
        .find(|r| r.id == 3)
        .unwrap();

    assert_eq!(common.available_quantity, 100);
    assert_eq!(rare.available_quantity, 10);
    assert_eq!(ultra_rare.available_quantity, 1);
}

#[test]
fn test_program_with_varying_point_requirements() {
    let (env, contract_address, program_id) = setup_test();

    let mut rewards = Vec::new();
    rewards.push_back(create_test_reward(&env, 1, "Low Cost", 10, 50));
    rewards.push_back(create_test_reward(&env, 2, "Medium Cost", 250, 20));
    rewards.push_back(create_test_reward(&env, 3, "High Cost", 5000, 5));

    setup_loyalty_program(&env, &contract_address, program_id.clone(), 1, rewards);

    let program = get_program_details(&env, &contract_address, program_id);

    let low_cost = program
        .redemption_options
        .iter()
        .find(|r| r.id == 1)
        .unwrap();
    let medium_cost = program
        .redemption_options
        .iter()
        .find(|r| r.id == 2)
        .unwrap();
    let high_cost = program
        .redemption_options
        .iter()
        .find(|r| r.id == 3)
        .unwrap();

    assert_eq!(low_cost.points_required, 10);
    assert_eq!(medium_cost.points_required, 250);
    assert_eq!(high_cost.points_required, 5000);
}

#[test]
fn test_program_persistence() {
    let (env, contract_address, program_id) = setup_test();
    let rewards = create_basic_rewards(&env);

    setup_loyalty_program(&env, &contract_address, program_id.clone(), 3, rewards);

    // Retrieve program multiple times to test persistence
    for _ in 0..5 {
        let program = get_program_details(&env, &contract_address, program_id.clone());
        assert_eq!(program.program_id, program_id);
        assert_eq!(program.points_per_transaction, 3);
        assert_eq!(program.redemption_options.len(), 3);
    }
}

#[test]
fn test_program_with_zero_point_rate() {
    let (env, contract_address, program_id) = setup_test();
    let rewards = create_basic_rewards(&env);

    setup_loyalty_program(&env, &contract_address, program_id.clone(), 0, rewards);

    let program = get_program_details(&env, &contract_address, program_id);
    assert_eq!(program.points_per_transaction, 0);
}

#[test]
fn test_program_with_max_point_rate() {
    let (env, contract_address, program_id) = setup_test();
    let rewards = create_basic_rewards(&env);

    setup_loyalty_program(
        &env,
        &contract_address,
        program_id.clone(),
        u32::MAX,
        rewards,
    );

    let program = get_program_details(&env, &contract_address, program_id);
    assert_eq!(program.points_per_transaction, u32::MAX);
}

#[test]
fn test_program_reward_modifications_after_creation() {
    let (env, contract_address, program_id) = setup_test();
    let user = create_user(&env);

    setup_basic_program(&env, &contract_address, program_id.clone());

    // Award points and redeem to modify inventory
    award_points_to_user(
        &env,
        &contract_address,
        program_id.clone(),
        user.clone(),
        200,
    );
    redeem_reward_for_user(&env, &contract_address, program_id.clone(), user, 1);

    // Check that program reflects inventory changes
    let program = get_program_details(&env, &contract_address, program_id);
    let gift_card = program
        .redemption_options
        .iter()
        .find(|r| r.id == 1)
        .unwrap();
    assert_eq!(gift_card.available_quantity, 9); // Reduced from 10 to 9
}

#[test]
fn test_list_available_rewards() {
    let (env, contract_address, program_id) = setup_test();
    let user = create_user(&env);

    setup_basic_program(&env, &contract_address, program_id.clone());

    // Initially all rewards should be available
    let available_rewards = get_available_rewards(&env, &contract_address, program_id.clone());
    assert_eq!(available_rewards.len(), 3);

    // Exhaust one type of reward
    award_points_to_user(
        &env,
        &contract_address,
        program_id.clone(),
        user.clone(),
        500,
    );

    // Redeem all Discount Coupons (5 available, 100 points each)
    for _ in 0..5 {
        redeem_reward_for_user(&env, &contract_address, program_id.clone(), user.clone(), 2);
    }

    // Now only 2 rewards should be available
    let available_rewards = get_available_rewards(&env, &contract_address, program_id);
    assert_eq!(available_rewards.len(), 2);

    // Verify the out-of-stock reward is not in the list
    assert_reward_not_exists(&available_rewards, 2);
    assert_reward_exists(&available_rewards, 1);
    assert_reward_exists(&available_rewards, 3);
}

#[test]
fn test_program_with_large_number_of_rewards() {
    let (env, contract_address, program_id) = setup_test();

    let mut rewards = Vec::new();
    for i in 1..=50 {
        let reward_name = if i <= 10 {
            "Reward Low"
        } else if i <= 30 {
            "Reward Med"
        } else {
            "Reward High"
        };
        rewards.push_back(create_test_reward(&env, i, reward_name, i * 10, i));
    }

    setup_loyalty_program(&env, &contract_address, program_id.clone(), 1, rewards);

    let program = get_program_details(&env, &contract_address, program_id);
    assert_eq!(program.redemption_options.len(), 50);

    // Verify first and last rewards
    let first_reward = program
        .redemption_options
        .iter()
        .find(|r| r.id == 1)
        .unwrap();
    let last_reward = program
        .redemption_options
        .iter()
        .find(|r| r.id == 50)
        .unwrap();

    assert_eq!(first_reward.points_required, 10);
    assert_eq!(first_reward.available_quantity, 1);
    assert_eq!(last_reward.points_required, 500);
    assert_eq!(last_reward.available_quantity, 50);
}

// ============ CROSS-PROGRAM TESTS ============

#[test]
#[should_panic(expected = "Insufficient points")]
fn test_cross_program_insufficient_points() {
    let (env, contract_address, _default_program_id) = setup_test();
    let user = create_user(&env);

    let program1 = create_program_with_id(&env, 10);
    let program2 = create_program_with_id(&env, 11);

    env.as_contract(&contract_address, || {
        Loyalty::create_loyalty_program(
            env.clone(),
            program1,
            1,
            create_basic_rewards(&env),
        );
        Loyalty::create_loyalty_program(
            env.clone(),
            program2.clone(),
            3,
            create_premium_rewards(&env),
        );

        Loyalty::award_points(env.clone(), program2.clone(), user.clone(), 200);

        // Should fail - user has 600 points in program2 but premium reward needs 1000
        Loyalty::redeem_reward(env.clone(), program2, user, 1);
    });
}

// Helper function for creating test rewards
fn create_test_reward(
    env: &Env,
    id: u32,
    name: &str,
    points: u32,
    quantity: u32,
) -> RedemptionOption {
    RedemptionOption {
        id,
        name: String::from_str(env, name),
        points_required: points,
        available_quantity: quantity,
    }
}


#[test]
fn test_reward_redemption_with_sufficient_points() {
    let (env, contract_address, program_id) = setup_test();
    let user = create_user(&env);
    let rewards = create_rewards(&env);
    env.as_contract(&contract_address, || {
        Loyalty::create_loyalty_program(env.clone(), program_id.clone(), 1, rewards);
        Loyalty::award_points(env.clone(), program_id.clone(), user.clone(), 200);
        // User has 200 points, redeem Gift Card (id=1, requires 200)
        Loyalty::redeem_reward(env.clone(), program_id.clone(), user.clone(), 1);
        let points: u64 = get_user_points(&env, program_id.clone(), user.clone());

        assert_eq!(points, 0);
        // Check inventory
        let program = Loyalty::get_program_info(env.clone(), program_id);
        let gift_card = program
            .redemption_options
            .iter()
            .find(|opt| opt.id == 1)
            .unwrap();
        assert_eq!(gift_card.available_quantity, 0);
    });
}

#[test]
#[should_panic(expected = "Insufficient points")]
fn test_redemption_with_insufficient_points() {
    let (env, contract_address, program_id) = setup_test();
    let user = create_user(&env);
    let rewards = create_rewards(&env);
    env.as_contract(&contract_address, || {
        Loyalty::create_loyalty_program(env.clone(), program_id.clone(), 1, rewards);
        Loyalty::award_points(env.clone(), program_id.clone(), user.clone(), 100);
        // User has 100 points, tries to redeem Gift Card (requires 200)
        Loyalty::redeem_reward(env.clone(), program_id.clone(), user.clone(), 1);
    });
}

#[test]
#[should_panic(expected = "Reward is out of stock")]
fn test_inventory_tracking_for_rewards() {
    let (env, contract_address, program_id) = setup_test();
    let user1 = create_user(&env);
    let user2 = create_user(&env);
    let rewards = create_rewards(&env);
    env.as_contract(&contract_address, || {
        Loyalty::create_loyalty_program(env.clone(), program_id.clone(), 1, rewards);
        Loyalty::award_points(env.clone(), program_id.clone(), user1.clone(), 200);
        Loyalty::award_points(env.clone(), program_id.clone(), user2.clone(), 200);
        // User1 redeems Gift Card (id=1)
        Loyalty::redeem_reward(env.clone(), program_id.clone(), user1.clone(), 1);
        // User2 tries to redeem same reward, should panic (out of stock)
        Loyalty::redeem_reward(env.clone(), program_id.clone(), user2.clone(), 1);
    });
}

#[test]
#[should_panic]
fn test_double_redemption_attempt() {
    let (env, contract_address, program_id) = setup_test();
    let user = create_user(&env);
    let rewards = create_rewards(&env);
    env.as_contract(&contract_address, || {
        Loyalty::create_loyalty_program(env.clone(), program_id.clone(), 1, rewards);
        Loyalty::award_points(env.clone(), program_id.clone(), user.clone(), 200);
        Loyalty::redeem_reward(env.clone(), program_id.clone(), user.clone(), 1);
        // Try to redeem again with 0 points, should panic
        Loyalty::redeem_reward(env.clone(), program_id.clone(), user.clone(), 1);
    });
}

// ============ NEW COMPREHENSIVE TESTS ============

#[test]
fn test_successful_reward_redemption() {
    let (env, contract_address, program_id) = setup_test();
    let user = create_user(&env);
    let rewards = create_basic_rewards(&env);

    env.as_contract(&contract_address, || {
        Loyalty::create_loyalty_program(env.clone(), program_id.clone(), 1, rewards);

        // Award enough points for redemption
        Loyalty::award_points(env.clone(), program_id.clone(), user.clone(), 200);

        // Redeem Gift Card (id=1, requires 200 points)
        Loyalty::redeem_reward(env.clone(), program_id.clone(), user.clone(), 1);

        // Check points are deducted
        let remaining_points = get_user_points(&env, program_id.clone(), user);
        assert_eq!(remaining_points, 0);

        // Check inventory is updated
        let program = Loyalty::get_program_info(env.clone(), program_id);
        let gift_card = program
            .redemption_options
            .iter()
            .find(|opt| opt.id == 1)
            .unwrap();
        assert_eq!(gift_card.available_quantity, 9); // Started with 10, now 9
    });
}

#[test]
fn test_partial_point_redemption() {
    let (env, contract_address, program_id) = setup_test();
    let user = create_user(&env);
    let rewards = create_basic_rewards(&env);

    env.as_contract(&contract_address, || {
        Loyalty::create_loyalty_program(env.clone(), program_id.clone(), 1, rewards);

        // Award more points than needed for redemption
        Loyalty::award_points(env.clone(), program_id.clone(), user.clone(), 300);

        // Redeem Discount Coupon (id=2, requires 100 points)
        Loyalty::redeem_reward(env.clone(), program_id.clone(), user.clone(), 2);

        // Check remaining points
        let remaining_points = get_user_points(&env, program_id, user);
        assert_eq!(remaining_points, 200);
    });
}

// ============ END-TO-END INTEGRATION TEST ============

#[test]
fn test_full_loyalty_program_lifecycle() {
    let (env, contract_address, program_id) = setup_test();
    let user = create_user(&env);
    let rewards = create_basic_rewards(&env);

    env.as_contract(&contract_address, || {
        // 1. Create loyalty program
        Loyalty::create_loyalty_program(env.clone(), program_id.clone(), 1, rewards);

        // 2. Verify program creation
        let program = Loyalty::get_program_info(env.clone(), program_id.clone());
        assert_eq!(program.redemption_options.len(), 3);

        // 3. User makes purchases and earns points
        Loyalty::award_points(env.clone(), program_id.clone(), user.clone(), 100);
        Loyalty::award_points(env.clone(), program_id.clone(), user.clone(), 150);

        let total_points = get_user_points(&env, program_id.clone(), user.clone());
        assert_eq!(total_points, 250);

        // 4. User redeems rewards
        Loyalty::redeem_reward(env.clone(), program_id.clone(), user.clone(), 2); // 100 points
        Loyalty::redeem_reward(env.clone(), program_id.clone(), user.clone(), 3); // 50 points

        // 5. Verify final state
        let remaining_points = get_user_points(&env, program_id.clone(), user.clone());
        assert_eq!(remaining_points, 100);

        let updated_program = Loyalty::get_program_info(env.clone(), program_id);
        let discount_coupon = updated_program
            .redemption_options
            .iter()
            .find(|r| r.id == 2)
            .unwrap();
        let free_shipping = updated_program
            .redemption_options
            .iter()
            .find(|r| r.id == 3)
            .unwrap();

        assert_eq!(discount_coupon.available_quantity, 4);
        assert_eq!(free_shipping.available_quantity, 19);
    });
}


// --- Whether an award stays within range ---

#[test]
fn award_checks_the_balance_stays_within_64_bits() {
    let mut c = LoyaltyContract::new();
    let id = Bytes32 { hi: 7, lo: 7 };
    let user = Address { id: 3 };
    c.create_loyalty_program(id, u32::MAX, Vec::new()).unwrap();
    assert!(award_in_range(&c, id, user, u32::MAX));
    c.put_points(id, user, u64::MAX - 10);
    assert!(!award_in_range(&c, id, user, 1));
    assert!(award_in_range(&c, id, user, 0));
    // An unknown program awards nothing.
    assert!(award_in_range(&c, Bytes32 { hi: 0, lo: 0 }, user, u32::MAX));
}
