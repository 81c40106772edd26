use saika_red_packet::enums::DistributionMod;
use saika_red_packet::enums::Token;
use saika_red_packet::errors::ContractError;
use saika_red_packet::red_packet::RedPacket;
use saika_red_packet::string_kv::StringSet;
use saika_red_packet::utils::average_sub;
use saika_red_packet::utils::gen_range;
use saika_red_packet::utils::rand_u128;
use saika_red_packet::utils::random_sub;

fn new_packet(
    amount: u128,
    split: usize,
    split_mod: DistributionMod,
    white_list: Option<StringSet>,
) -> RedPacket {
    RedPacket::new_valid(
        Token::NEAR,
        None,
        "owner".to_string(),
        amount,
        split,
        split_mod,
        None,
        white_list,
        7,
    )
    .unwrap()
}

fn claimers_sum(p: &RedPacket) -> u128 {
    p.claimers.entries.iter().map(|e| e.1).sum()
}

#[test]
fn validity_accepts_exact_bounds() {
    assert!(RedPacket::new_valid(
        Token::NEAR,
        None,
        "owner".to_string(),
        100,
        100,
        DistributionMod::Average,
        Some("m".repeat(100)),
        None,
        0,
    )
    .is_ok());
}

#[test]
fn validity_rejects_zero_split() {
    let r = RedPacket::new_valid(
        Token::NEAR,
        None,
        "owner".to_string(),
        10,
        0,
        DistributionMod::Average,
        None,
        None,
        0,
    );
    assert!(matches!(r, Err(ContractError::InvalidParameter)));
}

#[test]
fn validity_rejects_oversized_split() {
    let r = RedPacket::new_valid(
        Token::NEAR,
        None,
        "owner".to_string(),
        1000,
        101,
        DistributionMod::Average,
        None,
        None,
        0,
    );
    assert!(matches!(r, Err(ContractError::InvalidParameter)));
}

#[test]
fn validity_rejects_amount_below_split() {
    let r = RedPacket::new_valid(
        Token::NEAR,
        None,
        "owner".to_string(),
        4,
        5,
        DistributionMod::Average,
        None,
        None,
        0,
    );
    assert!(matches!(r, Err(ContractError::InvalidParameter)));
}

#[test]
fn validity_rejects_long_message() {
    let r = RedPacket::new_valid(
        Token::NEAR,
        None,
        "owner".to_string(),
        10,
        2,
        DistributionMod::Average,
        Some("m".repeat(101)),
        None,
        0,
    );
    assert!(matches!(r, Err(ContractError::InvalidParameter)));
}

#[test]
fn validity_rejects_whitelist_size_mismatch() {
    let mut wl = StringSet::new();
    wl.insert("a".to_string());
    let r = RedPacket::new_valid(
        Token::NEAR,
        None,
        "owner".to_string(),
        10,
        2,
        DistributionMod::Average,
        None,
        Some(wl),
        0,
    );
    assert!(matches!(r, Err(ContractError::InvalidParameter)));
}

#[test]
fn validity_rejects_inconsistent_asset_kind() {
    let r = RedPacket::new_valid(
        Token::NEAR,
        Some("token".to_string()),
        "owner".to_string(),
        10,
        2,
        DistributionMod::Average,
        None,
        None,
        0,
    );
    assert!(matches!(r, Err(ContractError::InvalidParameter)));
    let r = RedPacket::new_valid(
        Token::FungibleToken,
        None,
        "owner".to_string(),
        10,
        2,
        DistributionMod::Average,
        None,
        None,
        0,
    );
    assert!(matches!(r, Err(ContractError::InvalidParameter)));
}

#[test]
fn average_five_claims_of_twenty() {
    let mut p = new_packet(100, 5, DistributionMod::Average, None);
    for i in 0..5 {
        let claimer = format!("claimer{}", i);
        let amount = p.virtual_claim(claimer, None, 0, 50).unwrap();
        assert_eq!(amount, 20);
    }
    assert_eq!(p.current_balance, 0);
    assert!(p.is_run_out());
    assert_eq!(p.run_out_timestamp, Some(50));
}

#[test]
fn average_remainder_goes_to_last_claimer() {
    let mut p = new_packet(10, 3, DistributionMod::Average, None);
    assert_eq!(p.virtual_claim("a".to_string(), None, 0, 0).unwrap(), 3);
    assert_eq!(p.virtual_claim("b".to_string(), None, 0, 0).unwrap(), 3);
    assert_eq!(p.virtual_claim("c".to_string(), None, 0, 0).unwrap(), 4);
    assert_eq!(p.current_balance, 0);
}

#[test]
fn double_claim_fails() {
    let mut p = new_packet(100, 5, DistributionMod::Average, None);
    p.virtual_claim("a".to_string(), None, 0, 0).unwrap();
    let r = p.virtual_claim("a".to_string(), None, 0, 0);
    assert!(matches!(r, Err(ContractError::NoDoubleClaim)));
    assert_eq!(p.current_balance, 80);
    assert_eq!(p.current_split, 4);
}

#[test]
fn whitelist_admits_only_listed_claimers() {
    let mut wl = StringSet::new();
    wl.insert("alice".to_string());
    wl.insert("bob".to_string());
    let mut p = new_packet(10, 2, DistributionMod::Average, Some(wl));
    let r = p.virtual_claim("mallory".to_string(), None, 0, 0);
    assert!(matches!(r, Err(ContractError::ClaimerNotInWhiteList)));
    assert_eq!(p.virtual_claim("alice".to_string(), None, 0, 0).unwrap(), 5);
    // alice's entry was consumed by her claim
    let r = p.virtual_claim("alice2".to_string(), None, 0, 0);
    assert!(matches!(r, Err(ContractError::ClaimerNotInWhiteList)));
    assert_eq!(p.virtual_claim("bob".to_string(), None, 0, 0).unwrap(), 5);
    assert!(p.is_run_out());
}

#[test]
fn claim_on_run_out_packet_yields_zero() {
    let mut p = new_packet(5, 1, DistributionMod::Average, None);
    assert_eq!(p.virtual_claim("a".to_string(), None, 0, 0).unwrap(), 5);
    assert_eq!(p.virtual_claim("b".to_string(), None, 0, 0).unwrap(), 0);
    assert_eq!(p.current_split, 0);
}

#[test]
fn random_claims_stay_in_bounds_and_exhaust() {
    let rands: [u128; 10] = [
        999, 3, 123456789, 42, 0, 7777, 31337, 2, 987654321, 1,
    ];
    let mut p = new_packet(1000, 10, DistributionMod::Random, None);
    let mut total: u128 = 0;
    for (i, rand) in rands.iter().enumerate() {
        let balance = p.current_balance;
        let split = p.current_split as u128;
        let amount = p
            .virtual_claim(format!("claimer{}", i), None, *rand, 9)
            .unwrap();
        assert!(amount >= 1);
        if split > 1 {
            assert!(amount <= 2 * (balance / split));
        } else {
            assert_eq!(amount, balance);
        }
        total += amount;
    }
    assert_eq!(p.current_balance, 0);
    assert!(p.is_run_out());
    assert_eq!(total, 1000);
}

#[test]
fn accounting_invariant_across_operations() {
    let mut p = new_packet(100, 4, DistributionMod::Average, None);
    p.virtual_claim("a".to_string(), None, 0, 0).unwrap();
    p.virtual_claim("b".to_string(), None, 0, 0).unwrap();
    assert_eq!(p.current_balance + claimers_sum(&p) + p.refunded_balance, 100);
    // b's transfer fails and is compensated
    p.failed_claimer("b".to_string(), 25);
    assert_eq!(p.current_balance + claimers_sum(&p) + p.refunded_balance, 100);
    assert_eq!(p.refunded_balance, 25);
    assert_eq!(p.claimers.entries.len(), 1);
    assert_eq!(p.failed_claimers.entries.len(), 1);
    // owner reclaims the rest
    let refunded = p.virtual_refund("owner".to_string(), 99).unwrap();
    assert_eq!(refunded, 75);
    assert_eq!(p.current_balance + claimers_sum(&p) + p.refunded_balance, 100);
    assert_eq!(p.current_balance, 0);
    assert!(p.is_run_out());
}

#[test]
fn refund_requires_ownership() {
    let mut p = new_packet(100, 4, DistributionMod::Average, None);
    let r = p.virtual_refund("stranger".to_string(), 0);
    assert!(matches!(r, Err(ContractError::NoPermission)));
    assert_eq!(p.current_balance, 100);
}

#[test]
fn refund_on_run_out_packet_yields_zero() {
    let mut p = new_packet(5, 1, DistributionMod::Average, None);
    p.virtual_claim("a".to_string(), None, 0, 0).unwrap();
    assert_eq!(p.virtual_refund("owner".to_string(), 0).unwrap(), 0);
}

#[test]
fn average_sub_is_floor_division() {
    assert_eq!(average_sub(100, 5), 20);
    assert_eq!(average_sub(10, 3), 3);
    assert_eq!(average_sub(7, 7), 1);
}

#[test]
fn random_sub_single_claimant_takes_all() {
    assert_eq!(random_sub(123, 1, None, 999), 123);
}

#[test]
fn random_sub_exact_draw() {
    // max share = min(100 - 1, 2 * (100 / 2)) = 99; draw = 1 + 13 % 99 = 14
    assert_eq!(random_sub(100, 2, None, 13), 14);
    // custom lower bound: max = min(100 - 5, 2 * 50) = 95; 5 + 7 % 91 = 12
    assert_eq!(random_sub(100, 2, Some(5), 7), 12);
}

#[test]
fn gen_range_wraps_into_interval() {
    assert_eq!(gen_range(7, 5, 10), 7);
    assert_eq!(gen_range(12, 5, 10), 7);
    for rand in 0..20u128 {
        let r = gen_range(rand, 3, 8);
        assert!((3..8).contains(&r));
    }
}

#[test]
fn rand_u128_reads_little_endian() {
    let mut seed = vec![0u8; 32];
    seed[0] = 0x34;
    seed[1] = 0x12;
    assert_eq!(rand_u128(&seed), 0x1234);
    let seed = vec![0xffu8; 32];
    assert_eq!(rand_u128(&seed), u128::MAX);
    let mut seed = vec![0u8; 32];
    seed[15] = 1;
    seed[16] = 0xab; // beyond the first sixteen bytes: ignored
    assert_eq!(rand_u128(&seed), 1u128 << 120);
}
