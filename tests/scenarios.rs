use createxcrunch::config::{factory_init_config, salt_variant_from, CliArgs, Config, CreateVariant, SaltVariant};
use createxcrunch::finding::{format_finding, parse_finding, sink_header, Finding};
use createxcrunch::matcher::{count_zeros, Matcher};
use createxcrunch::reward::{validate_pattern, validate_reward, validate_zeros_threshold, RewardVariant};
use createxcrunch::address::{address_of_digest, create2_input, derive_address, nonce1_input, reference_batch};
use createxcrunch::salt::candidate_salt;
use createxcrunch::search::{process_batch, throughput, Action, Event, HashResult, Phase, Search};

const FACTORY: &str = "0xba5Ed099633D3B313e4D5F7bdc1305d3c28ba5Ed";

fn matching(p: &str) -> Matcher {
    let reward = RewardVariant::Matching { pattern: p.to_string() };
    assert!(validate_reward(&reward).is_ok());
    Matcher::compile(&reward)
}

fn address_with(first: u8, middle: u8, last: u8) -> [u8; 20] {
    let mut a = [middle; 20];
    a[0] = first;
    a[19] = last;
    a
}

#[test]
fn leading_zeros_accepts_zero_address_for_all_thresholds() {
    for n in 1u8..=20 {
        let m = Matcher::compile(&RewardVariant::LeadingZeros { zeros_threshold: n });
        assert!(m.matches(&[0u8; 20]));
    }
    let m = Matcher::compile(&RewardVariant::LeadingZeros { zeros_threshold: 1 });
    assert!(!m.matches(&address_with(0x01, 0, 0)));
}

#[test]
fn simple_pattern_matches_first_byte() {
    let m = matching("bb");
    assert!(m.matches(&address_with(0xbb, 0x11, 0x11)));
    assert!(!m.matches(&address_with(0xab, 0x11, 0x11)));
}

#[test]
fn gapped_pattern_matches_prefix_and_suffix() {
    let m = matching("ab...ef");
    assert!(m.matches(&address_with(0xab, 0x00, 0xef)));
    assert!(!m.matches(&address_with(0xab, 0x00, 0xee)));
    let upper = matching("AB...EF");
    assert!(upper.matches(&address_with(0xab, 0x00, 0xef)));
}

#[test]
fn longer_prefix_must_match_every_byte() {
    let m = matching("abcd...");
    let mut a = [0u8; 20];
    a[0] = 0xab;
    a[1] = 0xcd;
    assert!(m.matches(&a));
    a[1] = 0xce;
    assert!(!m.matches(&a));
}

#[test]
fn total_zeros_counts_every_position() {
    let mut a = [1u8; 20];
    a[3] = 0;
    a[10] = 0;
    a[19] = 0;
    assert_eq!(count_zeros(&a), 3);
    assert!(Matcher::compile(&RewardVariant::TotalZeros { zeros_threshold: 3 }).matches(&a));
    assert!(!Matcher::compile(&RewardVariant::TotalZeros { zeros_threshold: 4 }).matches(&a));
    let both = RewardVariant::LeadingAndTotalZeros { leading_zeros_threshold: 1, total_zeros_threshold: 3 };
    assert!(!Matcher::compile(&both).matches(&a));
    let either = RewardVariant::LeadingOrTotalZeros { leading_zeros_threshold: 1, total_zeros_threshold: 3 };
    assert!(Matcher::compile(&either).matches(&a));
}

#[test]
fn thresholds_outside_range_are_rejected() {
    assert_eq!(validate_zeros_threshold(0), Err("threshold must be greater than 0"));
    assert_eq!(validate_zeros_threshold(21), Err("threshold must be less than 20"));
    assert_eq!(validate_zeros_threshold(20), Ok(()));
    let r = Config::new(0, FACTORY, None, None, None, RewardVariant::LeadingZeros { zeros_threshold: 0 }, "out.txt");
    assert!(matches!(r, Err("threshold must be greater than 0")));
    let r = Config::new(0, FACTORY, None, None, None, RewardVariant::TotalZeros { zeros_threshold: 21 }, "out.txt");
    assert!(matches!(r, Err("threshold must be less than 20")));
}

#[test]
fn malformed_patterns_are_rejected() {
    assert_eq!(validate_pattern("abc"), Err("simple pattern must be exactly 2 characters"));
    assert_eq!(validate_pattern("ab...cde"), Err("trailing part must be exactly 2 characters"));
    assert_eq!(validate_pattern(""), Err("pattern cannot be empty"));
    assert_eq!(validate_pattern("ab...cd...ef"), Err("pattern must have exactly one '...' separator"));
    assert_eq!(validate_pattern("...ef"), Err("leading part of pattern cannot be empty"));
    assert_eq!(validate_pattern("abc...ef"), Err("leading part must have even number of characters"));
    assert_eq!(validate_pattern("zz...ef"), Err("leading part must contain only hex characters"));
    assert_eq!(validate_pattern("ab...eg"), Err("trailing part must contain only hex characters"));
    assert_eq!(validate_pattern("g0"), Err("pattern must contain only hex characters"));
    assert_eq!(validate_pattern("ab...ef"), Ok(()));
    assert_eq!(validate_pattern("abcd..."), Ok(()));
    let r = Config::new(0, FACTORY, None, None, None, RewardVariant::Matching { pattern: "abc".to_string() }, "o");
    assert!(matches!(r, Err("simple pattern must be exactly 2 characters")));
}

#[test]
fn salt_variant_precedence() {
    match salt_variant_from(Some(5), Some([0u8; 20])) {
        SaltVariant::Crosschain { chain_id } => {
            let mut w = [0u8; 32];
            w[31] = 5;
            assert_eq!(chain_id, w);
        }
        _ => panic!("expected Crosschain"),
    }
    match salt_variant_from(None, Some([0xaa; 20])) {
        SaltVariant::Sender { calling_address } => assert_eq!(calling_address, [0xaa; 20]),
        _ => panic!("expected Sender"),
    }
    assert!(matches!(salt_variant_from(None, None), SaltVariant::Random));
    assert!(matches!(salt_variant_from(None, Some([0u8; 20])), SaltVariant::Random));
    assert!(matches!(salt_variant_from(Some(1), Some([0xaa; 20])), SaltVariant::CrosschainSender { .. }));
}

#[test]
fn config_decodes_and_derives_variants() {
    let caller = "0x0000000000000000000000000000000000000000";
    let reward = RewardVariant::LeadingZeros { zeros_threshold: 2 };
    let c = Config::new(3, FACTORY, Some(caller), Some(5), None, reward, "out.txt").unwrap();
    assert_eq!(c.gpu_device, 3);
    assert_eq!(c.factory_address[0], 0xba);
    assert_eq!(c.factory_address[19], 0xed);
    assert!(matches!(c.salt_variant, SaltVariant::Crosschain { .. }));
    assert!(matches!(c.create_variant, CreateVariant::Create3));
    assert_eq!(c.output, "out.txt");

    let hash = "11".repeat(32);
    let reward = RewardVariant::LeadingZeros { zeros_threshold: 2 };
    let c = Config::new(0, FACTORY, None, None, Some(&hash), reward, "o").unwrap();
    match c.create_variant {
        CreateVariant::Create2 { init_code_hash } => assert_eq!(init_code_hash, [0x11; 32]),
        CreateVariant::Create3 => panic!("expected Create2"),
    }
}

#[test]
fn config_rejects_bad_hex_and_lengths() {
    let reward = || RewardVariant::LeadingZeros { zeros_threshold: 2 };
    assert!(matches!(
        Config::new(0, "0xzz", None, None, None, reward(), "o"),
        Err("could not decode factory address argument")
    ));
    assert!(matches!(
        Config::new(0, "0xabcd", None, None, None, reward(), "o"),
        Err("invalid length for factory address argument")
    ));
    assert!(matches!(
        Config::new(0, FACTORY, Some("123"), None, None, reward(), "o"),
        Err("could not decode calling address argument")
    ));
    assert!(matches!(
        Config::new(0, FACTORY, Some("aaaa"), None, None, reward(), "o"),
        Err("invalid length for calling address argument")
    ));
    assert!(matches!(
        Config::new(0, FACTORY, None, None, Some("1122"), reward(), "o"),
        Err("invalid length for init code hash argument")
    ));
    assert!(matches!(
        Config::new(0, FACTORY, None, None, Some("xy"), reward(), "o"),
        Err("could not decode init code hash argument")
    ));
}

#[test]
fn config_checks_mixed_case_checksums() {
    let reward = || RewardVariant::LeadingZeros { zeros_threshold: 2 };
    let lower = "0xba5ed099633d3b313e4d5f7bdc1305d3c28ba5ed";
    assert!(Config::new(0, lower, None, None, None, reward(), "o").is_ok());
    let bad = "0xBA5ed099633D3B313e4D5F7bdc1305d3c28ba5Ed";
    assert!(matches!(
        Config::new(0, bad, None, None, None, reward(), "o"),
        Err("factory address uses invalid checksum")
    ));
    let no_prefix = "ba5Ed099633D3B313e4D5F7bdc1305d3c28ba5Ed";
    assert!(Config::new(0, no_prefix, None, None, None, reward(), "o").is_ok());
    assert!(matches!(
        Config::new(0, FACTORY, Some("0xAAaaaaaaaaaaaaaaaaaaaaaaaaaaaaaaaaaaaaaa"), None, None, reward(), "o"),
        Err("caller address uses invalid checksum")
    ));
}

#[test]
fn finding_line_round_trip() {
    let address: [u8; 20] = [
        0xd8, 0xda, 0x6b, 0xf2, 0x69, 0x64, 0xaf, 0x9d, 0x7e, 0xed, 0x9e, 0x03, 0xe5, 0x34, 0x15, 0xd3,
        0x7a, 0xa9, 0x60, 0x45,
    ];
    let mut salt = [0u8; 32];
    salt[0] = 0x2a;
    salt[31] = 0xff;
    let f = Finding { salt, address };
    let line = format_finding(&f);
    let text = String::from_utf8(line.clone()).unwrap();
    assert_eq!(
        text,
        format!("0x2a{}ff -> 0xd8dA6BF26964aF9D7eEd9e03E53415D37aA96045", "00".repeat(30))
    );
    let back = parse_finding(&line).unwrap();
    assert_eq!(back.salt, salt);
    assert_eq!(back.address, address);
    assert!(parse_finding(b"# Format: salt -> ethereum_address").is_none());
}

#[test]
fn batch_with_stub_oracle_records_one_finding() {
    let m = Matcher::compile(&RewardVariant::LeadingZeros { zeros_threshold: 20 });
    let mut second = [0u8; 20];
    second[0] = 0x12;
    second[19] = 0x34;
    let results = vec![
        HashResult { counter: 7, address: [0u8; 20] },
        HashResult { counter: 8, address: second },
    ];
    let found = process_batch(&m, &SaltVariant::Random, &results);
    assert_eq!(found.len(), 1);
    assert_eq!(found[0].address, [0u8; 20]);
    assert_eq!(found[0].salt, candidate_salt(&SaltVariant::Random, 7));
    let line = format_finding(&found[0]);
    let back = parse_finding(&line).unwrap();
    assert_eq!(back.salt, found[0].salt);
    assert_eq!(back.address, [0u8; 20]);
}

#[test]
fn candidate_salt_layouts() {
    let s = candidate_salt(&SaltVariant::Random, 0x0102030405060708);
    assert_eq!(&s[0..8], &[8, 7, 6, 5, 4, 3, 2, 1]);
    assert_eq!(&s[8..], &[0u8; 24]);
    let s = candidate_salt(&SaltVariant::Sender { calling_address: [0xaa; 20] }, 0x0102);
    assert_eq!(&s[0..20], &[0xaa; 20]);
    assert_eq!(&s[20..22], &[2, 1]);
    assert_eq!(&s[22..], &[0u8; 10]);
    let mut w = [0u8; 32];
    w[31] = 5;
    let s = candidate_salt(&SaltVariant::Crosschain { chain_id: w }, 3);
    assert_eq!(s[0], 3);
    assert_eq!(s[31], 5);
    let s = candidate_salt(&SaltVariant::CrosschainSender { chain_id: w, calling_address: [0xaa; 20] }, 0x0504030201);
    assert_eq!(&s[20..24], &[1, 2, 3, 4]);
    assert_eq!(s[31], 5);
}

#[test]
fn search_steps_through_phases() {
    let mut s = Search::new(10);
    assert!(matches!(s.step(Event::Initialized), Action::Ignore));
    assert!(matches!(s.step(Event::Start), Action::Initialize));
    assert!(matches!(s.phase, Phase::Initializing));
    assert!(matches!(s.step(Event::Initialized), Action::Dispatch { start: 0, size: 10, report: false }));
    assert!(matches!(
        s.step(Event::BatchDone { findings: 1, now_ms: 500 }),
        Action::Dispatch { start: 10, size: 10, report: false }
    ));
    assert!(matches!(
        s.step(Event::BatchDone { findings: 0, now_ms: 1200 }),
        Action::Dispatch { start: 20, size: 10, report: true }
    ));
    assert_eq!(s.batches, 2);
    assert_eq!(s.found, 1);
    assert_eq!(s.last_report_ms, 1200);
    assert!(matches!(s.step(Event::Cancelled), Action::Stop));
    assert!(matches!(s.phase, Phase::Stopped));
    assert!(matches!(s.step(Event::Start), Action::Stop));
    assert_eq!(s.counter, 20);
}

#[test]
fn search_stops_when_counter_space_is_spent() {
    let mut s = Search::new(u64::MAX / 2 + 1);
    s.step(Event::Start);
    s.step(Event::Initialized);
    assert!(matches!(s.step(Event::BatchDone { findings: 0, now_ms: 0 }), Action::Stop));
    assert!(matches!(s.phase, Phase::Stopped));
}

#[test]
fn throughput_per_second() {
    assert_eq!(throughput(5_000_000, 2_000), 2_500_000);
    assert_eq!(throughput(10, 0), 0);
    assert_eq!(throughput(u64::MAX, 1), u64::MAX);
}

#[test]
fn sink_header_records_pattern_and_start() {
    let h = sink_header(&RewardVariant::Matching { pattern: "ab...ef".to_string() }, 1700000000);
    assert_eq!(
        String::from_utf8(h).unwrap(),
        "# Mining for addresses matching pattern ab...ef\n# Format: salt -> ethereum_address\n# Started: 1700000000\n\n"
    );
    let h = sink_header(&RewardVariant::LeadingZeros { zeros_threshold: 3 }, 0);
    assert_eq!(
        String::from_utf8(h).unwrap(),
        "# Mining for addresses matching pattern\n# Format: salt -> ethereum_address\n# Started: 0\n\n"
    );
}

#[test]
fn distinct_counters_give_distinct_salts() {
    let v = SaltVariant::Sender { calling_address: [0xaa; 20] };
    assert_ne!(candidate_salt(&v, 1), candidate_salt(&v, 2));
    assert_ne!(candidate_salt(&SaltVariant::Random, 1 << 40), candidate_salt(&SaltVariant::Random, 0));
}

#[test]
fn factory_init_config_builds_create3_runs() {
    let args = CliArgs {
        factory: FACTORY.to_string(),
        caller: None,
        chain_id: Some(5),
        gpu_device_id: 1,
        zeros: None,
        total: None,
        either: false,
        pattern: Some("0xab...ef".to_string()),
        output: "out.txt".to_string(),
    };
    let c = factory_init_config(&args).unwrap();
    assert!(matches!(c.create_variant, CreateVariant::Create3));
    assert!(matches!(&c.reward, RewardVariant::Matching { pattern } if pattern == "ab...ef"));
    assert!(matches!(c.salt_variant, SaltVariant::Crosschain { .. }));
    let bad = CliArgs { zeros: Some(0), pattern: None, ..args };
    assert_eq!(factory_init_config(&bad).err(), Some("threshold must be greater than 0".to_string()));
}

fn hex20(s: &str) -> [u8; 20] {
    let v = alloy_primitives::hex::decode(s).unwrap();
    v.try_into().unwrap()
}

#[test]
fn create2_matches_the_standard_example() {
    let init_code_hash = alloy_primitives::keccak256([0u8]).0;
    let create = CreateVariant::Create2 { init_code_hash };
    let a = derive_address(&create, &[0u8; 20], &[0u8; 32], &[0u8; 32]);
    assert_eq!(a, hex20("4D1A2e2bB4F88F0250f26Ffff098B0b30B26BF38"));
    let input = create2_input(&[0x11; 20], &[0x22; 32], &[0x33; 32]);
    assert_eq!(input.len(), 85);
    assert_eq!(input[0], 0xff);
    assert_eq!(input[1], 0x11);
    assert_eq!(input[21], 0x22);
    assert_eq!(input[53], 0x33);
}

#[test]
fn create3_goes_through_the_proxy() {
    let factory = [0xba; 20];
    let salt = [0x07; 32];
    let bootstrap = [0x21; 32];
    let proxy_digest = alloy_primitives::keccak256(create2_input(&factory, &salt, &bootstrap)).0;
    let proxy = address_of_digest(&proxy_digest);
    assert_eq!(&proxy[..], &proxy_digest[12..]);
    let n = nonce1_input(&proxy);
    assert_eq!(n.len(), 23);
    assert_eq!(&n[..2], &[0xd6, 0x94]);
    assert_eq!(n[22], 0x01);
    let expected = alloy_primitives::keccak256(&n).0;
    let a = derive_address(&CreateVariant::Create3, &factory, &salt, &bootstrap);
    assert_eq!(&a[..], &expected[12..]);
    assert_ne!(a, proxy);
}

#[test]
fn reference_batch_feeds_the_evaluator() {
    let factory = [0xba; 20];
    let results = reference_batch(&CreateVariant::Create3, &SaltVariant::Random, &factory, &[0x21; 32], 100, 4);
    assert_eq!(results.len(), 4);
    for (i, r) in results.iter().enumerate() {
        assert_eq!(r.counter, 100 + i as u64);
        let salt = candidate_salt(&SaltVariant::Random, r.counter);
        assert_eq!(r.address, derive_address(&CreateVariant::Create3, &factory, &salt, &[0x21; 32]));
    }
    let first = results[0].address[0];
    let m = matching(&format!("{:02x}", first));
    let found = process_batch(&m, &SaltVariant::Random, &results);
    assert!(!found.is_empty());
    assert_eq!(found[0].address, results[0].address);
}
