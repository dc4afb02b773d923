use vstd::prelude::*;
use crate::hexdigits::{all_hex, decode_pairs};
use crate::reward::{RewardVariant, text_bytes, reward_check, validate_reward};

verus! {

/// How the deployed contract's address is derived.
pub enum CreateVariant {
    Create2 { init_code_hash: [u8; 32] },
    Create3,
}

/// Which bytes of the salt are fixed and which are searched.
pub enum SaltVariant {
    CrosschainSender { chain_id: [u8; 32], calling_address: [u8; 20] },
    Crosschain { chain_id: [u8; 32] },
    Sender { calling_address: [u8; 20] },
    Random,
}

/// The checked parameters of one search run.
pub struct Config<'a> {
    pub gpu_device: u8,
    pub factory_address: [u8; 20],
    pub salt_variant: SaltVariant,
    pub create_variant: CreateVariant,
    pub reward: RewardVariant,
    pub output: &'a str,
}

/// The digits of a hex text: without a leading `0x` or `0X`.
pub open spec fn hex_body(b: Seq<u8>) -> Seq<u8> {
    if b.len() >= 2 && b[0] == 48u8 && (b[1] == 120u8 || b[1] == 88u8) {
        b.skip(2)
    } else {
        b
    }
}

/// Whether a hex text decodes: even length, and only hex digits after the prefix.
pub open spec fn hex_decodable(b: Seq<u8>) -> bool {
    b.len() % 2 == 0 && all_hex(hex_body(b))
}

/// The bytes that a decodable hex text denotes.
pub open spec fn hex_decoded(b: Seq<u8>) -> Seq<u8> {
    decode_pairs(hex_body(b))
}

/// Whether the text holds an ASCII upper-case letter.
pub open spec fn has_upper(b: Seq<u8>) -> bool {
    exists|i: int| 0 <= i < b.len() && 65 <= #[trigger] b[i] <= 90
}

/// The text without a leading `0x`.
pub open spec fn strip_0x(s: Seq<char>) -> Seq<char> {
    if s.len() >= 2 && s[0] == '0' && s[1] == 'x' {
        s.skip(2)
    } else {
        s
    }
}

/// Whether `0x` followed by `digits` is a correctly checksummed (EIP-55) address.
pub uninterp spec fn checksum_valid(digits: Seq<char>) -> bool;

/// An address text passes the casing rule: either it has no upper-case
/// letter, or its mixed case is the address's checksum.
pub open spec fn casing_ok(s: Seq<char>) -> bool {
    !has_upper(text_bytes(s)) || checksum_valid(strip_0x(s))
}

/// All bytes are zero.
pub open spec fn all_zero(s: Seq<u8>) -> bool {
    forall|i: int| 0 <= i < s.len() ==> #[trigger] s[i] == 0
}

/// A chain id as a 32-byte big-endian word.
pub open spec fn chain_word(c: u64) -> Seq<u8> {
    Seq::new(32, |i: int| if i < 24 { 0u8 } else { ((c >> (8 * (31 - i)) as u64) & 0xff) as u8 })
}

/// The salt variant chosen from a chain id and a calling address; an all-zero
/// calling address counts as absent.
pub open spec fn salt_variant_for(v: SaltVariant, chain_id: Option<u64>, calling: Option<Seq<u8>>) -> bool {
    let sender = calling matches Some(a) && !all_zero(a);
    match v {
        SaltVariant::CrosschainSender { chain_id: w, calling_address: a } =>
            sender && chain_id is Some && w@ == chain_word(chain_id->0) && a@ == calling->0,
        SaltVariant::Crosschain { chain_id: w } => !sender && chain_id is Some && w@ == chain_word(chain_id->0),
        SaltVariant::Sender { calling_address: a } => sender && chain_id is None && a@ == calling->0,
        SaltVariant::Random => !sender && chain_id is None,
    }
}

/// The outcome of checking the raw parameters of a run, in the order the
/// rules are applied.
pub open spec fn config_check(
    factory: Seq<char>,
    calling: Option<Seq<char>>,
    init_code_hash: Option<Seq<char>>,
    reward: RewardVariant,
) -> Result<(), &'static str> {
    let fb = text_bytes(factory);
    if !hex_decodable(fb) {
        Err("could not decode factory address argument")
    } else if calling matches Some(c) && !hex_decodable(text_bytes(c)) {
        Err("could not decode calling address argument")
    } else if init_code_hash matches Some(h) && !hex_decodable(text_bytes(h)) {
        Err("could not decode init code hash argument")
    } else if hex_decoded(fb).len() != 20 {
        Err("invalid length for factory address argument")
    } else if calling matches Some(c) && hex_decoded(text_bytes(c)).len() != 20 {
        Err("invalid length for calling address argument")
    } else if init_code_hash matches Some(h) && hex_decoded(text_bytes(h)).len() != 32 {
        Err("invalid length for init code hash argument")
    } else if reward_check(reward) is Err {
        reward_check(reward)
    } else if !casing_ok(factory) {
        Err("factory address uses invalid checksum")
    } else if calling matches Some(c) && !casing_ok(c) {
        Err("caller address uses invalid checksum")
    } else {
        Ok(())
    }
}

/// Relies on alloy_primitives::hex::decode (the const-hex crate): an input of
/// odd length is refused; a leading `0x` or `0X` is dropped; every other
/// character must be a hex digit of either case, and each pair gives a byte.
#[verifier::external_body]
fn decode_hex(s: &str) -> (r: Option<Vec<u8>>)
    ensures
        r is Some <==> hex_decodable(text_bytes(s@)),
        r matches Some(v) ==> v@ == hex_decoded(text_bytes(s@)),
{
    alloy_primitives::hex::decode(s).ok()
}

/// Relies on str::strip_prefix: the text after a leading `0x`, if there is one.
#[verifier::external_body]
pub(crate) fn strip_hex_prefix(s: &str) -> (r: Option<&str>)
    ensures
        r is Some <==> (s@.len() >= 2 && s@[0] == '0' && s@[1] == 'x'),
        r matches Some(t) ==> t@ == s@.skip(2),
{
    s.strip_prefix("0x")
}

/// Relies on alloy_primitives::Address::parse_checksummed (no chain id):
/// whether `0x` followed by `digits` parses as an address whose letters are
/// cased as its EIP-55 checksum.
#[verifier::external_body]
fn checksum_accepts(digits: &str) -> (r: bool)
    ensures
        r == checksum_valid(digits@),
{
    alloy_primitives::Address::parse_checksummed(format!("0x{}", digits), None).is_ok()
}

/// Whether the text holds an ASCII upper-case letter.
fn contains_upper(s: &str) -> (r: bool)
    ensures
        r == has_upper(text_bytes(s@)),
{
    let b = s.as_bytes();
    let mut i: usize = 0;
    while i < b.len()
        invariant
            b@ == text_bytes(s@),
            i <= b@.len(),
            forall|j: int| 0 <= j < i ==> !(65 <= #[trigger] b@[j] <= 90),
        decreases b.len() - i,
    {
        if 65 <= b[i] && b[i] <= 90 {
            return true;
        }
        i += 1;
    }
    false
}

/// Applies the casing rule to an address text.
fn casing_accepted(s: &str) -> (r: bool)
    ensures
        r == casing_ok(s@),
{
    if !contains_upper(s) {
        return true;
    }
    match strip_hex_prefix(s) {
        Some(digits) => checksum_accepts(digits),
        None => checksum_accepts(s),
    }
}

/// Whether every byte is zero.
pub fn is_all_zero(s: &[u8]) -> (r: bool)
    ensures
        r == all_zero(s@),
{
    let mut i: usize = 0;
    while i < s.len()
        invariant
            i <= s@.len(),
            forall|j: int| 0 <= j < i ==> #[trigger] s@[j] == 0,
        decreases s.len() - i,
    {
        if s[i] != 0 {
            return false;
        }
        i += 1;
    }
    true
}

/// A chain id as a 32-byte big-endian word.
pub fn chain_id_word(c: u64) -> (r: [u8; 32])
    ensures
        r@ == chain_word(c),
{
    let mut w = [0u8; 32];
    let mut k: usize = 24;
    while k < 32
        invariant
            24 <= k <= 32,
            forall|i: int| 0 <= i < 24 ==> #[trigger] w@[i] == 0u8,
            forall|i: int| 24 <= i < k ==> #[trigger] w@[i] == ((c >> (8 * (31 - i)) as u64) & 0xff) as u8,
        decreases 32 - k,
    {
        w[k] = ((c >> (8 * (31 - k)) as u64) & 0xff) as u8;
        k += 1;
    }
    assert(w@ =~= chain_word(c));
    w
}

/// Picks the salt variant: a chain id and a nonzero calling address give
/// `CrosschainSender`, a chain id alone `Crosschain`, a nonzero calling
/// address alone `Sender`, and nothing `Random`.
pub fn salt_variant_from(chain_id: Option<u64>, calling_address: Option<[u8; 20]>) -> (r: SaltVariant)
    ensures
        salt_variant_for(r, chain_id, match calling_address { Some(a) => Some(a@), None => None }),
{
    let sender = match calling_address {
        Some(a) => !is_all_zero(&a),
        None => false,
    };
    match chain_id {
        Some(c) => {
            let w = chain_id_word(c);
            if sender {
                SaltVariant::CrosschainSender { chain_id: w, calling_address: calling_address.unwrap() }
            } else {
                SaltVariant::Crosschain { chain_id: w }
            }
        },
        None => {
            if sender {
                SaltVariant::Sender { calling_address: calling_address.unwrap() }
            } else {
                SaltVariant::Random
            }
        },
    }
}

/// Copies a 20-byte vector into an array.
fn array20(v: &Vec<u8>) -> (r: [u8; 20])
    requires
        v@.len() == 20,
    ensures
        r@ == v@,
{
    let mut a = [0u8; 20];
    let mut i: usize = 0;
    while i < 20
        invariant
            v@.len() == 20,
            i <= 20,
            forall|j: int| 0 <= j < i ==> #[trigger] a@[j] == v@[j],
        decreases 20 - i,
    {
        a[i] = v[i];
        i += 1;
    }
    assert(a@ =~= v@);
    a
}

/// Copies a 32-byte vector into an array.
fn array32(v: &Vec<u8>) -> (r: [u8; 32])
    requires
        v@.len() == 32,
    ensures
        r@ == v@,
{
    let mut a = [0u8; 32];
    let mut i: usize = 0;
    while i < 32
        invariant
            v@.len() == 32,
            i <= 32,
            forall|j: int| 0 <= j < i ==> #[trigger] a@[j] == v@[j],
        decreases 32 - i,
    {
        a[i] = v[i];
        i += 1;
    }
    assert(a@ =~= v@);
    a
}

/// Decodes an optional hex text.
fn decode_optional(s: Option<&str>) -> (r: Option<Option<Vec<u8>>>)
    ensures
        match s {
            None => r == Some(None::<Vec<u8>>),
            Some(t) => match r {
                None => !hex_decodable(text_bytes(t@)),
                Some(d) => hex_decodable(text_bytes(t@)) && d is Some && d->0@ == hex_decoded(text_bytes(t@)),
            },
        },
{
    match s {
        None => Some(None),
        Some(t) => match decode_hex(t) {
            Some(v) => Some(Some(v)),
            None => None,
        },
    }
}

impl<'a> Config<'a> {
    /// Checks and decodes the raw parameters of a run. The factory address
    /// and calling address are 20-byte hex texts and the init code hash a
    /// 32-byte one (each with an optional `0x`); mixed-case addresses must
    /// carry their checksum; the reward must be valid. Without an init code
    /// hash the run derives addresses by Create3.
    pub fn new(
        gpu_device: u8,
        factory_address_str: &str,
        calling_address_str: Option<&str>,
        chain_id: Option<u64>,
        init_code_hash: Option<&str>,
        reward: RewardVariant,
        output: &'a str,
    ) -> (r: Result<Self, &'static str>)
        ensures
            ({
                let calling = match calling_address_str { Some(c) => Some(c@), None => None };
                let hash = match init_code_hash { Some(h) => Some(h@), None => None };
                let check = config_check(factory_address_str@, calling, hash, reward);
                match r {
                    Err(e) => check == Err::<(), &'static str>(e),
                    Ok(c) => {
                        &&& check is Ok
                        &&& c.gpu_device == gpu_device
                        &&& c.factory_address@ == hex_decoded(text_bytes(factory_address_str@))
                        &&& salt_variant_for(c.salt_variant, chain_id, match calling { Some(t) => Some(hex_decoded(text_bytes(t))), None => None })
                        &&& match c.create_variant {
                            CreateVariant::Create2 { init_code_hash: h } =>
                                hash is Some && h@ == hex_decoded(text_bytes(hash->0)),
                            CreateVariant::Create3 => hash is None,
                        }
                        &&& c.reward == reward
                        &&& c.output == output
                    },
                }
            }),
    {
        let factory_vec = match decode_hex(factory_address_str) {
            Some(v) => v,
            None => return Err("could not decode factory address argument"),
        };
        let calling_vec = match decode_optional(calling_address_str) {
            Some(v) => v,
            None => return Err("could not decode calling address argument"),
        };
        let hash_vec = match decode_optional(init_code_hash) {
            Some(v) => v,
            None => return Err("could not decode init code hash argument"),
        };
        if factory_vec.len() != 20 {
            return Err("invalid length for factory address argument");
        }
        let factory_address = array20(&factory_vec);
        let calling_address: Option<[u8; 20]> = match &calling_vec {
            Some(v) => {
                if v.len() != 20 {
                    return Err("invalid length for calling address argument");
                }
                Some(array20(v))
            },
            None => None,
        };
        let create_variant = match &hash_vec {
            Some(v) => {
                if v.len() != 32 {
                    return Err("invalid length for init code hash argument");
                }
                CreateVariant::Create2 { init_code_hash: array32(v) }
            },
            None => CreateVariant::Create3,
        };
        validate_reward(&reward)?;
        let salt_variant = salt_variant_from(chain_id, calling_address);
        if !casing_accepted(factory_address_str) {
            return Err("factory address uses invalid checksum");
        }
        match calling_address_str {
            Some(c) => {
                if !casing_accepted(c) {
                    return Err("caller address uses invalid checksum");
                }
            },
            None => {},
        }
        Ok(Config { gpu_device, factory_address, salt_variant, create_variant, reward, output })
    }
}

/// The command-line parameters of a run, as plain values.
pub struct CliArgs {
    pub factory: String,
    pub caller: Option<String>,
    pub chain_id: Option<u64>,
    pub gpu_device_id: u8,
    pub zeros: Option<u8>,
    pub total: Option<u8>,
    pub either: bool,
    pub pattern: Option<String>,
    pub output: String,
}

/// The parameters name exactly one reward: leading zeros, total zeros, both
/// (joined by `either` into a disjunction), or a pattern.
pub open spec fn reward_selected(args: CliArgs) -> bool {
    match (args.zeros, args.total, args.either, args.pattern) {
        (Some(_), None, false, None) => true,
        (None, Some(_), false, None) => true,
        (Some(_), Some(_), _, None) => true,
        (None, None, false, Some(_)) => true,
        _ => false,
    }
}

/// `r` is the reward that the parameters name; a pattern loses a leading `0x`.
pub open spec fn reward_chosen(r: RewardVariant, args: CliArgs) -> bool {
    match r {
        RewardVariant::LeadingZeros { zeros_threshold } =>
            args.zeros == Some(zeros_threshold) && args.total is None && args.pattern is None,
        RewardVariant::TotalZeros { zeros_threshold } =>
            args.zeros is None && args.total == Some(zeros_threshold) && args.pattern is None,
        RewardVariant::LeadingAndTotalZeros { leading_zeros_threshold, total_zeros_threshold } =>
            args.zeros == Some(leading_zeros_threshold) && args.total == Some(total_zeros_threshold)
                && !args.either && args.pattern is None,
        RewardVariant::LeadingOrTotalZeros { leading_zeros_threshold, total_zeros_threshold } =>
            args.zeros == Some(leading_zeros_threshold) && args.total == Some(total_zeros_threshold)
                && args.either && args.pattern is None,
        RewardVariant::Matching { pattern } =>
            args.zeros is None && args.total is None && args.pattern is Some
                && pattern@ == strip_0x(args.pattern->0@),
    }
}

/// The reward that the command-line parameters name.
pub fn reward_from_args(args: &CliArgs) -> (r: RewardVariant)
    requires
        reward_selected(*args),
    ensures
        reward_chosen(r, *args),
{
    match (args.zeros, args.total) {
        (Some(zeros), None) => RewardVariant::LeadingZeros { zeros_threshold: zeros },
        (None, Some(total)) => RewardVariant::TotalZeros { zeros_threshold: total },
        (Some(zeros), Some(total)) => {
            if args.either {
                RewardVariant::LeadingOrTotalZeros {
                    leading_zeros_threshold: zeros,
                    total_zeros_threshold: total,
                }
            } else {
                RewardVariant::LeadingAndTotalZeros {
                    leading_zeros_threshold: zeros,
                    total_zeros_threshold: total,
                }
            }
        },
        (None, None) => {
            let raw = args.pattern.as_ref().unwrap().as_str();
            let pattern = match strip_hex_prefix(raw) {
                Some(t) => t.to_owned(),
                None => raw.to_owned(),
            };
            RewardVariant::Matching { pattern }
        },
    }
}

/// Builds the run's configuration from the command-line parameters, with
/// addresses derived by Create3; a check that fails gives its message.
pub fn factory_init_config(args: &CliArgs) -> (r: Result<Config<'_>, String>)
    requires
        reward_selected(*args),
    ensures
        exists|rw: RewardVariant|
            {
                let calling = match args.caller { Some(c) => Some(c@), None => None };
                &&& #[trigger] reward_chosen(rw, *args)
                &&& match r {
                    Err(e) => config_check(args.factory@, calling, None, rw) matches Err(m) && e@ == m@,
                    Ok(c) => {
                        &&& config_check(args.factory@, calling, None, rw) is Ok
                        &&& c.gpu_device == args.gpu_device_id
                        &&& c.factory_address@ == hex_decoded(text_bytes(args.factory@))
                        &&& salt_variant_for(c.salt_variant, args.chain_id, match calling { Some(t) => Some(hex_decoded(text_bytes(t))), None => None })
                        &&& c.create_variant is Create3
                        &&& c.reward == rw
                        &&& c.output@ == args.output@
                    },
                }
            },
{
    let reward = reward_from_args(args);
    let caller: Option<&str> = match &args.caller {
        Some(c) => Some(c.as_str()),
        None => None,
    };
    match Config::new(
        args.gpu_device_id,
        args.factory.as_str(),
        caller,
        args.chain_id,
        None,
        reward,
        args.output.as_str(),
    ) {
        Ok(c) => Ok(c),
        Err(e) => Err(e.to_owned()),
    }
}

} // verus!
