//! The global state-info record: pool accumulators, round counter, per-round
//! reward with its halving schedule, the rolling random seed, and the
//! one-time migration allow-lists.

use vstd::prelude::*;
use sha2::Digest;
use crate::qty::{E8s, TCycles, Quantity, pow10};
use crate::types::{
    AccountId,
    POS_ROUND_DELAY_NS,
    POS_ROUND_END_REWARD_E8S,
    POS_ROUND_START_REWARD_E8S,
    POS_ROUNDS_PER_HALVING,
    TCYCLE_POS_ROUND_BASE_FEE,
};

verus! {

/// What one step of the seed hash chain returns: the SHA-256 digest of the
/// fixed domain-separation tag followed by the seed. A function of the seed
/// alone, since the tag is a constant.
pub uninterp spec fn seed_chain_next(seed: Seq<u8>) -> Seq<u8>;

/// Relies on sha2::Sha256: the digest of the domain tag and the seed depends
/// on those bytes alone, and is 32 bytes long.
#[verifier::external_body]
fn seed_chain_step(seed: &Vec<u8>) -> (r: Vec<u8>)
    ensures
        r@ == seed_chain_next(seed@),
        r@.len() == 32,
{
    let mut hasher = sha2::Sha256::new();
    hasher.update(b"stl-satslink-update-seed");
    hasher.update(seed.as_slice());
    hasher.finalize().to_vec()
}

/// The little-endian value of a byte sequence.
pub open spec fn le_bytes_val(s: Seq<u8>) -> nat
    decreases s.len(),
{
    if s.len() == 0 {
        0
    } else {
        (s[0] + 256 * le_bytes_val(s.drop_first())) as nat
    }
}

/// 256 to the power `n`.
pub open spec fn pow256(n: nat) -> nat
    decreases n,
{
    if n == 0 {
        1
    } else {
        256 * pow256((n - 1) as nat)
    }
}

pub proof fn lemma_le_bytes_push(s: Seq<u8>, b: u8)
    ensures
        le_bytes_val(s.push(b)) == le_bytes_val(s) + b * pow256(s.len()),
    decreases s.len(),
{
    if s.len() == 0 {
        assert(s.push(b)[0] == b);
        assert(s.push(b).drop_first() =~= Seq::<u8>::empty());
        assert(le_bytes_val(Seq::<u8>::empty()) == 0);
        assert(pow256(0) == 1);
    } else {
        lemma_le_bytes_push(s.drop_first(), b);
        assert(s.push(b)[0] == s[0]);
        assert(s.push(b).drop_first() =~= s.drop_first().push(b));
        let n1 = (s.len() - 1) as nat;
        assert(pow256(s.len()) == 256 * pow256(n1));
        assert(256 * (le_bytes_val(s.drop_first()) + b * pow256(n1)) == 256 * le_bytes_val(
            s.drop_first(),
        ) + b * (256 * pow256(n1))) by (nonlinear_arith);
    }
}

pub proof fn lemma_le_bytes_bound(s: Seq<u8>)
    ensures
        le_bytes_val(s) < pow256(s.len()),
    decreases s.len(),
{
    if s.len() > 0 {
        lemma_le_bytes_bound(s.drop_first());
    }
}

/// Reads the first 8 bytes as a little-endian 64-bit value.
fn le_u64_of_first_8(seed: &Vec<u8>) -> (r: u64)
    requires
        seed@.len() >= 8,
    ensures
        r == le_bytes_val(seed@.subrange(0, 8)),
{
    let mut acc: u128 = 0;
    let mut mult: u128 = 1;
    let mut i: usize = 0;
    proof {
        assert(seed@.subrange(0, 0) =~= Seq::<u8>::empty());
        assert(le_bytes_val(Seq::<u8>::empty()) == 0);
        assert(pow256(8) >= 1) by {
            reveal_with_fuel(pow256, 9);
        }
        assert(pow256(0) == 1);
        assert(pow256(8) == 0x1_0000_0000_0000_0000) by {
            reveal_with_fuel(pow256, 9);
        }
    }
    while i < 8
        invariant
            seed@.len() >= 8,
            i <= 8,
            mult == pow256(i as nat),
            acc == le_bytes_val(seed@.subrange(0, i as int)),
            acc < mult,
            mult <= pow256(8),
        decreases 8 - i,
    {
        let b = seed[i];
        proof {
            assert(seed@.subrange(0, i + 1) =~= seed@.subrange(0, i as int).push(seed@[i as int]));
            lemma_le_bytes_push(seed@.subrange(0, i as int), seed@[i as int]);
            assert(pow256((i + 1) as nat) == 256 * pow256(i as nat));
            assert(pow256(8) == 0x1_0000_0000_0000_0000) by {
                reveal_with_fuel(pow256, 9);
            }
            assert(acc + b * mult < 256 * mult) by (nonlinear_arith)
                requires
                    acc < mult,
                    b < 256,
                    mult >= 1,
            ;
        }
        acc = acc + (b as u128) * mult;
        if i < 7 {
            mult = mult * 256;
        } else {
            proof {
                assert(pow256(8) == 256 * pow256(7));
            }
            mult = mult * 256;
        }
        i = i + 1;
    }
    proof {
        assert(pow256(8) == 0x1_0000_0000_0000_0000) by {
            reveal_with_fuel(pow256, 9);
        }
    }
    acc as u64
}

/// `s` with every occurrence of `x` removed, order kept.
pub open spec fn ids_without(s: Seq<u64>, x: u64) -> Seq<u64>
    decreases s.len(),
{
    if s.len() == 0 {
        s
    } else if s[0] == x {
        ids_without(s.drop_first(), x)
    } else {
        seq![s[0]] + ids_without(s.drop_first(), x)
    }
}

pub proof fn lemma_seq_contains_cons(s: Seq<u64>, y: u64)
    requires
        s.len() > 0,
    ensures
        s.contains(y) <==> (s[0] == y || s.drop_first().contains(y)),
{
    if s.contains(y) {
        let i = choose|i: int| 0 <= i < s.len() && s[i] == y;
        if i > 0 {
            assert(s.drop_first()[i - 1] == y);
        }
    }
    if s.drop_first().contains(y) {
        let i = choose|i: int| 0 <= i < s.drop_first().len() && s.drop_first()[i] == y;
        assert(s[i + 1] == y);
    }
}

pub proof fn lemma_ids_without_props(s: Seq<u64>, x: u64)
    ensures
        !ids_without(s, x).contains(x),
        forall|y: u64| y != x ==> (ids_without(s, x).contains(y) <==> s.contains(y)),
    decreases s.len(),
{
    if s.len() == 0 {
        assert(forall|y: u64| !s.contains(y));
    } else {
        lemma_ids_without_props(s.drop_first(), x);
        lemma_seq_contains_cons(s, x);
        let t = ids_without(s, x);
        if s[0] == x {
            assert forall|y: u64| y != x implies (t.contains(y) <==> s.contains(y)) by {
                lemma_seq_contains_cons(s, y);
            }
        } else {
            assert(t[0] == s[0]);
            assert(t.drop_first() =~= ids_without(s.drop_first(), x));
            assert(t.len() > 0);
            lemma_seq_contains_cons(t, x);
            assert forall|y: u64| y != x implies (t.contains(y) <==> s.contains(y)) by {
                lemma_seq_contains_cons(s, y);
                lemma_seq_contains_cons(t, y);
            }
        }
    }
}

/// Whether `l` holds `x`.
pub fn ids_contains(l: &Vec<u64>, x: u64) -> (r: bool)
    ensures
        r == l@.contains(x),
{
    let n = l.len();
    let mut i: usize = 0;
    while i < n
        invariant
            n == l@.len(),
            i <= n,
            forall|j: int| 0 <= j < i ==> l@[j] != x,
        decreases n - i,
    {
        if l[i] == x {
            return true;
        }
        i = i + 1;
    }
    false
}

/// A copy of `l` with every occurrence of `x` removed.
pub fn ids_without_exec(l: &Vec<u64>, x: u64) -> (r: Vec<u64>)
    ensures
        r@ == ids_without(l@, x),
{
    let n = l.len();
    let mut out: Vec<u64> = Vec::new();
    let mut i: usize = 0;
    proof {
        assert(l@.skip(0) =~= l@);
        assert(out@ =~= Seq::<u64>::empty());
        assert(Seq::<u64>::empty() + ids_without(l@, x) =~= ids_without(l@, x));
    }
    while i < n
        invariant
            n == l@.len(),
            i <= n,
            ids_without(l@, x) == out@ + ids_without(l@.skip(i as int), x),
        decreases n - i,
    {
        proof {
            let u = l@.skip(i as int);
            assert(u[0] == l@[i as int]);
            assert(u.drop_first() =~= l@.skip(i + 1));
        }
        let v = l[i];
        if v != x {
            proof {
                assert(out@ + (seq![v] + ids_without(l@.skip(i + 1), x)) =~= out@.push(v)
                    + ids_without(l@.skip(i + 1), x));
            }
            out.push(v);
        }
        i = i + 1;
    }
    proof {
        assert(l@.skip(n as int) =~= Seq::<u64>::empty());
        assert(ids_without(Seq::<u64>::empty(), x) =~= Seq::<u64>::empty());
        assert(out@ + Seq::<u64>::empty() =~= out@);
    }
    out
}

/// The global accounting record.
///
/// `total_pledge_token_supply` always equals the sum of all live pledge
/// positions' amounts — the stores in [`crate::state`] move the two in
/// lockstep. `current_token_reward` starts at
/// [`POS_ROUND_START_REWARD_E8S`] and only ever shrinks, never below the
/// floor, which [`Self::wf`] records.
#[derive(Clone, Debug)]
pub struct SatslinkerStateInfo {
    /// Sum of all live pledge positions' amounts.
    pub total_pledge_token_supply: E8s,
    /// Lottery pool accumulator, flushed when it exceeds the round-start
    /// reward.
    pub total_token_lottery: E8s,
    /// Developer pool accumulator, flushed the same way.
    pub total_token_dev: E8s,
    /// Total reward tokens handed out (claims plus flushed pools).
    pub total_token_minted: E8s,
    /// The reward minted and split each round.
    pub current_token_reward: E8s,
    /// Monotonically increasing round counter.
    pub current_pos_round: u64,
    /// Delay between two rounds, handed to the host's timer.
    pub pos_round_delay_ns: u64,
    /// Rolling hash-chain random state, advanced once per round.
    pub seed: Vec<u8>,
    /// Tri-state distribution gate: unset, on, or off.
    pub satslink_enabled: Option<bool>,
    /// One-time snapshot of accounts allowed to migrate a VIP position.
    pub tmp_can_vip_migrate: Option<Vec<AccountId>>,
    /// One-time snapshot of accounts allowed to migrate a pledge position.
    pub tmp_can_pledge_migrate: Option<Vec<AccountId>>,
    /// Cached external exchange rate, refreshed by an oracle call.
    pub icp_to_cycles_exchange_rate: Option<TCycles>,
}

impl Default for SatslinkerStateInfo {
    /// The empty pre-initialization record: all totals zero, no seed, every
    /// flag unset.
    fn default() -> (r: Self)
        ensures
            r.total_pledge_token_supply.units == 0,
            r.total_token_lottery.units == 0,
            r.total_token_dev.units == 0,
            r.total_token_minted.units == 0,
            r.current_token_reward.units == 0,
            r.current_pos_round == 0,
            r.pos_round_delay_ns == 0,
            r.seed@ == Seq::<u8>::empty(),
            r.satslink_enabled is None,
            r.tmp_can_vip_migrate is None,
            r.tmp_can_pledge_migrate is None,
            r.icp_to_cycles_exchange_rate is None,
            r.wf(),
    {
        let r = SatslinkerStateInfo {
            total_pledge_token_supply: Quantity::zero(),
            total_token_lottery: Quantity::zero(),
            total_token_dev: Quantity::zero(),
            total_token_minted: Quantity::zero(),
            current_token_reward: Quantity::zero(),
            current_pos_round: 0,
            pos_round_delay_ns: 0,
            seed: Vec::new(),
            satslink_enabled: None,
            tmp_can_vip_migrate: None,
            tmp_can_pledge_migrate: None,
            icp_to_cycles_exchange_rate: None,
        };
        proof {
            assert(r.seed@ =~= Seq::<u8>::empty());
        }
        r
    }
}

impl SatslinkerStateInfo {
    /// The reward never exceeds its round-start value: it is set to that
    /// value at initialization and afterwards only shrinks.
    pub open spec fn wf(&self) -> bool {
        self.current_token_reward.units <= POS_ROUND_START_REWARD_E8S
    }

    /// Seeds the record: stores the host-supplied random bytes and puts the
    /// per-round reward at its start value.
    pub fn init(&mut self, seed: Vec<u8>)
        ensures
            final(self).seed@ == seed@,
            final(self).current_token_reward.units == POS_ROUND_START_REWARD_E8S,
            final(self).pos_round_delay_ns == POS_ROUND_DELAY_NS,
            final(self).total_pledge_token_supply == old(self).total_pledge_token_supply,
            final(self).total_token_lottery == old(self).total_token_lottery,
            final(self).total_token_dev == old(self).total_token_dev,
            final(self).total_token_minted == old(self).total_token_minted,
            final(self).current_pos_round == old(self).current_pos_round,
            final(self).satslink_enabled == old(self).satslink_enabled,
            final(self).tmp_can_vip_migrate == old(self).tmp_can_vip_migrate,
            final(self).tmp_can_pledge_migrate == old(self).tmp_can_pledge_migrate,
            final(self).icp_to_cycles_exchange_rate == old(self).icp_to_cycles_exchange_rate,
            final(self).wf(),
    {
        self.seed = seed;
        self.current_token_reward = Quantity::from_u64(POS_ROUND_START_REWARD_E8S);
        self.pos_round_delay_ns = POS_ROUND_DELAY_NS;
    }

    /// The cached exchange rate, or the 8-trillion-per-unit default while no
    /// oracle answer has arrived yet.
    pub fn get_icp_to_cycles_exchange_rate(&self) -> (r: TCycles)
        ensures
            self.icp_to_cycles_exchange_rate is Some ==> r
                == self.icp_to_cycles_exchange_rate->0,
            self.icp_to_cycles_exchange_rate is None ==> r.units == 8_000_000_000_000,
    {
        match &self.icp_to_cycles_exchange_rate {
            Some(rate) => *rate,
            None => Quantity::new(8_000_000_000_000),
        }
    }

    /// Caches a fresh oracle answer, given per-myriad-units (4 fractional
    /// digits) and rescaled to cycle units (12 fractional digits).
    pub fn update_icp_to_cycles_exchange_rate(&mut self, xdr_permyriad_per_icp: u64)
        ensures
            *final(self) == (SatslinkerStateInfo {
                icp_to_cycles_exchange_rate: Some(
                    Quantity { units: (xdr_permyriad_per_icp * 100_000_000) as u128 },
                ),
                ..*old(self)
            }),
    {
        proof {
            assert(pow10(8) == 100_000_000) by {
                reveal_with_fuel(pow10, 9);
            }
        }
        let rate_e4s: Quantity<4> = Quantity::from_u64(xdr_permyriad_per_icp);
        let rate_tcycles: TCycles = rate_e4s.rescale::<12>();
        self.icp_to_cycles_exchange_rate = Some(rate_tcycles);
    }

    /// Whether distribution is switched on (unset counts as off).
    pub fn is_satslink_enabled(&self) -> (r: bool)
        ensures
            r == (self.satslink_enabled matches Some(true)),
    {
        match self.satslink_enabled {
            Some(b) => b,
            None => false,
        }
    }

    pub fn enable_satslink(&mut self)
        ensures
            *final(self) == (SatslinkerStateInfo { satslink_enabled: Some(true), ..*old(self) }),
    {
        self.satslink_enabled = Some(true);
    }

    pub fn disable_satslink(&mut self)
        ensures
            *final(self) == (SatslinkerStateInfo { satslink_enabled: Some(false), ..*old(self) }),
    {
        self.satslink_enabled = Some(false);
    }

    /// What the per-round reward becomes when the round counter reaches
    /// `round`: shrunk by one quarter on each halving boundary, but never
    /// below the floor, and untouched once at or below the floor.
    pub open spec fn reward_after_round(reward: int, round: int) -> int {
        if round % (POS_ROUNDS_PER_HALVING as int) == 0 && reward > POS_ROUND_END_REWARD_E8S {
            if reward * 3 / 4 >= POS_ROUND_END_REWARD_E8S {
                reward * 3 / 4
            } else {
                POS_ROUND_END_REWARD_E8S as int
            }
        } else {
            reward
        }
    }

    /// Advances the round: bumps the counter, rolls the seed one hash-chain
    /// step, and applies the halving schedule. The counter always grows by
    /// exactly one.
    pub fn complete_round(&mut self)
        requires
            old(self).current_pos_round < u64::MAX,
            old(self).wf(),
        ensures
            final(self).current_pos_round == old(self).current_pos_round + 1,
            final(self).seed@ == seed_chain_next(old(self).seed@),
            final(self).seed@.len() == 32,
            final(self).current_token_reward.units == Self::reward_after_round(
                old(self).current_token_reward.units as int,
                old(self).current_pos_round + 1,
            ),
            final(self).total_pledge_token_supply == old(self).total_pledge_token_supply,
            final(self).total_token_lottery == old(self).total_token_lottery,
            final(self).total_token_dev == old(self).total_token_dev,
            final(self).total_token_minted == old(self).total_token_minted,
            final(self).pos_round_delay_ns == old(self).pos_round_delay_ns,
            final(self).satslink_enabled == old(self).satslink_enabled,
            final(self).tmp_can_vip_migrate == old(self).tmp_can_vip_migrate,
            final(self).tmp_can_pledge_migrate == old(self).tmp_can_pledge_migrate,
            final(self).icp_to_cycles_exchange_rate == old(self).icp_to_cycles_exchange_rate,
            final(self).wf(),
    {
        self.current_pos_round = self.current_pos_round + 1;
        self.update_seed();
        if self.current_pos_round % POS_ROUNDS_PER_HALVING == 0 {
            let end_units: u128 = POS_ROUND_END_REWARD_E8S as u128;
            if self.current_token_reward.units > end_units {
                let cur = self.current_token_reward.units;
                let shrunk = cur * 3 / 4;
                proof {
                    assert(shrunk <= cur) by (nonlinear_arith)
                        requires
                            shrunk == cur * 3 / 4,
                    ;
                }
                if shrunk < end_units {
                    self.current_token_reward = Quantity::new(end_units);
                } else {
                    self.current_token_reward = Quantity::new(shrunk);
                }
            }
        }
    }

    /// The lottery index the current seed selects among `total_options`
    /// choices: the first 8 seed bytes read as a little-endian value, reduced
    /// modulo the number of options.
    pub fn current_winning_idx(&self, total_options: u64) -> (r: u64)
        requires
            self.seed@.len() >= 8,
            total_options > 0,
        ensures
            r == le_bytes_val(self.seed@.subrange(0, 8)) % (total_options as nat),
    {
        let v = le_u64_of_first_8(&self.seed);
        v % total_options
    }

    /// Rolls the seed one hash-chain step.
    pub fn update_seed(&mut self)
        ensures
            final(self).seed@ == seed_chain_next(old(self).seed@),
            final(self).seed@.len() == 32,
            *final(self) == (SatslinkerStateInfo { seed: final(self).seed, ..*old(self) }),
    {
        let next = seed_chain_step(&self.seed);
        self.seed = next;
    }

    /// Whether `caller` may still migrate a VIP position: the allow-list
    /// snapshot exists and holds the caller.
    pub fn can_vip_migrate(&self, caller: &AccountId) -> (r: bool)
        ensures
            r == (self.tmp_can_vip_migrate is Some && self.tmp_can_vip_migrate->0@.contains(
                *caller,
            )),
    {
        match &self.tmp_can_vip_migrate {
            Some(l) => ids_contains(l, *caller),
            None => false,
        }
    }

    /// Spends `caller`'s VIP migration permission.
    pub fn note_vip_migrated(&mut self, caller: &AccountId)
        ensures
            old(self).tmp_can_vip_migrate is None ==> *final(self) == *old(self),
            old(self).tmp_can_vip_migrate is Some ==> final(self).tmp_can_vip_migrate is Some
                && final(self).tmp_can_vip_migrate->0@ == ids_without(
                old(self).tmp_can_vip_migrate->0@,
                *caller,
            ),
            *final(self) == (SatslinkerStateInfo {
                tmp_can_vip_migrate: final(self).tmp_can_vip_migrate,
                ..*old(self)
            }),
    {
        match &mut self.tmp_can_vip_migrate {
            Some(l) => {
                let filtered = ids_without_exec(l, *caller);
                *l = filtered;
            },
            None => {},
        }
    }

    /// Whether `caller` may still migrate a pledge position.
    pub fn can_pledge_migrate(&self, caller: &AccountId) -> (r: bool)
        ensures
            r == (self.tmp_can_pledge_migrate is Some
                && self.tmp_can_pledge_migrate->0@.contains(*caller)),
    {
        match &self.tmp_can_pledge_migrate {
            Some(l) => ids_contains(l, *caller),
            None => false,
        }
    }

    /// Spends `caller`'s pledge migration permission.
    pub fn note_pledge_migrated(&mut self, caller: &AccountId)
        ensures
            old(self).tmp_can_pledge_migrate is None ==> *final(self) == *old(self),
            old(self).tmp_can_pledge_migrate is Some ==> final(self).tmp_can_pledge_migrate
                is Some && final(self).tmp_can_pledge_migrate->0@ == ids_without(
                old(self).tmp_can_pledge_migrate->0@,
                *caller,
            ),
            *final(self) == (SatslinkerStateInfo {
                tmp_can_pledge_migrate: final(self).tmp_can_pledge_migrate,
                ..*old(self)
            }),
    {
        match &mut self.tmp_can_pledge_migrate {
            Some(l) => {
                let filtered = ids_without_exec(l, *caller);
                *l = filtered;
            },
            None => {},
        }
    }

    /// The per-round participation fee, in cycle units.
    pub fn get_current_fee() -> (r: TCycles)
        ensures
            r.units == TCYCLE_POS_ROUND_BASE_FEE,
    {
        Quantity::from_u64(TCYCLE_POS_ROUND_BASE_FEE)
    }
}

/// The per-round participation fee rescaled to token-ledger units: the
/// threshold a pledge must reach to be recorded and stay reward-eligible.
pub fn current_share_fee_e8s() -> (r: E8s)
    ensures
        r.units == TCYCLE_POS_ROUND_BASE_FEE / 10_000,
        r.units == 2_500_000,
{
    proof {
        assert(pow10(4) == 10_000) by {
            reveal_with_fuel(pow10, 5);
        }
    }
    let fee: TCycles = Quantity::from_u64(TCYCLE_POS_ROUND_BASE_FEE);
    fee.rescale::<8>()
}

} // verus!
