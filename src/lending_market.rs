use vstd::prelude::*;
use vstd::bytes::{spec_u64_from_le_bytes, spec_u64_to_le_bytes, spec_u16_from_le_bytes, spec_u16_to_le_bytes};
use crate::codec::{copy_into, get_u8, get_u16, get_u64, get_key, get_bytes32, put_u8, put_u16, put_u64, put_key, put_bytes32, put_zeros, zeros};
use crate::error::LendingError;
use crate::pubkey::Pubkey;
use crate::state::{PROGRAM_VERSION, UNINITIALIZED_VERSION};

verus! {

broadcast use vstd::array::group_array_axioms;

/// Length of a stored lending market.
pub const LENDING_MARKET_LEN: usize = 418;

/// Lending market state.
#[derive(Clone, Debug, Default, PartialEq)]
pub struct LendingMarket {
    /// Version of the record
    pub version: u8,
    /// Bump seed for the derived authority address
    pub bump_seed: u8,
    /// Owner that has been offered ownership and not yet taken it
    pub pending_owner: Pubkey,
    /// Owner authority which can add new reserves
    pub owner: Pubkey,
    /// Currency market prices are quoted in, e.g. "USD" null padded, or a token mint
    pub quote_currency: [u8; 32],
    /// Token program id
    pub token_program_id: Pubkey,
    /// Oracle (Pyth) program id
    pub oracle_program_id: Pubkey,
    /// Oracle (Larix) program id
    pub larix_oracle_program_id: Pubkey,
    /// Oracle id
    pub larix_oracle_id: Pubkey,
    /// Mint address of the mine token
    pub mine_mint: Pubkey,
    /// Supply address of the mine token
    pub mine_supply_account: Pubkey,
    /// Lock program of the mine token
    pub mine_lock_program: Pubkey,
    /// Lock time per claimed subsidy: lock time = subsidy times * this
    pub lock_larix_times_to_time: u64,
    /// Claim cap in hundredths: 200 means at most two claims
    pub max_claim_times: u16,
}

/// Parameters of a new lending market.
pub struct InitLendingMarketParams {
    /// Bump seed for the derived authority address
    pub bump_seed: u8,
    /// Owner authority which can add new reserves
    pub owner: Pubkey,
    /// Currency market prices are quoted in
    pub quote_currency: [u8; 32],
    /// Token program id
    pub token_program_id: Pubkey,
    /// Oracle (Pyth) program id
    pub oracle_program_id: Pubkey,
    /// Oracle (Larix) program id
    pub larix_oracle_program_id: Pubkey,
    /// Oracle id
    pub larix_oracle_id: Pubkey,
    /// Mint address of the mine token
    pub mine_mint: Pubkey,
    /// Supply address of the mine token
    pub mine_supply_account: Pubkey,
    /// Lock program of the mine token
    pub mine_lock_program: Pubkey,
}

/// The stored form of a lending market: every field at its fixed offset,
/// little-endian, then zero padding.
pub open spec fn market_bytes(m: LendingMarket) -> Seq<u8> {
    Seq::<u8>::empty() + seq![m.version] + seq![m.bump_seed] + m.pending_owner.0@ + m.owner.0@
        + m.quote_currency@ + m.token_program_id.0@ + m.oracle_program_id.0@
        + m.larix_oracle_program_id.0@ + m.larix_oracle_id.0@ + m.mine_mint.0@
        + m.mine_supply_account.0@ + m.mine_lock_program.0@
        + spec_u64_to_le_bytes(m.lock_larix_times_to_time) + spec_u16_to_le_bytes(m.max_claim_times)
        + zeros(86)
}

/// `m` is what the stored bytes `b` say, field by field.
pub open spec fn market_read_from(m: LendingMarket, b: Seq<u8>) -> bool {
    &&& m.version == b[0]
    &&& m.bump_seed == b[1]
    &&& m.pending_owner.0@ == b.subrange(2, 34)
    &&& m.owner.0@ == b.subrange(34, 66)
    &&& m.quote_currency@ == b.subrange(66, 98)
    &&& m.token_program_id.0@ == b.subrange(98, 130)
    &&& m.oracle_program_id.0@ == b.subrange(130, 162)
    &&& m.larix_oracle_program_id.0@ == b.subrange(162, 194)
    &&& m.larix_oracle_id.0@ == b.subrange(194, 226)
    &&& m.mine_mint.0@ == b.subrange(226, 258)
    &&& m.mine_supply_account.0@ == b.subrange(258, 290)
    &&& m.mine_lock_program.0@ == b.subrange(290, 322)
    &&& m.lock_larix_times_to_time == spec_u64_from_le_bytes(b.subrange(322, 330))
    &&& m.max_claim_times == spec_u16_from_le_bytes(b.subrange(330, 332))
}

impl LendingMarket {
    /// A new lending market, initialized from `params`.
    pub fn new(params: InitLendingMarketParams) -> (r: LendingMarket)
        ensures
            r.version == PROGRAM_VERSION,
            r.bump_seed == params.bump_seed,
            r.pending_owner.0@ == seq![0u8; 32],
            r.owner == params.owner,
            r.quote_currency == params.quote_currency,
            r.token_program_id == params.token_program_id,
            r.oracle_program_id == params.oracle_program_id,
            r.larix_oracle_program_id == params.larix_oracle_program_id,
            r.larix_oracle_id == params.larix_oracle_id,
            r.mine_mint == params.mine_mint,
            r.mine_supply_account == params.mine_supply_account,
            r.mine_lock_program == params.mine_lock_program,
            r.lock_larix_times_to_time == 0,
            r.max_claim_times == 0,
    {
        let zero = Pubkey([0u8; 32]);
        let mut m = LendingMarket {
            version: UNINITIALIZED_VERSION,
            bump_seed: 0,
            pending_owner: zero,
            owner: zero,
            quote_currency: [0u8; 32],
            token_program_id: zero,
            oracle_program_id: zero,
            larix_oracle_program_id: zero,
            larix_oracle_id: zero,
            mine_mint: zero,
            mine_supply_account: zero,
            mine_lock_program: zero,
            lock_larix_times_to_time: 0,
            max_claim_times: 0,
        };
        m.init(params);
        m
    }

    /// Initializes this lending market from `params`; the lock time and the
    /// claim cap are kept.
    pub fn init(&mut self, params: InitLendingMarketParams)
        ensures
            final(self).version == PROGRAM_VERSION,
            final(self).bump_seed == params.bump_seed,
            final(self).pending_owner.0@ == seq![0u8; 32],
            final(self).owner == params.owner,
            final(self).quote_currency == params.quote_currency,
            final(self).token_program_id == params.token_program_id,
            final(self).oracle_program_id == params.oracle_program_id,
            final(self).larix_oracle_program_id == params.larix_oracle_program_id,
            final(self).larix_oracle_id == params.larix_oracle_id,
            final(self).mine_mint == params.mine_mint,
            final(self).mine_supply_account == params.mine_supply_account,
            final(self).mine_lock_program == params.mine_lock_program,
            final(self).lock_larix_times_to_time == old(self).lock_larix_times_to_time,
            final(self).max_claim_times == old(self).max_claim_times,
    {
        self.version = PROGRAM_VERSION;
        self.bump_seed = params.bump_seed;
        self.pending_owner = Pubkey([0u8; 32]);
        assert(self.pending_owner.0@ =~= seq![0u8; 32]);
        self.owner = params.owner;
        self.quote_currency = params.quote_currency;
        self.token_program_id = params.token_program_id;
        self.oracle_program_id = params.oracle_program_id;
        self.larix_oracle_program_id = params.larix_oracle_program_id;
        self.larix_oracle_id = params.larix_oracle_id;
        self.mine_mint = params.mine_mint;
        self.mine_supply_account = params.mine_supply_account;
        self.mine_lock_program = params.mine_lock_program;
    }

    /// Whether the record has been initialized.
    pub fn is_initialized(&self) -> (r: bool)
        ensures
            r == (self.version != UNINITIALIZED_VERSION),
    {
        self.version != UNINITIALIZED_VERSION
    }

    /// The stored form of this lending market.
    pub fn pack(&self) -> (r: Vec<u8>)
        ensures
            r@ == market_bytes(*self),
    {
        let mut out: Vec<u8> = Vec::new();
        put_u8(&mut out, self.version);
        put_u8(&mut out, self.bump_seed);
        put_key(&mut out, &self.pending_owner);
        put_key(&mut out, &self.owner);
        put_bytes32(&mut out, &self.quote_currency);
        put_key(&mut out, &self.token_program_id);
        put_key(&mut out, &self.oracle_program_id);
        put_key(&mut out, &self.larix_oracle_program_id);
        put_key(&mut out, &self.larix_oracle_id);
        put_key(&mut out, &self.mine_mint);
        put_key(&mut out, &self.mine_supply_account);
        put_key(&mut out, &self.mine_lock_program);
        put_u64(&mut out, self.lock_larix_times_to_time);
        put_u16(&mut out, self.max_claim_times);
        put_zeros(&mut out, 86);
        out
    }

    /// Writes the stored form of this lending market into `output`.
    pub fn pack_into_slice(&self, output: &mut [u8])
        requires
            old(output)@.len() == LENDING_MARKET_LEN,
        ensures
            final(output)@ == market_bytes(*self),
    {
        let v = self.pack();
        proof {
            lemma_market_layout(*self);
        }
        copy_into(output, &v);
    }

    /// Offers ownership to `new_owner`, who takes it with
    /// `accept_pending_owner`.
    pub fn set_pending_owner(&mut self, new_owner: Pubkey)
        ensures
            *final(self) == (LendingMarket { pending_owner: new_owner, ..*old(self) }),
    {
        self.pending_owner = new_owner;
    }

    /// The pending owner becomes the owner, and no one is pending.
    pub fn accept_pending_owner(&mut self)
        ensures
            final(self).owner == old(self).pending_owner,
            final(self).pending_owner.0@ == seq![0u8; 32],
            *final(self) == (LendingMarket { owner: old(self).pending_owner, pending_owner: final(self).pending_owner, ..*old(self) }),
    {
        self.owner = self.pending_owner;
        self.pending_owner = Pubkey([0u8; 32]);
        assert(self.pending_owner.0@ =~= seq![0u8; 32]);
    }

    /// Reads a stored lending market. The buffer must have exactly the
    /// stored length and a version this library supports.
    pub fn unpack_from_slice(input: &[u8]) -> (r: Result<LendingMarket, LendingError>)
        ensures
            input@.len() != LENDING_MARKET_LEN ==> r == Err::<LendingMarket, LendingError>(LendingError::DecodeError),
            input@.len() == LENDING_MARKET_LEN && input@[0] > PROGRAM_VERSION
                ==> r == Err::<LendingMarket, LendingError>(LendingError::VersionMismatch),
            r is Ok <==> input@.len() == LENDING_MARKET_LEN && input@[0] <= PROGRAM_VERSION,
            r is Ok ==> market_read_from(r->Ok_0, input@),
    {
        if input.len() != LENDING_MARKET_LEN {
            return Err(LendingError::DecodeError);
        }
        let version = get_u8(input, 0);
        if version > PROGRAM_VERSION {
            return Err(LendingError::VersionMismatch);
        }
        Ok(LendingMarket {
            version,
            bump_seed: get_u8(input, 1),
            pending_owner: get_key(input, 2),
            owner: get_key(input, 34),
            quote_currency: get_bytes32(input, 66),
            token_program_id: get_key(input, 98),
            oracle_program_id: get_key(input, 130),
            larix_oracle_program_id: get_key(input, 162),
            larix_oracle_id: get_key(input, 194),
            mine_mint: get_key(input, 226),
            mine_supply_account: get_key(input, 258),
            mine_lock_program: get_key(input, 290),
            lock_larix_times_to_time: get_u64(input, 322),
            max_claim_times: get_u16(input, 330),
        })
    }
}

/// Each field of a lending market sits at its offset in the stored form.
pub proof fn lemma_market_layout(m: LendingMarket)
    ensures
        market_bytes(m).len() == LENDING_MARKET_LEN,
        market_bytes(m)[0] == m.version,
        market_bytes(m)[1] == m.bump_seed,
        market_bytes(m).subrange(2, 34) == m.pending_owner.0@,
        market_bytes(m).subrange(34, 66) == m.owner.0@,
        market_bytes(m).subrange(66, 98) == m.quote_currency@,
        market_bytes(m).subrange(98, 130) == m.token_program_id.0@,
        market_bytes(m).subrange(130, 162) == m.oracle_program_id.0@,
        market_bytes(m).subrange(162, 194) == m.larix_oracle_program_id.0@,
        market_bytes(m).subrange(194, 226) == m.larix_oracle_id.0@,
        market_bytes(m).subrange(226, 258) == m.mine_mint.0@,
        market_bytes(m).subrange(258, 290) == m.mine_supply_account.0@,
        market_bytes(m).subrange(290, 322) == m.mine_lock_program.0@,
        market_bytes(m).subrange(322, 330) == spec_u64_to_le_bytes(m.lock_larix_times_to_time),
        market_bytes(m).subrange(330, 332) == spec_u16_to_le_bytes(m.max_claim_times),
{
    vstd::bytes::lemma_auto_spec_u64_to_from_le_bytes();
    vstd::bytes::lemma_auto_spec_u16_to_from_le_bytes();
    let b = market_bytes(m);
    assert(b.subrange(2, 34) =~= m.pending_owner.0@);
    assert(b.subrange(34, 66) =~= m.owner.0@);
    assert(b.subrange(66, 98) =~= m.quote_currency@);
    assert(b.subrange(98, 130) =~= m.token_program_id.0@);
    assert(b.subrange(130, 162) =~= m.oracle_program_id.0@);
    assert(b.subrange(162, 194) =~= m.larix_oracle_program_id.0@);
    assert(b.subrange(194, 226) =~= m.larix_oracle_id.0@);
    assert(b.subrange(226, 258) =~= m.mine_mint.0@);
    assert(b.subrange(258, 290) =~= m.mine_supply_account.0@);
    assert(b.subrange(290, 322) =~= m.mine_lock_program.0@);
    assert(b.subrange(322, 330) =~= spec_u64_to_le_bytes(m.lock_larix_times_to_time));
    assert(b.subrange(330, 332) =~= spec_u16_to_le_bytes(m.max_claim_times));
}

/// Reading back the stored form of a lending market of a supported version
/// succeeds and gives the same lending market.
pub proof fn lemma_market_round_trip(m: LendingMarket, d: LendingMarket)
    requires
        m.version <= PROGRAM_VERSION,
        market_read_from(d, market_bytes(m)),
    ensures
        market_bytes(m).len() == LENDING_MARKET_LEN,
        market_bytes(m)[0] <= PROGRAM_VERSION,
        d == m,
{
    lemma_market_layout(m);
    vstd::bytes::lemma_auto_spec_u64_to_from_le_bytes();
    vstd::bytes::lemma_auto_spec_u16_to_from_le_bytes();
    assert(d.pending_owner.0 =~= m.pending_owner.0);
    assert(d.owner.0 =~= m.owner.0);
    assert(d.quote_currency =~= m.quote_currency);
    assert(d.token_program_id.0 =~= m.token_program_id.0);
    assert(d.oracle_program_id.0 =~= m.oracle_program_id.0);
    assert(d.larix_oracle_program_id.0 =~= m.larix_oracle_program_id.0);
    assert(d.larix_oracle_id.0 =~= m.larix_oracle_id.0);
    assert(d.mine_mint.0 =~= m.mine_mint.0);
    assert(d.mine_supply_account.0 =~= m.mine_supply_account.0);
    assert(d.mine_lock_program.0 =~= m.mine_lock_program.0);
}

} // verus!
