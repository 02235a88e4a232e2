use vstd::prelude::*;
use vstd::bytes::{spec_u64_from_le_bytes, spec_u64_to_le_bytes};
use crate::codec::{append_all, copy_into, decimal_bytes, decimal_from, get_bool, get_decimal, get_key, get_u64, get_u8, put_bool, put_decimal, put_key, put_u64, put_u8, put_zeros, zeros};
use crate::error::LendingError;
use crate::last_update::LastUpdate;
use crate::math::{Decimal, WAD};
use crate::pubkey::Pubkey;
use crate::state::{bool_byte, PROGRAM_VERSION, UNINITIALIZED_VERSION};

verus! {

broadcast use vstd::array::group_array_axioms;

/// Largest number of deposit and borrow entries of one obligation, together.
pub const MAX_OBLIGATION_RESERVES: usize = 10;

/// Length of a stored obligation.
pub const OBLIGATION_LEN: usize = 1092;

/// Length of a stored deposit entry.
pub const OBLIGATION_COLLATERAL_LEN: usize = 72;

/// Length of a stored borrow entry.
pub const OBLIGATION_LIQUIDITY_LEN: usize = 96;

/// Length of the slab that holds the deposit entries and then the borrow entries.
pub const OBLIGATION_SLAB_LEN: usize = 936;

/// Lending market obligation state.
#[derive(Clone, Debug, Default, PartialEq)]
pub struct Obligation {
    /// Version of the record
    pub version: u8,
    /// Last update to collateral, liquidity, or their market values
    pub last_update: LastUpdate,
    /// Lending market address
    pub lending_market: Pubkey,
    /// Owner authority which can borrow liquidity
    pub owner: Pubkey,
    /// Deposited collateral, unique by deposit reserve
    pub deposits: Vec<ObligationCollateral>,
    /// Borrowed liquidity, unique by borrow reserve
    pub borrows: Vec<ObligationLiquidity>,
    /// Market value of the deposits
    pub deposited_value: Decimal,
    /// Market value of the borrows
    pub borrowed_value: Decimal,
    /// Largest borrow value the deposits allow, by their loan to value ratios
    pub allowed_borrow_value: Decimal,
    /// Borrow value above which the obligation may be liquidated
    pub unhealthy_borrow_value: Decimal,
    /// Mine token earned and not yet claimed
    pub unclaimed_mine: Decimal,
}

/// Parameters of a new obligation.
pub struct InitObligationParams {
    /// Slot of creation
    pub current_slot: u64,
    /// Lending market address
    pub lending_market: Pubkey,
    /// Owner authority which can borrow liquidity
    pub owner: Pubkey,
    /// Deposited collateral, unique by deposit reserve
    pub deposits: Vec<ObligationCollateral>,
    /// Borrowed liquidity, unique by borrow reserve
    pub borrows: Vec<ObligationLiquidity>,
}

/// Collateral deposited into an obligation from one reserve.
#[derive(Clone, Copy, Debug, Default, PartialEq)]
pub struct ObligationCollateral {
    /// Borrow mining index of the reserve when the entry was last settled
    pub index: Decimal,
    /// Reserve the collateral is deposited to
    pub deposit_reserve: Pubkey,
    /// Amount of collateral deposited
    pub deposited_amount: u64,
    /// Collateral market value in the quote currency
    pub market_value: Decimal,
}

/// Liquidity borrowed by an obligation from one reserve.
#[derive(Clone, Copy, Debug, Default, PartialEq)]
pub struct ObligationLiquidity {
    /// Borrow mining index of the reserve when the entry was last settled
    pub index: Decimal,
    /// Reserve the liquidity is borrowed from
    pub borrow_reserve: Pubkey,
    /// Cumulative borrow rate of the reserve when interest was last accrued
    pub cumulative_borrow_rate_wads: Decimal,
    /// Amount borrowed plus interest
    pub borrowed_amount_wads: Decimal,
    /// Liquidity market value in the quote currency
    pub market_value: Decimal,
}

/// Whether `d` deposit entries and `b` borrow entries fit an obligation:
/// at most ten together, and their stored forms within the slab.
pub open spec fn entries_fit(d: nat, b: nat) -> bool {
    &&& d + b <= MAX_OBLIGATION_RESERVES
    &&& 72 * d + 96 * b <= OBLIGATION_SLAB_LEN
}

/// No reserve has two deposit entries.
pub open spec fn deposits_unique(s: Seq<ObligationCollateral>) -> bool {
    forall|i: int, j: int| 0 <= i < s.len() && 0 <= j < s.len() && i != j ==> s[i].deposit_reserve != s[j].deposit_reserve
}

/// No reserve has two borrow entries.
pub open spec fn borrows_unique(s: Seq<ObligationLiquidity>) -> bool {
    forall|i: int, j: int| 0 <= i < s.len() && 0 <= j < s.len() && i != j ==> s[i].borrow_reserve != s[j].borrow_reserve
}

impl Obligation {
    /// The obligation's invariant: its entries fit, and each reserve appears
    /// at most once among the deposits and at most once among the borrows.
    pub open spec fn spec_wf(self) -> bool {
        &&& entries_fit(self.deposits@.len(), self.borrows@.len())
        &&& deposits_unique(self.deposits@)
        &&& borrows_unique(self.borrows@)
    }
}

/// The stored form of a deposit entry.
pub open spec fn collateral_bytes(c: ObligationCollateral) -> Seq<u8> {
    Seq::<u8>::empty() + c.deposit_reserve.0@ + spec_u64_to_le_bytes(c.deposited_amount)
        + decimal_bytes(c.market_value) + decimal_bytes(c.index)
}

/// `c` is what the stored deposit entry `b` says.
pub open spec fn collateral_read_from(c: ObligationCollateral, b: Seq<u8>) -> bool {
    &&& c.deposit_reserve.0@ == b.subrange(0, 32)
    &&& c.deposited_amount == spec_u64_from_le_bytes(b.subrange(32, 40))
    &&& c.market_value == decimal_from(b.subrange(40, 56))
    &&& c.index == decimal_from(b.subrange(56, 72))
}

/// The stored form of a borrow entry.
pub open spec fn liquidity_bytes(l: ObligationLiquidity) -> Seq<u8> {
    Seq::<u8>::empty() + l.borrow_reserve.0@ + decimal_bytes(l.cumulative_borrow_rate_wads)
        + decimal_bytes(l.borrowed_amount_wads) + decimal_bytes(l.market_value)
        + decimal_bytes(l.index)
}

/// `l` is what the stored borrow entry `b` says.
pub open spec fn liquidity_read_from(l: ObligationLiquidity, b: Seq<u8>) -> bool {
    &&& l.borrow_reserve.0@ == b.subrange(0, 32)
    &&& l.cumulative_borrow_rate_wads == decimal_from(b.subrange(32, 48))
    &&& l.borrowed_amount_wads == decimal_from(b.subrange(48, 64))
    &&& l.market_value == decimal_from(b.subrange(64, 80))
    &&& l.index == decimal_from(b.subrange(80, 96))
}

/// Stored deposit entries, one after another.
pub open spec fn collaterals_bytes(s: Seq<ObligationCollateral>) -> Seq<u8>
    decreases s.len(),
{
    if s.len() == 0 {
        Seq::empty()
    } else {
        collaterals_bytes(s.drop_last()) + collateral_bytes(s.last())
    }
}

/// Stored borrow entries, one after another.
pub open spec fn liquidities_bytes(s: Seq<ObligationLiquidity>) -> Seq<u8>
    decreases s.len(),
{
    if s.len() == 0 {
        Seq::empty()
    } else {
        liquidities_bytes(s.drop_last()) + liquidity_bytes(s.last())
    }
}

/// The stored form of an obligation: the fixed fields at their offsets, then
/// a slab with the deposit entries, the borrow entries and zero padding.
pub open spec fn obligation_bytes(o: Obligation) -> Seq<u8> {
    Seq::<u8>::empty() + seq![o.version] + spec_u64_to_le_bytes(o.last_update.slot)
        + seq![bool_byte(o.last_update.stale)] + o.lending_market.0@ + o.owner.0@
        + decimal_bytes(o.deposited_value) + decimal_bytes(o.borrowed_value)
        + decimal_bytes(o.allowed_borrow_value) + decimal_bytes(o.unhealthy_borrow_value)
        + seq![o.deposits@.len() as u8] + seq![o.borrows@.len() as u8]
        + decimal_bytes(o.unclaimed_mine) + collaterals_bytes(o.deposits@)
        + liquidities_bytes(o.borrows@)
        + zeros((936 - 72 * o.deposits@.len() - 96 * o.borrows@.len()) as nat)
}

/// `o` is what the stored bytes `b` say, field by field and entry by entry.
pub open spec fn obligation_read_from(o: Obligation, b: Seq<u8>) -> bool {
    &&& o.version == b[0]
    &&& o.last_update.slot == spec_u64_from_le_bytes(b.subrange(1, 9))
    &&& b[9] == bool_byte(o.last_update.stale)
    &&& o.lending_market.0@ == b.subrange(10, 42)
    &&& o.owner.0@ == b.subrange(42, 74)
    &&& o.deposited_value == decimal_from(b.subrange(74, 90))
    &&& o.borrowed_value == decimal_from(b.subrange(90, 106))
    &&& o.allowed_borrow_value == decimal_from(b.subrange(106, 122))
    &&& o.unhealthy_borrow_value == decimal_from(b.subrange(122, 138))
    &&& o.deposits@.len() == b[138]
    &&& o.borrows@.len() == b[139]
    &&& o.unclaimed_mine == decimal_from(b.subrange(140, 156))
    &&& forall|i: int| 0 <= i < o.deposits@.len() ==> #[trigger] collateral_read_from(
        o.deposits@[i], b.subrange(156 + 72 * i, 156 + 72 * i + 72))
    &&& forall|j: int| 0 <= j < o.borrows@.len() ==> #[trigger] liquidity_read_from(
        o.borrows@[j], b.subrange(156 + 72 * b[138] + 96 * j, 156 + 72 * b[138] + 96 * j + 96))
}

/// Stored bytes that can be read as an obligation: the right length, a
/// supported version, a valid boolean and entry counts that fit.
pub open spec fn obligation_bytes_valid(b: Seq<u8>) -> bool {
    &&& b.len() == OBLIGATION_LEN
    &&& b[0] <= PROGRAM_VERSION
    &&& (b[9] == 0 || b[9] == 1)
    &&& entries_fit(b[138] as nat, b[139] as nat)
}

fn put_collateral(out: &mut Vec<u8>, c: &ObligationCollateral)
    ensures
        final(out)@ == old(out)@ + collateral_bytes(*c),
{
    let mut v: Vec<u8> = Vec::new();
    put_key(&mut v, &c.deposit_reserve);
    put_u64(&mut v, c.deposited_amount);
    put_decimal(&mut v, c.market_value);
    put_decimal(&mut v, c.index);
    append_all(out, &v);
}

fn put_liquidity(out: &mut Vec<u8>, l: &ObligationLiquidity)
    ensures
        final(out)@ == old(out)@ + liquidity_bytes(*l),
{
    let mut v: Vec<u8> = Vec::new();
    put_key(&mut v, &l.borrow_reserve);
    put_decimal(&mut v, l.cumulative_borrow_rate_wads);
    put_decimal(&mut v, l.borrowed_amount_wads);
    put_decimal(&mut v, l.market_value);
    put_decimal(&mut v, l.index);
    append_all(out, &v);
}

fn get_collateral(b: &[u8], off: usize) -> (r: ObligationCollateral)
    requires
        off + 72 <= b@.len(),
    ensures
        collateral_read_from(r, b@.subrange(off as int, off + 72)),
{
    let len = b.len();
    let ghost s = b@.subrange(off as int, off + 72);
    let r = ObligationCollateral {
        deposit_reserve: get_key(b, off),
        deposited_amount: get_u64(b, off + 32),
        market_value: get_decimal(b, off + 40),
        index: get_decimal(b, off + 56),
    };
    assert(s.subrange(0, 32) =~= b@.subrange(off as int, off + 32));
    assert(s.subrange(32, 40) =~= b@.subrange(off + 32, off + 40));
    assert(s.subrange(40, 56) =~= b@.subrange(off + 40, off + 56));
    assert(s.subrange(56, 72) =~= b@.subrange(off + 56, off + 72));
    r
}

fn get_liquidity(b: &[u8], off: usize) -> (r: ObligationLiquidity)
    requires
        off + 96 <= b@.len(),
    ensures
        liquidity_read_from(r, b@.subrange(off as int, off + 96)),
{
    let len = b.len();
    let ghost s = b@.subrange(off as int, off + 96);
    let r = ObligationLiquidity {
        borrow_reserve: get_key(b, off),
        cumulative_borrow_rate_wads: get_decimal(b, off + 32),
        borrowed_amount_wads: get_decimal(b, off + 48),
        market_value: get_decimal(b, off + 64),
        index: get_decimal(b, off + 80),
    };
    assert(s.subrange(0, 32) =~= b@.subrange(off as int, off + 32));
    assert(s.subrange(32, 48) =~= b@.subrange(off + 32, off + 48));
    assert(s.subrange(48, 64) =~= b@.subrange(off + 48, off + 64));
    assert(s.subrange(64, 80) =~= b@.subrange(off + 64, off + 80));
    assert(s.subrange(80, 96) =~= b@.subrange(off + 80, off + 96));
    r
}

impl Obligation {
    /// A new obligation, initialized from `params`.
    pub fn new(params: InitObligationParams) -> (r: Obligation)
        ensures
            r.version == PROGRAM_VERSION,
            r.last_update == LastUpdate::new_spec(params.current_slot),
            r.lending_market == params.lending_market,
            r.owner == params.owner,
            r.deposits@ == params.deposits@,
            r.borrows@ == params.borrows@,
            r.deposited_value.0 == 0,
            r.borrowed_value.0 == 0,
            r.allowed_borrow_value.0 == 0,
            r.unhealthy_borrow_value.0 == 0,
            r.unclaimed_mine.0 == 0,
    {
        let zero = Pubkey([0u8; 32]);
        let mut o = Obligation {
            version: UNINITIALIZED_VERSION,
            last_update: LastUpdate { slot: 0, stale: false },
            lending_market: zero,
            owner: zero,
            deposits: Vec::new(),
            borrows: Vec::new(),
            deposited_value: Decimal::zero(),
            borrowed_value: Decimal::zero(),
            allowed_borrow_value: Decimal::zero(),
            unhealthy_borrow_value: Decimal::zero(),
            unclaimed_mine: Decimal::zero(),
        };
        o.init(params);
        o
    }

    /// Initializes this obligation from `params`; the values and the
    /// unclaimed mine are kept.
    pub fn init(&mut self, params: InitObligationParams)
        ensures
            final(self).version == PROGRAM_VERSION,
            final(self).last_update == LastUpdate::new_spec(params.current_slot),
            final(self).lending_market == params.lending_market,
            final(self).owner == params.owner,
            final(self).deposits@ == params.deposits@,
            final(self).borrows@ == params.borrows@,
            final(self).deposited_value == old(self).deposited_value,
            final(self).borrowed_value == old(self).borrowed_value,
            final(self).allowed_borrow_value == old(self).allowed_borrow_value,
            final(self).unhealthy_borrow_value == old(self).unhealthy_borrow_value,
            final(self).unclaimed_mine == old(self).unclaimed_mine,
    {
        self.version = PROGRAM_VERSION;
        self.last_update = LastUpdate::new(params.current_slot);
        self.lending_market = params.lending_market;
        self.owner = params.owner;
        self.deposits = params.deposits;
        self.borrows = params.borrows;
    }

    /// Whether the record has been initialized.
    pub fn is_initialized(&self) -> (r: bool)
        ensures
            r == (self.version != UNINITIALIZED_VERSION),
    {
        self.version != UNINITIALIZED_VERSION
    }

    /// The stored form of this obligation.
    pub fn pack(&self) -> (r: Vec<u8>)
        requires
            entries_fit(self.deposits@.len(), self.borrows@.len()),
        ensures
            r@ == obligation_bytes(*self),
    {
        let mut out: Vec<u8> = Vec::new();
        put_u8(&mut out, self.version);
        put_u64(&mut out, self.last_update.slot);
        put_bool(&mut out, self.last_update.stale);
        put_key(&mut out, &self.lending_market);
        put_key(&mut out, &self.owner);
        put_decimal(&mut out, self.deposited_value);
        put_decimal(&mut out, self.borrowed_value);
        put_decimal(&mut out, self.allowed_borrow_value);
        put_decimal(&mut out, self.unhealthy_borrow_value);
        put_u8(&mut out, self.deposits.len() as u8);
        put_u8(&mut out, self.borrows.len() as u8);
        put_decimal(&mut out, self.unclaimed_mine);
        let mut slab: Vec<u8> = Vec::new();
        let mut i: usize = 0;
        while i < self.deposits.len()
            invariant
                i <= self.deposits@.len(),
                slab@ == collaterals_bytes(self.deposits@.subrange(0, i as int)),
            decreases self.deposits@.len() - i,
        {
            put_collateral(&mut slab, &self.deposits[i]);
            i = i + 1;
            assert(self.deposits@.subrange(0, i as int).drop_last() =~= self.deposits@.subrange(0, i - 1));
        }
        assert(self.deposits@.subrange(0, self.deposits@.len() as int) =~= self.deposits@);
        append_all(&mut out, &slab);
        let mut slab: Vec<u8> = Vec::new();
        let mut j: usize = 0;
        while j < self.borrows.len()
            invariant
                j <= self.borrows@.len(),
                slab@ == liquidities_bytes(self.borrows@.subrange(0, j as int)),
            decreases self.borrows@.len() - j,
        {
            put_liquidity(&mut slab, &self.borrows[j]);
            j = j + 1;
            assert(self.borrows@.subrange(0, j as int).drop_last() =~= self.borrows@.subrange(0, j - 1));
        }
        assert(self.borrows@.subrange(0, self.borrows@.len() as int) =~= self.borrows@);
        append_all(&mut out, &slab);
        put_zeros(&mut out, 936 - 72 * self.deposits.len() - 96 * self.borrows.len());
        out
    }

    /// Writes the stored form of this obligation into `output`.
    pub fn pack_into_slice(&self, output: &mut [u8])
        requires
            entries_fit(self.deposits@.len(), self.borrows@.len()),
            old(output)@.len() == OBLIGATION_LEN,
        ensures
            final(output)@ == obligation_bytes(*self),
    {
        let v = self.pack();
        proof {
            lemma_obligation_layout(*self);
        }
        copy_into(output, &v);
    }

    /// Reads a stored obligation. The buffer must have exactly the stored
    /// length, a supported version, a valid boolean and entry counts that fit.
    pub fn unpack_from_slice(input: &[u8]) -> (r: Result<Obligation, LendingError>)
        ensures
            input@.len() != OBLIGATION_LEN ==> r == Err::<Obligation, LendingError>(LendingError::DecodeError),
            input@.len() == OBLIGATION_LEN && input@[0] > PROGRAM_VERSION
                ==> r == Err::<Obligation, LendingError>(LendingError::VersionMismatch),
            input@.len() == OBLIGATION_LEN && input@[0] <= PROGRAM_VERSION && !obligation_bytes_valid(input@)
                ==> r == Err::<Obligation, LendingError>(LendingError::DecodeError),
            r is Ok <==> obligation_bytes_valid(input@),
            r is Ok ==> obligation_read_from(r->Ok_0, input@),
    {
        if input.len() != OBLIGATION_LEN {
            return Err(LendingError::DecodeError);
        }
        let version = get_u8(input, 0);
        if version > PROGRAM_VERSION {
            return Err(LendingError::VersionMismatch);
        }
        let stale = match get_bool(input, 9) {
            Ok(v) => v,
            Err(e) => return Err(e),
        };
        let deposits_len = get_u8(input, 138) as usize;
        let borrows_len = get_u8(input, 139) as usize;
        if deposits_len + borrows_len > MAX_OBLIGATION_RESERVES
            || 72 * deposits_len + 96 * borrows_len > OBLIGATION_SLAB_LEN {
            return Err(LendingError::DecodeError);
        }
        let mut deposits: Vec<ObligationCollateral> = Vec::new();
        let mut i: usize = 0;
        while i < deposits_len
            invariant
                i <= deposits_len,
                deposits_len == input@[138],
                input@.len() == OBLIGATION_LEN,
                72 * deposits_len <= OBLIGATION_SLAB_LEN,
                deposits@.len() == i,
                forall|k: int| 0 <= k < i ==> #[trigger] collateral_read_from(
                    deposits@[k], input@.subrange(156 + 72 * k, 156 + 72 * k + 72)),
            decreases deposits_len - i,
        {
            let c = get_collateral(input, 156 + 72 * i);
            deposits.push(c);
            i = i + 1;
        }
        let base = 156 + 72 * deposits_len;
        let mut borrows: Vec<ObligationLiquidity> = Vec::new();
        let mut j: usize = 0;
        while j < borrows_len
            invariant
                j <= borrows_len,
                deposits_len == input@[138],
                base == 156 + 72 * deposits_len,
                input@.len() == OBLIGATION_LEN,
                72 * deposits_len + 96 * borrows_len <= OBLIGATION_SLAB_LEN,
                borrows@.len() == j,
                forall|k: int| 0 <= k < j ==> #[trigger] liquidity_read_from(
                    borrows@[k], input@.subrange(base + 96 * k, base + 96 * k + 96)),
            decreases borrows_len - j,
        {
            let l = get_liquidity(input, base + 96 * j);
            borrows.push(l);
            j = j + 1;
        }
        Ok(Obligation {
            version,
            last_update: LastUpdate { slot: get_u64(input, 1), stale },
            lending_market: get_key(input, 10),
            owner: get_key(input, 42),
            deposits,
            borrows,
            deposited_value: get_decimal(input, 74),
            borrowed_value: get_decimal(input, 90),
            allowed_borrow_value: get_decimal(input, 106),
            unhealthy_borrow_value: get_decimal(input, 122),
            unclaimed_mine: get_decimal(input, 140),
        })
    }
}

/// Entry `i` of a list of deposit entries sits at `72 * i` in its bytes.
proof fn lemma_collaterals_bytes(s: Seq<ObligationCollateral>)
    ensures
        collaterals_bytes(s).len() == 72 * s.len(),
        forall|i: int| 0 <= i < s.len() ==> #[trigger] collaterals_bytes(s).subrange(72 * i, 72 * i + 72) == collateral_bytes(s[i]),
    decreases s.len(),
{
    vstd::bytes::lemma_auto_spec_u64_to_from_le_bytes();
    vstd::bytes::lemma_auto_spec_u128_to_from_le_bytes();
    if s.len() > 0 {
        let p = s.drop_last();
        lemma_collaterals_bytes(p);
        assert forall|i: int| 0 <= i < s.len() implies #[trigger] collaterals_bytes(s).subrange(72 * i, 72 * i + 72) == collateral_bytes(s[i]) by {
            if i < s.len() - 1 {
                assert(p[i] == s[i]);
                assert(collaterals_bytes(s).subrange(72 * i, 72 * i + 72) =~= collaterals_bytes(p).subrange(72 * i, 72 * i + 72));
            } else {
                assert(collaterals_bytes(s).subrange(72 * i, 72 * i + 72) =~= collateral_bytes(s.last()));
            }
        }
    }
}

/// Entry `i` of a list of borrow entries sits at `96 * i` in its bytes.
proof fn lemma_liquidities_bytes(s: Seq<ObligationLiquidity>)
    ensures
        liquidities_bytes(s).len() == 96 * s.len(),
        forall|i: int| 0 <= i < s.len() ==> #[trigger] liquidities_bytes(s).subrange(96 * i, 96 * i + 96) == liquidity_bytes(s[i]),
    decreases s.len(),
{
    vstd::bytes::lemma_auto_spec_u128_to_from_le_bytes();
    if s.len() > 0 {
        let p = s.drop_last();
        lemma_liquidities_bytes(p);
        assert forall|i: int| 0 <= i < s.len() implies #[trigger] liquidities_bytes(s).subrange(96 * i, 96 * i + 96) == liquidity_bytes(s[i]) by {
            if i < s.len() - 1 {
                assert(p[i] == s[i]);
                assert(liquidities_bytes(s).subrange(96 * i, 96 * i + 96) =~= liquidities_bytes(p).subrange(96 * i, 96 * i + 96));
            } else {
                assert(liquidities_bytes(s).subrange(96 * i, 96 * i + 96) =~= liquidity_bytes(s.last()));
            }
        }
    }
}

/// A stored deposit entry reads back as the same entry.
proof fn lemma_collateral_round_trip(c: ObligationCollateral, d: ObligationCollateral)
    requires
        collateral_read_from(d, collateral_bytes(c)),
    ensures
        d == c,
{
    vstd::bytes::lemma_auto_spec_u64_to_from_le_bytes();
    vstd::bytes::lemma_auto_spec_u128_to_from_le_bytes();
    let b = collateral_bytes(c);
    assert(b.subrange(0, 32) =~= c.deposit_reserve.0@);
    assert(b.subrange(32, 40) =~= spec_u64_to_le_bytes(c.deposited_amount));
    assert(b.subrange(40, 56) =~= decimal_bytes(c.market_value));
    assert(b.subrange(56, 72) =~= decimal_bytes(c.index));
    assert(d.deposit_reserve.0 =~= c.deposit_reserve.0);
}

/// A stored borrow entry reads back as the same entry.
proof fn lemma_liquidity_round_trip(l: ObligationLiquidity, d: ObligationLiquidity)
    requires
        liquidity_read_from(d, liquidity_bytes(l)),
    ensures
        d == l,
{
    vstd::bytes::lemma_auto_spec_u128_to_from_le_bytes();
    let b = liquidity_bytes(l);
    assert(b.subrange(0, 32) =~= l.borrow_reserve.0@);
    assert(b.subrange(32, 48) =~= decimal_bytes(l.cumulative_borrow_rate_wads));
    assert(b.subrange(48, 64) =~= decimal_bytes(l.borrowed_amount_wads));
    assert(b.subrange(64, 80) =~= decimal_bytes(l.market_value));
    assert(b.subrange(80, 96) =~= decimal_bytes(l.index));
    assert(d.borrow_reserve.0 =~= l.borrow_reserve.0);
}

/// Each field of an obligation sits at its offset in the stored form, and the
/// entries one after another in the slab.
pub proof fn lemma_obligation_layout(o: Obligation)
    requires
        entries_fit(o.deposits@.len(), o.borrows@.len()),
    ensures
        obligation_bytes(o).len() == OBLIGATION_LEN,
        obligation_bytes(o)[0] == o.version,
        obligation_bytes(o).subrange(1, 9) == spec_u64_to_le_bytes(o.last_update.slot),
        obligation_bytes(o)[9] == bool_byte(o.last_update.stale),
        obligation_bytes(o).subrange(10, 42) == o.lending_market.0@,
        obligation_bytes(o).subrange(42, 74) == o.owner.0@,
        obligation_bytes(o).subrange(74, 90) == decimal_bytes(o.deposited_value),
        obligation_bytes(o).subrange(90, 106) == decimal_bytes(o.borrowed_value),
        obligation_bytes(o).subrange(106, 122) == decimal_bytes(o.allowed_borrow_value),
        obligation_bytes(o).subrange(122, 138) == decimal_bytes(o.unhealthy_borrow_value),
        obligation_bytes(o)[138] == o.deposits@.len(),
        obligation_bytes(o)[139] == o.borrows@.len(),
        obligation_bytes(o).subrange(140, 156) == decimal_bytes(o.unclaimed_mine),
        forall|i: int| 0 <= i < o.deposits@.len() ==> #[trigger] obligation_bytes(o).subrange(156 + 72 * i, 156 + 72 * i + 72) == collateral_bytes(o.deposits@[i]),
        forall|j: int| 0 <= j < o.borrows@.len() ==> #[trigger] obligation_bytes(o).subrange(156 + 72 * o.deposits@.len() + 96 * j, 156 + 72 * o.deposits@.len() + 96 * j + 96) == liquidity_bytes(o.borrows@[j]),
{
    vstd::bytes::lemma_auto_spec_u64_to_from_le_bytes();
    vstd::bytes::lemma_auto_spec_u128_to_from_le_bytes();
    lemma_collaterals_bytes(o.deposits@);
    lemma_liquidities_bytes(o.borrows@);
    let b = obligation_bytes(o);
    let nd = o.deposits@.len() as int;
    let nb = o.borrows@.len() as int;
    assert(b.subrange(1, 9) =~= spec_u64_to_le_bytes(o.last_update.slot));
    assert(b.subrange(10, 42) =~= o.lending_market.0@);
    assert(b.subrange(42, 74) =~= o.owner.0@);
    assert(b.subrange(74, 90) =~= decimal_bytes(o.deposited_value));
    assert(b.subrange(90, 106) =~= decimal_bytes(o.borrowed_value));
    assert(b.subrange(106, 122) =~= decimal_bytes(o.allowed_borrow_value));
    assert(b.subrange(122, 138) =~= decimal_bytes(o.unhealthy_borrow_value));
    assert(b.subrange(140, 156) =~= decimal_bytes(o.unclaimed_mine));
    assert(b.subrange(156, 156 + 72 * nd) =~= collaterals_bytes(o.deposits@));
    assert(b.subrange(156 + 72 * nd, 156 + 72 * nd + 96 * nb) =~= liquidities_bytes(o.borrows@));
    assert forall|i: int| 0 <= i < nd implies #[trigger] b.subrange(156 + 72 * i, 156 + 72 * i + 72) == collateral_bytes(o.deposits@[i]) by {
        assert(b.subrange(156 + 72 * i, 156 + 72 * i + 72) =~= b.subrange(156, 156 + 72 * nd).subrange(72 * i, 72 * i + 72));
    }
    assert forall|j: int| 0 <= j < o.borrows@.len() implies #[trigger] b.subrange(156 + 72 * nd + 96 * j, 156 + 72 * nd + 96 * j + 96) == liquidity_bytes(o.borrows@[j]) by {
        assert(b.subrange(156 + 72 * nd + 96 * j, 156 + 72 * nd + 96 * j + 96) =~= b.subrange(156 + 72 * nd, 156 + 72 * nd + 96 * nb).subrange(96 * j, 96 * j + 96));
    }
}

/// Two obligations that hold the same values, entry lists compared by their
/// contents.
pub open spec fn obligation_same(a: Obligation, b: Obligation) -> bool {
    &&& a.version == b.version
    &&& a.last_update == b.last_update
    &&& a.lending_market == b.lending_market
    &&& a.owner == b.owner
    &&& a.deposits@ == b.deposits@
    &&& a.borrows@ == b.borrows@
    &&& a.deposited_value == b.deposited_value
    &&& a.borrowed_value == b.borrowed_value
    &&& a.allowed_borrow_value == b.allowed_borrow_value
    &&& a.unhealthy_borrow_value == b.unhealthy_borrow_value
    &&& a.unclaimed_mine == b.unclaimed_mine
}

/// Reading back the stored form of an obligation of a supported version whose
/// entries fit succeeds and gives the same obligation.
pub proof fn lemma_obligation_round_trip(o: Obligation, d: Obligation)
    requires
        o.version <= PROGRAM_VERSION,
        entries_fit(o.deposits@.len(), o.borrows@.len()),
        obligation_read_from(d, obligation_bytes(o)),
    ensures
        obligation_bytes_valid(obligation_bytes(o)),
        obligation_same(d, o),
{
    lemma_obligation_layout(o);
    vstd::bytes::lemma_auto_spec_u64_to_from_le_bytes();
    vstd::bytes::lemma_auto_spec_u128_to_from_le_bytes();
    let b = obligation_bytes(o);
    assert(d.lending_market.0 =~= o.lending_market.0);
    assert(d.owner.0 =~= o.owner.0);
    assert forall|i: int| 0 <= i < o.deposits@.len() implies d.deposits@[i] == o.deposits@[i] by {
        assert(collateral_read_from(d.deposits@[i], b.subrange(156 + 72 * i, 156 + 72 * i + 72)));
        lemma_collateral_round_trip(o.deposits@[i], d.deposits@[i]);
    }
    assert forall|j: int| 0 <= j < o.borrows@.len() implies d.borrows@[j] == o.borrows@[j] by {
        assert(b[138] as int == o.deposits@.len());
        assert(liquidity_read_from(d.borrows@[j], b.subrange(156 + 72 * b[138] + 96 * j, 156 + 72 * b[138] + 96 * j + 96)));
        assert(b.subrange(156 + 72 * o.deposits@.len() + 96 * j, 156 + 72 * o.deposits@.len() + 96 * j + 96) == liquidity_bytes(o.borrows@[j]));
        lemma_liquidity_round_trip(o.borrows@[j], d.borrows@[j]);
    }
    assert(d.deposits@ =~= o.deposits@);
    assert(d.borrows@ =~= o.borrows@);
}

impl ObligationCollateral {
    /// A new deposit entry for `deposit_reserve`, holding nothing.
    pub open spec fn new_spec(deposit_reserve: Pubkey) -> ObligationCollateral {
        ObligationCollateral { index: Decimal(0), deposit_reserve, deposited_amount: 0, market_value: Decimal(0) }
    }

    /// A new deposit entry for `deposit_reserve`, holding nothing.
    pub fn new(deposit_reserve: Pubkey) -> (r: ObligationCollateral)
        ensures
            r == ObligationCollateral::new_spec(deposit_reserve),
            r.deposit_reserve == deposit_reserve,
            r.deposited_amount == 0,
            r.market_value.0 == 0,
            r.index.0 == 0,
    {
        ObligationCollateral {
            index: Decimal::zero(),
            deposit_reserve,
            deposited_amount: 0,
            market_value: Decimal::zero(),
        }
    }

    /// Adds `collateral_amount` to the deposited amount.
    pub fn deposit(&mut self, collateral_amount: u64) -> (r: Result<(), LendingError>)
        ensures
            old(self).deposited_amount + collateral_amount <= u64::MAX ==> r is Ok
                && *final(self) == (ObligationCollateral {
                    deposited_amount: (old(self).deposited_amount + collateral_amount) as u64,
                    ..*old(self)
                }),
            old(self).deposited_amount + collateral_amount > u64::MAX ==> r == Err::<(), LendingError>(LendingError::MathOverflow)
                && *final(self) == *old(self),
    {
        match self.deposited_amount.checked_add(collateral_amount) {
            Some(v) => {
                self.deposited_amount = v;
                Ok(())
            },
            None => Err(LendingError::MathOverflow),
        }
    }
}

impl ObligationLiquidity {
    /// A new borrow entry for `borrow_reserve`, owing nothing.
    pub open spec fn new_spec(borrow_reserve: Pubkey, cumulative_borrow_rate_wads: Decimal) -> ObligationLiquidity {
        ObligationLiquidity {
            index: Decimal(0),
            borrow_reserve,
            cumulative_borrow_rate_wads,
            borrowed_amount_wads: Decimal(0),
            market_value: Decimal(0),
        }
    }

    /// A new borrow entry for `borrow_reserve`, owing nothing, at the given
    /// cumulative borrow rate.
    pub fn new(borrow_reserve: Pubkey, cumulative_borrow_rate_wads: Decimal) -> (r: ObligationLiquidity)
        ensures
            r == ObligationLiquidity::new_spec(borrow_reserve, cumulative_borrow_rate_wads),
            r.borrow_reserve == borrow_reserve,
            r.cumulative_borrow_rate_wads == cumulative_borrow_rate_wads,
            r.borrowed_amount_wads.0 == 0,
            r.market_value.0 == 0,
            r.index.0 == 0,
    {
        ObligationLiquidity {
            index: Decimal::zero(),
            borrow_reserve,
            cumulative_borrow_rate_wads,
            borrowed_amount_wads: Decimal::zero(),
            market_value: Decimal::zero(),
        }
    }

    /// The entry after interest up to the cumulative rate `new_rate`: the debt
    /// grows by `new_rate / old rate`, both rounded down.
    pub open spec fn spec_accrue_interest(self, new_rate: Decimal) -> Result<ObligationLiquidity, LendingError> {
        if new_rate.0 < self.cumulative_borrow_rate_wads.0 {
            Err(LendingError::NegativeInterestRate)
        } else if new_rate.0 == self.cumulative_borrow_rate_wads.0 {
            Ok(self)
        } else {
            match new_rate.spec_div(self.cumulative_borrow_rate_wads) {
                Err(e) => Err(e),
                Ok(compounded) => match self.borrowed_amount_wads.spec_mul(compounded) {
                    Err(e) => Err(e),
                    Ok(b) => Ok(ObligationLiquidity {
                        cumulative_borrow_rate_wads: new_rate,
                        borrowed_amount_wads: b,
                        ..self
                    }),
                },
            }
        }
    }

    /// Accrues interest up to the reserve's cumulative borrow rate. A rate
    /// below the stored one is refused; on an error nothing changes.
    pub fn accrue_interest(&mut self, cumulative_borrow_rate_wads: Decimal) -> (r: Result<(), LendingError>)
        ensures
            match old(self).spec_accrue_interest(cumulative_borrow_rate_wads) {
                Ok(l) => r is Ok && *final(self) == l,
                Err(e) => r == Err::<(), LendingError>(e) && *final(self) == *old(self),
            },
    {
        if cumulative_borrow_rate_wads.0 < self.cumulative_borrow_rate_wads.0 {
            return Err(LendingError::NegativeInterestRate);
        }
        if cumulative_borrow_rate_wads.0 == self.cumulative_borrow_rate_wads.0 {
            return Ok(());
        }
        let compounded = match cumulative_borrow_rate_wads.try_div(self.cumulative_borrow_rate_wads) {
            Ok(c) => c,
            Err(e) => return Err(e),
        };
        let borrowed = match self.borrowed_amount_wads.try_mul(compounded) {
            Ok(b) => b,
            Err(e) => return Err(e),
        };
        self.borrowed_amount_wads = borrowed;
        self.cumulative_borrow_rate_wads = cumulative_borrow_rate_wads;
        Ok(())
    }

    /// Adds `borrow_amount` to the debt.
    pub fn borrow(&mut self, borrow_amount: Decimal) -> (r: Result<(), LendingError>)
        ensures
            match old(self).borrowed_amount_wads.spec_add(borrow_amount) {
                Ok(b) => r is Ok && *final(self) == (ObligationLiquidity { borrowed_amount_wads: b, ..*old(self) }),
                Err(e) => r == Err::<(), LendingError>(e) && *final(self) == *old(self),
            },
    {
        match self.borrowed_amount_wads.try_add(borrow_amount) {
            Ok(b) => {
                self.borrowed_amount_wads = b;
                Ok(())
            },
            Err(e) => Err(e),
        }
    }
}

/// Interest accrual never lowers a debt and never accepts a falling rate: with
/// an equal rate the debt is unchanged, with a smaller one the outcome is
/// `NegativeInterestRate`, and with a larger one the debt does not shrink.
pub proof fn lemma_accrual_monotonic(l: ObligationLiquidity, new_rate: Decimal)
    ensures
        new_rate == l.cumulative_borrow_rate_wads ==> l.spec_accrue_interest(new_rate) == Ok::<ObligationLiquidity, LendingError>(l),
        new_rate.0 < l.cumulative_borrow_rate_wads.0 ==> l.spec_accrue_interest(new_rate)
            == Err::<ObligationLiquidity, LendingError>(LendingError::NegativeInterestRate),
        new_rate.0 > l.cumulative_borrow_rate_wads.0 && l.spec_accrue_interest(new_rate) is Ok
            ==> l.spec_accrue_interest(new_rate)->Ok_0.borrowed_amount_wads.0 >= l.borrowed_amount_wads.0,
{
    let old_rate = l.cumulative_borrow_rate_wads.0 as int;
    let n = new_rate.0 as int;
    let b = l.borrowed_amount_wads.0 as int;
    if n > old_rate && l.spec_accrue_interest(new_rate) is Ok {
        assert(n * WAD / old_rate >= WAD) by (nonlinear_arith)
            requires n > old_rate, old_rate > 0;
        let c = n * WAD / old_rate;
        assert(b * c / WAD as int >= b) by (nonlinear_arith)
            requires c >= WAD, b >= 0;
    }
}

/// With a larger rate the debt strictly grows exactly when the growth factor,
/// rounded down, adds at least one raw unit: `b * (c - WAD) >= WAD` for the
/// debt `b` and the factor `c = new_rate / old_rate`. A zero debt, or a rate
/// step too small to show in the debt, leaves it unchanged.
pub proof fn lemma_accrual_strictly_increases(l: ObligationLiquidity, new_rate: Decimal)
    requires
        new_rate.0 > l.cumulative_borrow_rate_wads.0,
        l.spec_accrue_interest(new_rate) is Ok,
        l.borrowed_amount_wads.0 * (new_rate.0 * WAD / l.cumulative_borrow_rate_wads.0 as int - WAD) >= WAD,
    ensures
        l.spec_accrue_interest(new_rate)->Ok_0.borrowed_amount_wads.0 > l.borrowed_amount_wads.0,
{
    let c = new_rate.0 * WAD / l.cumulative_borrow_rate_wads.0 as int;
    let b = l.borrowed_amount_wads.0 as int;
    assert(b * c / WAD as int > b) by (nonlinear_arith)
        requires b * (c - WAD) >= WAD, b >= 0;
}

/// Removing an entry, or changing one without changing its reserve, keeps
/// the deposit entries unique.
pub proof fn lemma_deposits_unique_kept(s: Seq<ObligationCollateral>, i: int, c: ObligationCollateral)
    requires
        deposits_unique(s),
        0 <= i < s.len(),
        c.deposit_reserve == s[i].deposit_reserve,
    ensures
        deposits_unique(s.remove(i)),
        deposits_unique(s.update(i, c)),
{
    let r = s.remove(i);
    assert forall|a: int, b: int| 0 <= a < r.len() && 0 <= b < r.len() && a != b implies r[a].deposit_reserve != r[b].deposit_reserve by {
        let a2 = if a < i { a } else { a + 1 };
        let b2 = if b < i { b } else { b + 1 };
        assert(r[a] == s[a2]);
        assert(r[b] == s[b2]);
    }
    let u = s.update(i, c);
    assert forall|a: int, b: int| 0 <= a < u.len() && 0 <= b < u.len() && a != b implies u[a].deposit_reserve != u[b].deposit_reserve by {
        assert(u[a].deposit_reserve == s[a].deposit_reserve);
        assert(u[b].deposit_reserve == s[b].deposit_reserve);
    }
}

/// Removing an entry, or changing one without changing its reserve, keeps
/// the borrow entries unique.
pub proof fn lemma_borrows_unique_kept(s: Seq<ObligationLiquidity>, i: int, l: ObligationLiquidity)
    requires
        borrows_unique(s),
        0 <= i < s.len(),
        l.borrow_reserve == s[i].borrow_reserve,
    ensures
        borrows_unique(s.remove(i)),
        borrows_unique(s.update(i, l)),
{
    let r = s.remove(i);
    assert forall|a: int, b: int| 0 <= a < r.len() && 0 <= b < r.len() && a != b implies r[a].borrow_reserve != r[b].borrow_reserve by {
        let a2 = if a < i { a } else { a + 1 };
        let b2 = if b < i { b } else { b + 1 };
        assert(r[a] == s[a2]);
        assert(r[b] == s[b2]);
    }
    let u = s.update(i, l);
    assert forall|a: int, b: int| 0 <= a < u.len() && 0 <= b < u.len() && a != b implies u[a].borrow_reserve != u[b].borrow_reserve by {
        assert(u[a].borrow_reserve == s[a].borrow_reserve);
        assert(u[b].borrow_reserve == s[b].borrow_reserve);
    }
}

/// Adding an entry for a reserve that has none keeps the deposit entries unique.
pub proof fn lemma_deposits_unique_push(s: Seq<ObligationCollateral>, c: ObligationCollateral)
    requires
        deposits_unique(s),
        forall|i: int| 0 <= i < s.len() ==> s[i].deposit_reserve != c.deposit_reserve,
    ensures
        deposits_unique(s.push(c)),
{
    let p = s.push(c);
    assert forall|a: int, b: int| 0 <= a < p.len() && 0 <= b < p.len() && a != b implies p[a].deposit_reserve != p[b].deposit_reserve by {
        if a < s.len() && b < s.len() {
            assert(p[a] == s[a] && p[b] == s[b]);
        } else if a < s.len() {
            assert(p[a] == s[a] && p[b] == c);
        } else {
            assert(p[b] == s[b] && p[a] == c);
        }
    }
}

/// Adding an entry for a reserve that has none keeps the borrow entries unique.
pub proof fn lemma_borrows_unique_push(s: Seq<ObligationLiquidity>, l: ObligationLiquidity)
    requires
        borrows_unique(s),
        forall|i: int| 0 <= i < s.len() ==> s[i].borrow_reserve != l.borrow_reserve,
    ensures
        borrows_unique(s.push(l)),
{
    let p = s.push(l);
    assert forall|a: int, b: int| 0 <= a < p.len() && 0 <= b < p.len() && a != b implies p[a].borrow_reserve != p[b].borrow_reserve by {
        if a < s.len() && b < s.len() {
            assert(p[a] == s[a] && p[b] == s[b]);
        } else if a < s.len() {
            assert(p[a] == s[a] && p[b] == l);
        } else {
            assert(p[b] == s[b] && p[a] == l);
        }
    }
}

impl Obligation {
    /// Index of the deposit entry for `reserve`, if there is one.
    pub fn find_collateral_in_deposits(&self, reserve: &Pubkey) -> (r: Option<usize>)
        ensures
            r is Some ==> r->0 < self.deposits@.len() && self.deposits@[r->0 as int].deposit_reserve == *reserve
                && forall|k: int| 0 <= k < r->0 ==> self.deposits@[k].deposit_reserve != *reserve,
            r is None ==> forall|i: int| 0 <= i < self.deposits@.len() ==> self.deposits@[i].deposit_reserve != *reserve,
    {
        let mut i: usize = 0;
        while i < self.deposits.len()
            invariant
                i <= self.deposits@.len(),
                forall|k: int| 0 <= k < i ==> self.deposits@[k].deposit_reserve != *reserve,
            decreases self.deposits@.len() - i,
        {
            if self.deposits[i].deposit_reserve.key_eq(reserve) {
                return Some(i);
            }
            i = i + 1;
        }
        None
    }

    /// Index of the borrow entry for `reserve`, if there is one.
    pub fn find_liquidity_in_borrows(&self, reserve: &Pubkey) -> (r: Option<usize>)
        ensures
            r is Some ==> r->0 < self.borrows@.len() && self.borrows@[r->0 as int].borrow_reserve == *reserve
                && forall|k: int| 0 <= k < r->0 ==> self.borrows@[k].borrow_reserve != *reserve,
            r is None ==> forall|i: int| 0 <= i < self.borrows@.len() ==> self.borrows@[i].borrow_reserve != *reserve,
    {
        let mut i: usize = 0;
        while i < self.borrows.len()
            invariant
                i <= self.borrows@.len(),
                forall|k: int| 0 <= k < i ==> self.borrows@[k].borrow_reserve != *reserve,
            decreases self.borrows@.len() - i,
        {
            if self.borrows[i].borrow_reserve.key_eq(reserve) {
                return Some(i);
            }
            i = i + 1;
        }
        None
    }

    /// Adds an empty deposit entry for `reserve`. A reserve already listed is
    /// `DuplicateReserveEntry`; an entry that would not fit is `CapacityExceeded`.
    pub fn add_collateral(&mut self, reserve: Pubkey) -> (r: Result<usize, LendingError>)
        requires
            entries_fit(old(self).deposits@.len(), old(self).borrows@.len()),
        ensures
            entries_fit(final(self).deposits@.len(), final(self).borrows@.len()),
            old(self).spec_wf() ==> final(self).spec_wf(),
            (exists|i: int| 0 <= i < old(self).deposits@.len() && old(self).deposits@[i].deposit_reserve == reserve)
                ==> r == Err::<usize, LendingError>(LendingError::DuplicateReserveEntry) && *final(self) == *old(self),
            (forall|i: int| 0 <= i < old(self).deposits@.len() ==> old(self).deposits@[i].deposit_reserve != reserve)
                && !entries_fit(old(self).deposits@.len() + 1nat, old(self).borrows@.len())
                ==> r == Err::<usize, LendingError>(LendingError::CapacityExceeded) && *final(self) == *old(self),
            (forall|i: int| 0 <= i < old(self).deposits@.len() ==> old(self).deposits@[i].deposit_reserve != reserve)
                && entries_fit(old(self).deposits@.len() + 1nat, old(self).borrows@.len())
                ==> r == Ok::<usize, LendingError>(old(self).deposits@.len() as usize)
                && final(self).deposits@ == old(self).deposits@.push(ObligationCollateral::new_spec(reserve))
                && final(self).borrows@ == old(self).borrows@,
    {
        match self.find_collateral_in_deposits(&reserve) {
            Some(_) => Err(LendingError::DuplicateReserveEntry),
            None => {
                if self.deposits.len() + self.borrows.len() + 1 > MAX_OBLIGATION_RESERVES
                    || 72 * (self.deposits.len() + 1) + 96 * self.borrows.len() > OBLIGATION_SLAB_LEN {
                    return Err(LendingError::CapacityExceeded);
                }
                let i = self.deposits.len();
                proof {
                    if old(self).spec_wf() {
                        lemma_deposits_unique_push(self.deposits@, ObligationCollateral::new_spec(reserve));
                    }
                }
                self.deposits.push(ObligationCollateral::new(reserve));
                Ok(i)
            },
        }
    }

    /// Adds an empty borrow entry for `reserve` at the given cumulative rate.
    /// A reserve already listed is `DuplicateReserveEntry`; an entry that
    /// would not fit is `CapacityExceeded`.
    pub fn add_liquidity(&mut self, reserve: Pubkey, cumulative_borrow_rate_wads: Decimal) -> (r: Result<usize, LendingError>)
        requires
            entries_fit(old(self).deposits@.len(), old(self).borrows@.len()),
        ensures
            entries_fit(final(self).deposits@.len(), final(self).borrows@.len()),
            old(self).spec_wf() ==> final(self).spec_wf(),
            (exists|i: int| 0 <= i < old(self).borrows@.len() && old(self).borrows@[i].borrow_reserve == reserve)
                ==> r == Err::<usize, LendingError>(LendingError::DuplicateReserveEntry) && *final(self) == *old(self),
            (forall|i: int| 0 <= i < old(self).borrows@.len() ==> old(self).borrows@[i].borrow_reserve != reserve)
                && !entries_fit(old(self).deposits@.len(), old(self).borrows@.len() + 1nat)
                ==> r == Err::<usize, LendingError>(LendingError::CapacityExceeded) && *final(self) == *old(self),
            (forall|i: int| 0 <= i < old(self).borrows@.len() ==> old(self).borrows@[i].borrow_reserve != reserve)
                && entries_fit(old(self).deposits@.len(), old(self).borrows@.len() + 1nat)
                ==> r == Ok::<usize, LendingError>(old(self).borrows@.len() as usize)
                && final(self).borrows@ == old(self).borrows@.push(ObligationLiquidity::new_spec(reserve, cumulative_borrow_rate_wads))
                && final(self).deposits@ == old(self).deposits@,
    {
        match self.find_liquidity_in_borrows(&reserve) {
            Some(_) => Err(LendingError::DuplicateReserveEntry),
            None => {
                if self.deposits.len() + self.borrows.len() + 1 > MAX_OBLIGATION_RESERVES
                    || 72 * self.deposits.len() + 96 * (self.borrows.len() + 1) > OBLIGATION_SLAB_LEN {
                    return Err(LendingError::CapacityExceeded);
                }
                let i = self.borrows.len();
                proof {
                    if old(self).spec_wf() {
                        lemma_borrows_unique_push(self.borrows@, ObligationLiquidity::new_spec(reserve, cumulative_borrow_rate_wads));
                    }
                }
                self.borrows.push(ObligationLiquidity::new(reserve, cumulative_borrow_rate_wads));
                Ok(i)
            },
        }
    }

    /// Takes `settle_amount` off the debt of borrow entry `liquidity_index`;
    /// a settlement that covers the whole debt removes the entry.
    pub fn repay(&mut self, settle_amount: Decimal, liquidity_index: usize) -> (r: Result<(), LendingError>)
        requires
            liquidity_index < old(self).borrows@.len(),
        ensures
            r is Ok,
            old(self).spec_wf() ==> final(self).spec_wf(),
            final(self).deposits@ == old(self).deposits@,
            settle_amount.0 >= old(self).borrows@[liquidity_index as int].borrowed_amount_wads.0
                ==> final(self).borrows@ == old(self).borrows@.remove(liquidity_index as int),
            settle_amount.0 < old(self).borrows@[liquidity_index as int].borrowed_amount_wads.0
                ==> final(self).borrows@ == old(self).borrows@.update(liquidity_index as int, ObligationLiquidity {
                    borrowed_amount_wads: Decimal((old(self).borrows@[liquidity_index as int].borrowed_amount_wads.0 - settle_amount.0) as u128),
                    ..old(self).borrows@[liquidity_index as int]
                }),
            final(self).version == old(self).version,
            final(self).last_update == old(self).last_update,
            final(self).lending_market == old(self).lending_market,
            final(self).owner == old(self).owner,
            final(self).deposited_value == old(self).deposited_value,
            final(self).borrowed_value == old(self).borrowed_value,
            final(self).allowed_borrow_value == old(self).allowed_borrow_value,
            final(self).unhealthy_borrow_value == old(self).unhealthy_borrow_value,
            final(self).unclaimed_mine == old(self).unclaimed_mine,
    {
        let mut liquidity = self.borrows[liquidity_index];
        proof {
            if old(self).spec_wf() {
                lemma_borrows_unique_kept(self.borrows@, liquidity_index as int, ObligationLiquidity {
                    borrowed_amount_wads: Decimal((liquidity.borrowed_amount_wads.0 - settle_amount.0) as u128),
                    ..liquidity
                });
            }
        }
        if settle_amount.0 >= liquidity.borrowed_amount_wads.0 {
            self.borrows.remove(liquidity_index);
        } else {
            liquidity.borrowed_amount_wads = Decimal(liquidity.borrowed_amount_wads.0 - settle_amount.0);
            self.borrows.set(liquidity_index, liquidity);
        }
        Ok(())
    }

    /// Takes `withdraw_amount` out of deposit entry `collateral_index`;
    /// withdrawing all of it removes the entry, and more than it is
    /// `WithdrawTooLarge`.
    pub fn withdraw(&mut self, withdraw_amount: u64, collateral_index: usize) -> (r: Result<(), LendingError>)
        requires
            collateral_index < old(self).deposits@.len(),
        ensures
            old(self).spec_wf() ==> final(self).spec_wf(),
            withdraw_amount > old(self).deposits@[collateral_index as int].deposited_amount
                ==> r == Err::<(), LendingError>(LendingError::WithdrawTooLarge) && *final(self) == *old(self),
            withdraw_amount == old(self).deposits@[collateral_index as int].deposited_amount
                ==> r is Ok && final(self).deposits@ == old(self).deposits@.remove(collateral_index as int),
            withdraw_amount < old(self).deposits@[collateral_index as int].deposited_amount
                ==> r is Ok && final(self).deposits@ == old(self).deposits@.update(collateral_index as int, ObligationCollateral {
                    deposited_amount: (old(self).deposits@[collateral_index as int].deposited_amount - withdraw_amount) as u64,
                    ..old(self).deposits@[collateral_index as int]
                }),
            final(self).borrows@ == old(self).borrows@,
            final(self).version == old(self).version,
            final(self).last_update == old(self).last_update,
            final(self).lending_market == old(self).lending_market,
            final(self).owner == old(self).owner,
            final(self).deposited_value == old(self).deposited_value,
            final(self).borrowed_value == old(self).borrowed_value,
            final(self).allowed_borrow_value == old(self).allowed_borrow_value,
            final(self).unhealthy_borrow_value == old(self).unhealthy_borrow_value,
            final(self).unclaimed_mine == old(self).unclaimed_mine,
    {
        let mut collateral = self.deposits[collateral_index];
        proof {
            if old(self).spec_wf() {
                lemma_deposits_unique_kept(self.deposits@, collateral_index as int, ObligationCollateral {
                    deposited_amount: (collateral.deposited_amount - withdraw_amount) as u64,
                    ..collateral
                });
            }
        }
        if withdraw_amount > collateral.deposited_amount {
            return Err(LendingError::WithdrawTooLarge);
        }
        if withdraw_amount == collateral.deposited_amount {
            self.deposits.remove(collateral_index);
        } else {
            collateral.deposited_amount = collateral.deposited_amount - withdraw_amount;
            self.deposits.set(collateral_index, collateral);
        }
        Ok(())
    }
}

/// A partial repay lowers the debt of the entry and leaves some of it; a
/// repay that covers the whole debt removes the entry.
pub proof fn lemma_repay_outcome(before: Seq<ObligationLiquidity>, after: Seq<ObligationLiquidity>, settle_amount: Decimal, i: int)
    requires
        0 <= i < before.len(),
        settle_amount.0 >= before[i].borrowed_amount_wads.0 ==> after == before.remove(i),
        settle_amount.0 < before[i].borrowed_amount_wads.0 ==> after == before.update(i, ObligationLiquidity {
            borrowed_amount_wads: Decimal((before[i].borrowed_amount_wads.0 - settle_amount.0) as u128),
            ..before[i]
        }),
    ensures
        0 < settle_amount.0 < before[i].borrowed_amount_wads.0 ==> after.len() == before.len()
            && 0 < after[i].borrowed_amount_wads.0 < before[i].borrowed_amount_wads.0,
        settle_amount.0 >= before[i].borrowed_amount_wads.0 ==> after.len() == before.len() - 1,
{
}

} // verus!
