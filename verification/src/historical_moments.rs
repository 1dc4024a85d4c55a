//! The heights of the chain's hard-forking moments. They are built-in,
//! can be overridden one by one from the configuration, and are then
//! sealed: workers only ever read an `Active` table.

use core::marker::PhantomData;

use vstd::prelude::*;

use crate::configuration;

verus! {

/// Typestate of the table: being assembled, or sealed for reading.
pub trait HistoricalMomentsState {

}

/// The table is still being assembled.
pub struct Building;

impl HistoricalMomentsState for Building {

}

/// The table is sealed; heights can be read.
pub struct Active;

impl HistoricalMomentsState for Active {

}

/// The hard-fork height table.
pub struct HistoricalMoments<S: HistoricalMomentsState> {
    pub genesis: u32,
    pub reward_recipient_enable: u32,
    pub digital_goods_store_enable: u32,
    pub automated_transaction_enable: u32,
    pub automated_transaction_fix_1: u32,
    pub automated_transaction_fix_2: u32,
    pub automated_transaction_fix_3: u32,
    pub pre_poc2: u32,
    pub poc2_enable: u32,
    pub sodium_enable: u32,
    pub signum_name_change: u32,
    pub poc_plus_enable: u32,
    pub speedway_enable: u32,
    pub smart_token_enable: u32,
    pub smart_fees_enable: u32,
    pub smart_ats_enable: u32,
    pub automated_transaction_fix_4: u32,
    pub distribution_fix_enable: u32,
    pub pk_freeze: u32,
    pub pk_freeze_2: u32,
    pub smart_alias_enable: u32,
    pub next_fork: u32,
    pub marker: PhantomData<S>,
}

impl<S: HistoricalMomentsState> HistoricalMoments<S> {
    /// Every height holds its built-in value.
    pub open spec fn is_built_in(&self) -> bool {
        &&& self.genesis == 0
        &&& self.reward_recipient_enable == 6_500
        &&& self.digital_goods_store_enable == 11_800
        &&& self.automated_transaction_enable == 49_200
        &&& self.automated_transaction_fix_1 == 67_000
        &&& self.automated_transaction_fix_2 == 92_000
        &&& self.automated_transaction_fix_3 == 255_000
        &&& self.pre_poc2 == 500_000
        &&& self.poc2_enable == 502_000
        &&& self.sodium_enable == 765_000
        &&& self.signum_name_change == 875_000
        &&& self.poc_plus_enable == 878_000
        &&& self.speedway_enable == 941_100
        &&& self.smart_token_enable == 1_029_000
        &&& self.smart_fees_enable == 1_029_000
        &&& self.smart_ats_enable == 1_029_000
        &&& self.automated_transaction_fix_4 == 1_051_900
        &&& self.distribution_fix_enable == 1_051_900
        &&& self.pk_freeze == 1_099_400
        &&& self.pk_freeze_2 == 1_150_000
        &&& self.smart_alias_enable == 1_150_000
        &&& self.next_fork == 4_294_967_295
    }

    /// Every height holds its override from `s`, or its built-in value
    /// where `s` names none. The genesis height is always zero.
    pub open spec fn matches_overrides(&self, s: &configuration::HistoricalMoments) -> bool {
        &&& self.genesis == 0
        &&& self.reward_recipient_enable == (match s.reward_recipient_enable {
            Option::Some(v) => v,
            Option::None => 6_500,
        })
        &&& self.digital_goods_store_enable == (match s.digital_goods_store_enable {
            Option::Some(v) => v,
            Option::None => 11_800,
        })
        &&& self.automated_transaction_enable == (match s.automated_transaction_enable {
            Option::Some(v) => v,
            Option::None => 49_200,
        })
        &&& self.automated_transaction_fix_1 == (match s.automated_transaction_fix_1 {
            Option::Some(v) => v,
            Option::None => 67_000,
        })
        &&& self.automated_transaction_fix_2 == (match s.automated_transaction_fix_2 {
            Option::Some(v) => v,
            Option::None => 92_000,
        })
        &&& self.automated_transaction_fix_3 == (match s.automated_transaction_fix_3 {
            Option::Some(v) => v,
            Option::None => 255_000,
        })
        &&& self.pre_poc2 == (match s.pre_poc2 {
            Option::Some(v) => v,
            Option::None => 500_000,
        })
        &&& self.poc2_enable == (match s.poc2_enable {
            Option::Some(v) => v,
            Option::None => 502_000,
        })
        &&& self.sodium_enable == (match s.sodium_enable {
            Option::Some(v) => v,
            Option::None => 765_000,
        })
        &&& self.signum_name_change == (match s.signum_name_change {
            Option::Some(v) => v,
            Option::None => 875_000,
        })
        &&& self.poc_plus_enable == (match s.poc_plus_enable {
            Option::Some(v) => v,
            Option::None => 878_000,
        })
        &&& self.speedway_enable == (match s.speedway_enable {
            Option::Some(v) => v,
            Option::None => 941_100,
        })
        &&& self.smart_token_enable == (match s.smart_token_enable {
            Option::Some(v) => v,
            Option::None => 1_029_000,
        })
        &&& self.smart_fees_enable == (match s.smart_fees_enable {
            Option::Some(v) => v,
            Option::None => 1_029_000,
        })
        &&& self.smart_ats_enable == (match s.smart_ats_enable {
            Option::Some(v) => v,
            Option::None => 1_029_000,
        })
        &&& self.automated_transaction_fix_4 == (match s.automated_transaction_fix_4 {
            Option::Some(v) => v,
            Option::None => 1_051_900,
        })
        &&& self.distribution_fix_enable == (match s.distribution_fix_enable {
            Option::Some(v) => v,
            Option::None => 1_051_900,
        })
        &&& self.pk_freeze == (match s.pk_freeze {
            Option::Some(v) => v,
            Option::None => 1_099_400,
        })
        &&& self.pk_freeze_2 == (match s.pk_freeze_2 {
            Option::Some(v) => v,
            Option::None => 1_150_000,
        })
        &&& self.smart_alias_enable == (match s.smart_alias_enable {
            Option::Some(v) => v,
            Option::None => 1_150_000,
        })
        &&& self.next_fork == (match s.next_fork {
            Option::Some(v) => v,
            Option::None => 4_294_967_295,
        })
    }
}

impl HistoricalMoments<Building> {
    /// Starts from the built-in heights.
    pub fn new() -> (r: HistoricalMoments<Building>)
        ensures
            r.is_built_in(),
    {
        HistoricalMoments {
            genesis: 0,
            reward_recipient_enable: 6_500,
            digital_goods_store_enable: 11_800,
            automated_transaction_enable: 49_200,
            automated_transaction_fix_1: 67_000,
            automated_transaction_fix_2: 92_000,
            automated_transaction_fix_3: 255_000,
            pre_poc2: 500_000,
            poc2_enable: 502_000,
            sodium_enable: 765_000,
            signum_name_change: 875_000,
            poc_plus_enable: 878_000,
            speedway_enable: 941_100,
            smart_token_enable: 1_029_000,
            smart_fees_enable: 1_029_000,
            smart_ats_enable: 1_029_000,
            automated_transaction_fix_4: 1_051_900,
            distribution_fix_enable: 1_051_900,
            pk_freeze: 1_099_400,
            pk_freeze_2: 1_150_000,
            smart_alias_enable: 1_150_000,
            next_fork: 4_294_967_295,
            marker: PhantomData,
        }
    }

    /// Seals the table for reading.
    pub fn build(&self) -> (r: HistoricalMoments<Active>)
        ensures
            r.is_built_in() == self.is_built_in(),
            forall|s: configuration::HistoricalMoments| r.matches_overrides(&s)
                == self.matches_overrides(&s),
    {
        HistoricalMoments {
            genesis: self.genesis,
            reward_recipient_enable: self.reward_recipient_enable,
            digital_goods_store_enable: self.digital_goods_store_enable,
            automated_transaction_enable: self.automated_transaction_enable,
            automated_transaction_fix_1: self.automated_transaction_fix_1,
            automated_transaction_fix_2: self.automated_transaction_fix_2,
            automated_transaction_fix_3: self.automated_transaction_fix_3,
            pre_poc2: self.pre_poc2,
            poc2_enable: self.poc2_enable,
            sodium_enable: self.sodium_enable,
            signum_name_change: self.signum_name_change,
            poc_plus_enable: self.poc_plus_enable,
            speedway_enable: self.speedway_enable,
            smart_token_enable: self.smart_token_enable,
            smart_fees_enable: self.smart_fees_enable,
            smart_ats_enable: self.smart_ats_enable,
            automated_transaction_fix_4: self.automated_transaction_fix_4,
            distribution_fix_enable: self.distribution_fix_enable,
            pk_freeze: self.pk_freeze,
            pk_freeze_2: self.pk_freeze_2,
            smart_alias_enable: self.smart_alias_enable,
            next_fork: self.next_fork,
            marker: PhantomData,
        }
    }
}

impl Default for HistoricalMoments<Building> {
    fn default() -> (r: Self)
        ensures
            r.is_built_in(),
    {
        HistoricalMoments::<Building>::new()
    }
}

impl HistoricalMoments<Active> {
    /// The height at which the genesis block was created. Always 0.
    pub fn genesis(&self) -> (r: u32)
        ensures
            r == self.genesis,
    {
        self.genesis
    }

    /// The height at which the reward recipient feature was enabled.
    pub fn reward_recipient_enable(&self) -> (r: u32)
        ensures
            r == self.reward_recipient_enable,
    {
        self.reward_recipient_enable
    }

    /// The height at which the digital goods store was enabled.
    pub fn digital_goods_store_enable(&self) -> (r: u32)
        ensures
            r == self.digital_goods_store_enable,
    {
        self.digital_goods_store_enable
    }

    /// The height at which the automated transactions feature was enabled.
    pub fn automated_transaction_enable(&self) -> (r: u32)
        ensures
            r == self.automated_transaction_enable,
    {
        self.automated_transaction_enable
    }

    /// The height of the first fix to the automated transactions feature.
    pub fn automated_transaction_fix_1(&self) -> (r: u32)
        ensures
            r == self.automated_transaction_fix_1,
    {
        self.automated_transaction_fix_1
    }

    /// The height of the second fix to the automated transactions feature.
    pub fn automated_transaction_fix_2(&self) -> (r: u32)
        ensures
            r == self.automated_transaction_fix_2,
    {
        self.automated_transaction_fix_2
    }

    /// The height of the third fix to the automated transactions feature.
    pub fn automated_transaction_fix_3(&self) -> (r: u32)
        ensures
            r == self.automated_transaction_fix_3,
    {
        self.automated_transaction_fix_3
    }

    /// The height at which the pre-PoC2 format preparation was enabled.
    pub fn pre_poc2(&self) -> (r: u32)
        ensures
            r == self.pre_poc2,
    {
        self.pre_poc2
    }

    /// The height at which the PoC2 format was fully enabled.
    pub fn poc2_enable(&self) -> (r: u32)
        ensures
            r == self.poc2_enable,
    {
        self.poc2_enable
    }

    /// The height at which the sodium feature was enabled.
    pub fn sodium_enable(&self) -> (r: u32)
        ensures
            r == self.sodium_enable,
    {
        self.sodium_enable
    }

    /// The height at which the project was renamed from BurstCoin to Signum.
    pub fn signum_name_change(&self) -> (r: u32)
        ensures
            r == self.signum_name_change,
    {
        self.signum_name_change
    }

    /// The height at which the PoC+ format was enabled.
    pub fn poc_plus_enable(&self) -> (r: u32)
        ensures
            r == self.poc_plus_enable,
    {
        self.poc_plus_enable
    }

    /// The height at which the speedway feature was enabled.
    pub fn speedway_enable(&self) -> (r: u32)
        ensures
            r == self.speedway_enable,
    {
        self.speedway_enable
    }

    /// The height at which the smart token feature was enabled.
    pub fn smart_token_enable(&self) -> (r: u32)
        ensures
            r == self.smart_token_enable,
    {
        self.smart_token_enable
    }

    /// The height at which the smart fees feature was enabled.
    pub fn smart_fees_enable(&self) -> (r: u32)
        ensures
            r == self.smart_fees_enable,
    {
        self.smart_fees_enable
    }

    /// The height at which the smart automated transactions feature was enabled.
    pub fn smart_ats_enable(&self) -> (r: u32)
        ensures
            r == self.smart_ats_enable,
    {
        self.smart_ats_enable
    }

    /// The height of the fourth fix to the automated transactions feature.
    pub fn automated_transaction_fix_4(&self) -> (r: u32)
        ensures
            r == self.automated_transaction_fix_4,
    {
        self.automated_transaction_fix_4
    }

    /// The height at which the distribution fix was enabled.
    pub fn distribution_fix_enable(&self) -> (r: u32)
        ensures
            r == self.distribution_fix_enable,
    {
        self.distribution_fix_enable
    }

    /// The height at which the first public key freeze was enacted.
    pub fn pk_freeze(&self) -> (r: u32)
        ensures
            r == self.pk_freeze,
    {
        self.pk_freeze
    }

    /// The height at which the second public key freeze was enacted.
    pub fn pk_freeze_2(&self) -> (r: u32)
        ensures
            r == self.pk_freeze_2,
    {
        self.pk_freeze_2
    }

    /// The height at which the smart alias feature was enabled.
    pub fn smart_alias_enable(&self) -> (r: u32)
        ensures
            r == self.smart_alias_enable,
    {
        self.smart_alias_enable
    }

    /// The next fork height: the largest height, so that flux values always resolve.
    pub fn next_fork(&self) -> (r: u32)
        ensures
            r == self.next_fork,
    {
        self.next_fork
    }
}

/// Builds the sealed height table: each height takes its override from
/// `settings` or keeps its built-in value, and the genesis height is zero.
pub fn initialize_historical_moments(settings: &configuration::HistoricalMoments) -> (r:
    HistoricalMoments<Active>)
    ensures
        r.matches_overrides(settings),
{
    HistoricalMoments {
            genesis: 0,
            reward_recipient_enable: match settings.reward_recipient_enable {
                Some(v) => v,
                None => 6_500,
            },
            digital_goods_store_enable: match settings.digital_goods_store_enable {
                Some(v) => v,
                None => 11_800,
            },
            automated_transaction_enable: match settings.automated_transaction_enable {
                Some(v) => v,
                None => 49_200,
            },
            automated_transaction_fix_1: match settings.automated_transaction_fix_1 {
                Some(v) => v,
                None => 67_000,
            },
            automated_transaction_fix_2: match settings.automated_transaction_fix_2 {
                Some(v) => v,
                None => 92_000,
            },
            automated_transaction_fix_3: match settings.automated_transaction_fix_3 {
                Some(v) => v,
                None => 255_000,
            },
            pre_poc2: match settings.pre_poc2 {
                Some(v) => v,
                None => 500_000,
            },
            poc2_enable: match settings.poc2_enable {
                Some(v) => v,
                None => 502_000,
            },
            sodium_enable: match settings.sodium_enable {
                Some(v) => v,
                None => 765_000,
            },
            signum_name_change: match settings.signum_name_change {
                Some(v) => v,
                None => 875_000,
            },
            poc_plus_enable: match settings.poc_plus_enable {
                Some(v) => v,
                None => 878_000,
            },
            speedway_enable: match settings.speedway_enable {
                Some(v) => v,
                None => 941_100,
            },
            smart_token_enable: match settings.smart_token_enable {
                Some(v) => v,
                None => 1_029_000,
            },
            smart_fees_enable: match settings.smart_fees_enable {
                Some(v) => v,
                None => 1_029_000,
            },
            smart_ats_enable: match settings.smart_ats_enable {
                Some(v) => v,
                None => 1_029_000,
            },
            automated_transaction_fix_4: match settings.automated_transaction_fix_4 {
                Some(v) => v,
                None => 1_051_900,
            },
            distribution_fix_enable: match settings.distribution_fix_enable {
                Some(v) => v,
                None => 1_051_900,
            },
            pk_freeze: match settings.pk_freeze {
                Some(v) => v,
                None => 1_099_400,
            },
            pk_freeze_2: match settings.pk_freeze_2 {
                Some(v) => v,
                None => 1_150_000,
            },
            smart_alias_enable: match settings.smart_alias_enable {
                Some(v) => v,
                None => 1_150_000,
            },
            next_fork: match settings.next_fork {
                Some(v) => v,
                None => 4_294_967_295,
            },
        marker: PhantomData,
    }
}

} // verus!
