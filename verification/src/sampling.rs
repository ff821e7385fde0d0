//! The sampling configuration that goes with every request to the model.

use vstd::prelude::*;

verus! {

/// The largest temperature, in thousandths: 1000 stands for 1.0.
pub const MAX_TEMPERATURE_MILLI: u32 = 1000;

/// The three numbers are in range: both token counts are positive and the
/// temperature, in thousandths, lies in `[0, 1]`.
pub open spec fn in_range(num_ctx: u64, temperature_milli: u32, num_predict: i32) -> bool {
    num_ctx > 0 && temperature_milli <= MAX_TEMPERATURE_MILLI && num_predict > 0
}

/// Context window size, temperature and maximum output length. A value of
/// this type is always in range.
#[derive(Debug, Clone, Copy, PartialEq, Eq, Structural)]
pub struct SamplingConfig {
    num_ctx: u64,
    temperature_milli: u32,
    num_predict: i32,
}

impl SamplingConfig {
    pub closed spec fn spec_num_ctx(self) -> u64 {
        self.num_ctx
    }

    pub closed spec fn spec_temperature_milli(self) -> u32 {
        self.temperature_milli
    }

    pub closed spec fn spec_num_predict(self) -> i32 {
        self.num_predict
    }

    /// The numbers that the configuration holds are in range.
    pub open spec fn wf(self) -> bool {
        in_range(self.spec_num_ctx(), self.spec_temperature_milli(), self.spec_num_predict())
    }

    /// Makes a configuration of three numbers that are in range; `None` for
    /// any that are not. The temperature is given in thousandths.
    pub fn new(num_ctx: u64, temperature_milli: u32, num_predict: i32) -> (config: Option<
        SamplingConfig,
    >)
        ensures
            config is Some <==> in_range(num_ctx, temperature_milli, num_predict),
            config matches Some(c) ==> c.wf() && c.spec_num_ctx() == num_ctx
                && c.spec_temperature_milli() == temperature_milli && c.spec_num_predict()
                == num_predict,
    {
        if num_ctx > 0 && temperature_milli <= MAX_TEMPERATURE_MILLI && num_predict > 0 {
            Some(SamplingConfig { num_ctx, temperature_milli, num_predict })
        } else {
            None
        }
    }

    #[verifier::when_used_as_spec(spec_num_ctx)]
    pub fn num_ctx(self) -> (n: u64)
        ensures
            n == self.spec_num_ctx(),
    {
        self.num_ctx
    }

    #[verifier::when_used_as_spec(spec_temperature_milli)]
    pub fn temperature_milli(self) -> (t: u32)
        ensures
            t == self.spec_temperature_milli(),
    {
        self.temperature_milli
    }

    #[verifier::when_used_as_spec(spec_num_predict)]
    pub fn num_predict(self) -> (n: i32)
        ensures
            n == self.spec_num_predict(),
    {
        self.num_predict
    }
}

} // verus!
