//! Router configuration, as far as worker selection reads it.

use crate::binary64::{Binary64, ONE_BITS};
use vstd::prelude::*;

verus! {

/// The router's configuration.
#[derive(Clone, Copy, Debug)]
pub struct KvRouterConfig {
    /// How much a block that has to be prefilled weighs against a block that is being decoded.
    pub overlap_score_weight: Binary64,
    /// Zero picks a lowest score; otherwise the temperature of the softmax draw.
    pub router_temperature: Binary64,
}

impl Default for KvRouterConfig {
    fn default() -> (config: Self)
        ensures
            config.overlap_score_weight.bits == ONE_BITS,
            config.router_temperature.bits == 0,
    {
        KvRouterConfig {
            overlap_score_weight: Binary64::from_bits(ONE_BITS),
            router_temperature: Binary64::from_bits(0),
        }
    }
}

/// What one request overrides of the router's configuration.
#[derive(Clone, Copy, Debug)]
pub struct RouterConfigOverride {
    pub overlap_score_weight: Option<Binary64>,
    pub router_temperature: Option<Binary64>,
    pub assume_kv_reuse: Option<bool>,
    pub track_prefill_tokens: Option<bool>,
}

impl KvRouterConfig {
    /// The overlap weight in force for a request with the given override.
    pub open spec fn weight_for(self, overrides: Option<RouterConfigOverride>) -> Binary64 {
        match overrides {
            Some(RouterConfigOverride { overlap_score_weight: Some(weight), .. }) => weight,
            _ => self.overlap_score_weight,
        }
    }

    /// The temperature in force for a request with the given override.
    pub open spec fn temperature_for(self, overrides: Option<RouterConfigOverride>) -> Binary64 {
        match overrides {
            Some(RouterConfigOverride { router_temperature: Some(temperature), .. }) => temperature,
            _ => self.router_temperature,
        }
    }

    pub fn overlap_weight(&self, overrides: &Option<RouterConfigOverride>) -> (weight: Binary64)
        ensures
            weight == self.weight_for(*overrides),
            (overrides matches Some(set) && set.overlap_score_weight is Some)
                ==> overrides->0.overlap_score_weight == Some(weight),
            !(overrides matches Some(set) && set.overlap_score_weight is Some) ==> weight
                == self.overlap_score_weight,
    {
        match overrides {
            Some(set) => match set.overlap_score_weight {
                Some(weight) => weight,
                None => self.overlap_score_weight,
            },
            None => self.overlap_score_weight,
        }
    }

    pub fn temperature(&self, overrides: &Option<RouterConfigOverride>) -> (temperature: Binary64)
        ensures
            temperature == self.temperature_for(*overrides),
            (overrides matches Some(set) && set.router_temperature is Some)
                ==> overrides->0.router_temperature == Some(temperature),
            !(overrides matches Some(set) && set.router_temperature is Some) ==> temperature
                == self.router_temperature,
    {
        match overrides {
            Some(set) => match set.router_temperature {
                Some(temperature) => temperature,
                None => self.router_temperature,
            },
            None => self.router_temperature,
        }
    }
}

/// A number that a request's override holds is in force for the request, whatever is configured; where
/// the override holds none, or there is no override, the configured number is. The weight and the
/// temperature do not disturb each other.
pub proof fn law_override_prevails(config: KvRouterConfig, set: RouterConfigOverride, number: Binary64)
    ensures
        config.weight_for(
            Some(RouterConfigOverride { overlap_score_weight: Some(number), ..set }),
        ) == number,
        config.weight_for(Some(RouterConfigOverride { overlap_score_weight: None, ..set }))
            == config.overlap_score_weight,
        config.weight_for(None) == config.overlap_score_weight,
        config.temperature_for(
            Some(RouterConfigOverride { router_temperature: Some(number), ..set }),
        ) == number,
        config.temperature_for(Some(RouterConfigOverride { router_temperature: None, ..set }))
            == config.router_temperature,
        config.temperature_for(None) == config.router_temperature,
{
}

} // verus!
