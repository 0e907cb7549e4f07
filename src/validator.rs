use vstd::prelude::*;
use vstd::string::*;

use crate::clock::unix_now;

verus! {

/// An observed price, as decoded from its floating-point reading: a finite
/// non-negative amount in hundredths, or what makes it unusable.
#[derive(Debug, Clone, Copy, PartialEq, Eq, Structural)]
pub enum PriceReading {
    Cents(u64),
    Negative,
    Infinite,
    NotANumber,
}

/// The field that failed validation and why.
#[derive(Debug, Clone)]
pub struct ValidationError {
    pub field: String,
    pub reason: String,
}

fn invalid(field: &str, reason: &str) -> (r: ValidationError)
    ensures
        r.field@ == field@,
        r.reason@ == reason@,
{
    ValidationError { field: field.to_owned(), reason: reason.to_owned() }
}

/// Longest accepted asset symbol, in bytes.
pub const MAX_SYMBOL_LEN: usize = 10;

/// Bounds applied to extracted observations. Prices are in hundredths.
#[derive(Debug, Clone, Copy)]
pub struct Validator {
    pub min_price_cents: u64,
    pub max_price_cents: u64,
    pub max_timestamp_drift_seconds: i64,
}

/// `|a - b|` over the integers.
pub open spec fn distance(a: int, b: int) -> int {
    if a >= b {
        a - b
    } else {
        b - a
    }
}

impl Validator {
    /// Prices from 0 to 1,000,000.00; timestamps within an hour of now.
    pub fn new() -> (r: Validator)
        ensures
            r.min_price_cents == 0,
            r.max_price_cents == 100_000_000,
            r.max_timestamp_drift_seconds == 3600,
    {
        Validator { min_price_cents: 0, max_price_cents: 100_000_000, max_timestamp_drift_seconds: 3600 }
    }

    pub fn with_price_range(self, min_cents: u64, max_cents: u64) -> (r: Validator)
        ensures
            r.min_price_cents == min_cents,
            r.max_price_cents == max_cents,
            r.max_timestamp_drift_seconds == self.max_timestamp_drift_seconds,
    {
        Validator { min_price_cents: min_cents, max_price_cents: max_cents, ..self }
    }

    pub fn with_timestamp_drift(self, seconds: i64) -> (r: Validator)
        ensures
            r.max_timestamp_drift_seconds == seconds,
            r.min_price_cents == self.min_price_cents,
            r.max_price_cents == self.max_price_cents,
    {
        Validator { max_timestamp_drift_seconds: seconds, ..self }
    }

    /// Whether a price reading is accepted.
    pub open spec fn price_ok(&self, price: PriceReading) -> bool {
        match price {
            PriceReading::Cents(c) => self.min_price_cents <= c && c <= self.max_price_cents,
            _ => false,
        }
    }

    /// Whether a timestamp is accepted at time `now`.
    pub open spec fn timestamp_ok(&self, timestamp: i64, now: i64) -> bool {
        distance(timestamp as int, now as int) <= self.max_timestamp_drift_seconds && timestamp >= 0
    }

    /// Refuses a reading that is not a number, infinite, negative, below the
    /// minimum or above the maximum.
    pub fn validate_price(&self, price: PriceReading) -> (r: Result<(), ValidationError>)
        ensures
            r is Ok <==> self.price_ok(price),
            r matches Err(e) ==> e.field@ == "price"@,
    {
        proof {
            reveal_strlit("price");
        }
        match price {
            PriceReading::NotANumber => Err(invalid("price", "price is not finite (NaN)")),
            PriceReading::Infinite => Err(invalid("price", "price is not finite (infinity)")),
            PriceReading::Negative => Err(invalid("price", "price is below the minimum")),
            PriceReading::Cents(c) => {
                if c < self.min_price_cents {
                    Err(invalid("price", "price is below the minimum"))
                } else if c > self.max_price_cents {
                    Err(invalid("price", "price exceeds the maximum"))
                } else {
                    Ok(())
                }
            },
        }
    }

    /// Refuses a timestamp that drifts more than the allowed seconds from
    /// `now`, or that is negative.
    pub fn validate_timestamp_at(&self, timestamp: i64, now: i64) -> (r: Result<(), ValidationError>)
        ensures
            r is Ok <==> self.timestamp_ok(timestamp, now),
            r matches Err(e) ==> e.field@ == "timestamp"@,
    {
        proof {
            reveal_strlit("timestamp");
        }
        let diff: i128 = timestamp as i128 - now as i128;
        let drift: i128 = if diff < 0 {
            -diff
        } else {
            diff
        };
        if drift > self.max_timestamp_drift_seconds as i128 {
            return Err(invalid("timestamp", "timestamp drifts too far from the current time"));
        }
        if timestamp < 0 {
            return Err(invalid("timestamp", "timestamp cannot be negative"));
        }
        Ok(())
    }

    /// `validate_timestamp_at` against the current time.
    pub fn validate_timestamp(&self, timestamp: i64) -> (r: Result<(), ValidationError>)
        ensures
            timestamp < 0 ==> r is Err,
            r matches Err(e) ==> e.field@ == "timestamp"@,
    {
        let now = unix_now();
        self.validate_timestamp_at(timestamp, now)
    }

    /// Refuses an empty symbol or one longer than `MAX_SYMBOL_LEN` bytes.
    pub fn validate_asset_symbol(&self, symbol: &str) -> (r: Result<(), ValidationError>)
        ensures
            r is Ok <==> (symbol@.len() > 0 && symbol.len() <= MAX_SYMBOL_LEN),
            r matches Err(e) ==> e.field@ == "asset"@,
    {
        proof {
            reveal_strlit("asset");
        }
        if symbol.is_empty() {
            return Err(invalid("asset", "asset symbol cannot be empty"));
        }
        if symbol.len() > MAX_SYMBOL_LEN {
            return Err(invalid("asset", "asset symbol exceeds the maximum length"));
        }
        Ok(())
    }

    /// Refuses an empty source.
    pub fn validate_source(&self, source: &str) -> (r: Result<(), ValidationError>)
        ensures
            r is Ok <==> source@.len() > 0,
            r matches Err(e) ==> e.field@ == "source"@,
    {
        proof {
            reveal_strlit("source");
        }
        if source.is_empty() {
            return Err(invalid("source", "source cannot be empty"));
        }
        Ok(())
    }
}

/// A validated observation, flagged when it repeats the previous one too soon.
#[derive(Debug, Clone)]
pub struct TransformResult {
    pub asset: String,
    pub price_cents: u64,
    pub source: String,
    pub timestamp: i64,
    pub is_deduplicated: bool,
}

/// Validates extracted observations and flags near-duplicates.
#[derive(Debug, Clone, Copy)]
pub struct Transformer {
    pub validator: Validator,
    pub deduplication_window_seconds: i64,
}

/// Whether `timestamp` falls within `window` seconds of the previous one.
pub open spec fn is_duplicate(timestamp: i64, last: Option<i64>, window: i64) -> bool {
    match last {
        Some(l) => distance(timestamp as int, l as int) < window,
        None => false,
    }
}

impl Transformer {
    /// The default validator and a 60-second deduplication window.
    pub fn new() -> (r: Transformer)
        ensures
            r.validator == Validator::new_spec(),
            r.deduplication_window_seconds == 60,
    {
        Transformer { validator: Validator::new(), deduplication_window_seconds: 60 }
    }

    pub fn with_validator(self, validator: Validator) -> (r: Transformer)
        ensures
            r.validator == validator,
            r.deduplication_window_seconds == self.deduplication_window_seconds,
    {
        Transformer { validator, ..self }
    }

    pub fn with_deduplication_window(self, seconds: i64) -> (r: Transformer)
        ensures
            r.deduplication_window_seconds == seconds,
            r.validator == self.validator,
    {
        Transformer { deduplication_window_seconds: seconds, ..self }
    }

    pub fn deduplication_window_seconds(&self) -> (r: i64)
        ensures
            r == self.deduplication_window_seconds,
    {
        self.deduplication_window_seconds
    }

    /// Validates price, timestamp (at time `now`) and source, in that order,
    /// and builds the `BTC` observation; `is_deduplicated` tells whether it
    /// falls within the window of `last_timestamp`.
    pub fn transform_at(
        &self,
        price: PriceReading,
        timestamp: i64,
        source: String,
        last_timestamp: Option<i64>,
        now: i64,
    ) -> (r: Result<TransformResult, ValidationError>)
        ensures
            r is Ok <==> (self.validator.price_ok(price) && self.validator.timestamp_ok(timestamp, now)
                && source@.len() > 0),
            r matches Ok(t) ==> t.asset@ == "BTC"@ && PriceReading::Cents(t.price_cents) == price
                && t.source@ == source@ && t.timestamp == timestamp && t.is_deduplicated
                == is_duplicate(timestamp, last_timestamp, self.deduplication_window_seconds),
    {
        if let Err(e) = self.validator.validate_price(price) {
            return Err(e);
        }
        if let Err(e) = self.validator.validate_timestamp_at(timestamp, now) {
            return Err(e);
        }
        if let Err(e) = self.validator.validate_source(source.as_str()) {
            return Err(e);
        }
        let price_cents = match price {
            PriceReading::Cents(c) => c,
            _ => 0,
        };
        let is_deduplicated = match last_timestamp {
            Some(last) => {
                let diff: i128 = timestamp as i128 - last as i128;
                let gap: i128 = if diff < 0 {
                    -diff
                } else {
                    diff
                };
                gap < self.deduplication_window_seconds as i128
            },
            None => false,
        };
        proof {
            reveal_strlit("BTC");
        }
        Ok(TransformResult { asset: "BTC".to_owned(), price_cents, source, timestamp, is_deduplicated })
    }

    /// `transform_at` against the current time.
    pub fn transform(
        &self,
        price: PriceReading,
        timestamp: i64,
        source: String,
        last_timestamp: Option<i64>,
    ) -> (r: Result<TransformResult, ValidationError>)
        ensures
            !self.validator.price_ok(price) || source@.len() == 0 || timestamp < 0 ==> r is Err,
            r matches Ok(t) ==> t.asset@ == "BTC"@ && PriceReading::Cents(t.price_cents) == price
                && t.source@ == source@ && t.timestamp == timestamp && t.is_deduplicated
                == is_duplicate(timestamp, last_timestamp, self.deduplication_window_seconds),
    {
        let now = unix_now();
        self.transform_at(price, timestamp, source, last_timestamp, now)
    }
}

impl Default for Validator {
    fn default() -> (r: Validator)
        ensures
            r == Validator::new_spec(),
    {
        Validator::new()
    }
}

impl Validator {
    pub open spec fn new_spec() -> Validator {
        Validator { min_price_cents: 0, max_price_cents: 100_000_000, max_timestamp_drift_seconds: 3600 }
    }
}

} // verus!
