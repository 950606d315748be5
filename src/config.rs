use vstd::prelude::*;

use crate::query::{
    all_digits, decimal_of, decimal_value, lemma_after_first_eq, lemma_parse_decimal, query_value,
    query_value_of, unsigned_digits, ValidationError,
};

verus! {

/// The two tunable settings kept in the durable store.
#[derive(Clone, Copy, Debug, PartialEq, Eq, Structural)]
pub enum ConfigKey {
    /// How long the actuator is held energized, in milliseconds.
    PressDuration,
    /// The PWM duty cycle applied while energized, 0 to 255.
    DutyCycle,
}

impl ConfigKey {
    /// The key under which the setting is persisted.
    pub fn storage_key(&self) -> (r: &'static str)
        ensures
            r@ == storage_key_of(*self),
    {
        match self {
            ConfigKey::PressDuration => "press_duration",
            ConfigKey::DutyCycle => "duty_cycle_key",
        }
    }
}

pub open spec fn storage_key_of(k: ConfigKey) -> Seq<char> {
    match k {
        ConfigKey::PressDuration => "press_duration"@,
        ConfigKey::DutyCycle => "duty_cycle_key"@,
    }
}

/// Snapshot of both settings, read together when a trigger is taken.
#[derive(Clone, Copy, Debug, PartialEq, Eq, Structural)]
pub struct ConfigSnapshot {
    pub press_duration: Option<u8>,
    pub duty_cycle: Option<u8>,
}

/// The current configuration: each key is either absent (never written)
/// or holds the byte last written to it.
#[derive(Clone, Copy, Debug)]
pub struct ConfigStore {
    press_duration: Option<u8>,
    duty_cycle: Option<u8>,
}

pub open spec fn opt_entry(m: Map<ConfigKey, u8>, k: ConfigKey) -> Option<u8> {
    if m.contains_key(k) {
        Some(m[k])
    } else {
        None
    }
}

impl View for ConfigStore {
    type V = Map<ConfigKey, u8>;

    closed spec fn view(&self) -> Map<ConfigKey, u8> {
        let m = match self.press_duration {
            Some(v) => Map::empty().insert(ConfigKey::PressDuration, v),
            None => Map::empty(),
        };
        match self.duty_cycle {
            Some(v) => m.insert(ConfigKey::DutyCycle, v),
            None => m,
        }
    }
}

impl ConfigStore {
    /// A store in which nothing has been written yet.
    pub fn new() -> (r: ConfigStore)
        ensures
            r@ == Map::<ConfigKey, u8>::empty(),
    {
        let r = ConfigStore { press_duration: None, duty_cycle: None };
        assert(r@ =~= Map::<ConfigKey, u8>::empty());
        r
    }

    /// The value stored under `key`, or `None` if it was never written.
    pub fn get(&self, key: ConfigKey) -> (r: Option<u8>)
        ensures
            r == opt_entry(self@, key),
    {
        match key {
            ConfigKey::PressDuration => self.press_duration,
            ConfigKey::DutyCycle => self.duty_cycle,
        }
    }

    /// Stores `value` under `key`; the other key is left as it was.
    pub fn set(&mut self, key: ConfigKey, value: u8)
        ensures
            final(self)@ == old(self)@.insert(key, value),
    {
        match key {
            ConfigKey::PressDuration => self.press_duration = Some(value),
            ConfigKey::DutyCycle => self.duty_cycle = Some(value),
        }
        assert(self@ =~= old(self)@.insert(key, value));
    }

    /// Both settings, read together.
    pub fn snapshot(&self) -> (r: ConfigSnapshot)
        ensures
            r.press_duration == opt_entry(self@, ConfigKey::PressDuration),
            r.duty_cycle == opt_entry(self@, ConfigKey::DutyCycle),
    {
        ConfigSnapshot { press_duration: self.press_duration, duty_cycle: self.duty_cycle }
    }

    /// The value shown for `key` on the status page: the stored byte, or 0
    /// when nothing was written (nothing is stored in that case).
    pub fn display_value(&self, key: ConfigKey) -> (r: u8)
        ensures
            r == match opt_entry(self@, key) {
                Some(v) => v,
                None => 0u8,
            },
    {
        match self.get(key) {
            Some(v) => v,
            None => 0,
        }
    }

    /// Handles a setting request for `key`: a valid byte after the first `=`
    /// of `uri` is stored; anything else is refused and changes nothing.
    pub fn update_from_query(&mut self, key: ConfigKey, uri: &str) -> (r: Result<
        (),
        ValidationError,
    >)
        ensures
            final(self)@ == request_effect(old(self)@, key, uri@),
            r is Ok <==> query_value_of(uri@) is Some,
    {
        match query_value(uri) {
            Ok(v) => {
                self.set(key, v);
                Ok(())
            },
            Err(e) => Err(e),
        }
    }
}

/// The store's contents after a setting request for `key` with target `uri`.
pub open spec fn request_effect(m: Map<ConfigKey, u8>, key: ConfigKey, uri: Seq<char>) -> Map<
    ConfigKey,
    u8,
> {
    match query_value_of(uri) {
        Some(v) => m.insert(key, v),
        None => m,
    }
}

/// Any byte written to either setting through a request is read back
/// exactly, and the other setting is left as it was.
pub proof fn lemma_setting_round_trip(
    m: Map<ConfigKey, u8>,
    key: ConfigKey,
    path: Seq<char>,
    v: u8,
)
    requires
        !path.contains('='),
    ensures
        opt_entry(request_effect(m, key, path + seq!['='] + decimal_of(v as nat)), key) == Some(v),
        forall|other: ConfigKey|
            other != key ==> opt_entry(
                request_effect(m, key, path + seq!['='] + decimal_of(v as nat)),
                other,
            ) == opt_entry(m, other),
{
    lemma_after_first_eq(path, decimal_of(v as nat));
    lemma_parse_decimal(v);
}

/// A request whose value is not a number, or is a number above 255, leaves
/// the stored settings unchanged.
pub proof fn lemma_invalid_setting_ignored(
    m: Map<ConfigKey, u8>,
    key: ConfigKey,
    path: Seq<char>,
    text: Seq<char>,
)
    requires
        !path.contains('='),
        unsigned_digits(text).len() == 0 || !all_digits(unsigned_digits(text)) || decimal_value(
            unsigned_digits(text),
        ) > 255,
    ensures
        request_effect(m, key, path + seq!['='] + text) == m,
{
    lemma_after_first_eq(path, text);
}

} // verus!
