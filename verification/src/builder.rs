use vstd::prelude::*;

use crate::config::DevSpecV;
use crate::config::InitConfigV;
use crate::config::ItemV;
use crate::config::SoapyConfigItem;
use crate::config::SoapyDevSpec;
use crate::config::SoapyInitConfig;
use crate::device::SoapyDevice;
use crate::text::chars_of_str;
use crate::text::string_of_chars;

verus! {

/// Builds the initialization-time configuration of a device session.
#[derive(Debug)]
pub struct SoapyDevBuilder {
    pub init_cfg: SoapyInitConfig,
}

impl SoapyDevBuilder {
    pub fn new() -> (r: Self)
        ensures
            r.init_cfg@.dev == DevSpecV::Filter(Seq::<char>::empty()),
            r.init_cfg@.chans == Seq::<usize>::empty(),
            r.init_cfg@.activate_time is None,
            r.init_cfg@.config == Seq::<ItemV>::empty(),
    {
        SoapyDevBuilder { init_cfg: SoapyInitConfig::default() }
    }

    /// Specify a device using a filter string.
    ///
    /// See [`Self::device`] for the more flexible option.
    pub fn filter(self, filter: &str) -> (r: Self)
        ensures
            r.init_cfg@ == (InitConfigV { dev: DevSpecV::Filter(filter@), ..self.init_cfg@ }),
    {
        let chars = chars_of_str(filter);
        let owned = string_of_chars(&chars);
        let mut cfg = self.init_cfg;
        cfg.dev = SoapyDevSpec::Filter(owned);
        SoapyDevBuilder { init_cfg: cfg }
    }

    /// Specify how the device is obtained.
    pub fn device(self, dev_spec: SoapyDevSpec) -> (r: Self)
        ensures
            r.init_cfg@ == (InitConfigV { dev: dev_spec@, ..self.init_cfg@ }),
    {
        let mut cfg = self.init_cfg;
        cfg.dev = dev_spec;
        SoapyDevBuilder { init_cfg: cfg }
    }

    /// Set the stream activation time, relative to the device's hardware
    /// time.
    pub fn activate_time(self, time_ns: i64) -> (r: Self)
        ensures
            r.init_cfg@ == (InitConfigV { activate_time: Some(time_ns), ..self.init_cfg@ }),
    {
        let mut cfg = self.init_cfg;
        cfg.activate_time = Some(time_ns);
        SoapyDevBuilder { init_cfg: cfg }
    }

    /// Add a channel; may be applied several times.
    pub fn channel(self, chan: usize) -> (r: Self)
        ensures
            r.init_cfg@ == (InitConfigV {
                chans: self.init_cfg@.chans.push(chan),
                ..self.init_cfg@
            }),
    {
        let mut cfg = self.init_cfg;
        cfg.chans.push(chan);
        SoapyDevBuilder { init_cfg: cfg }
    }

    /// Add an initial tuning frequency, as a binary64 bit pattern.
    pub fn freq(self, freq: u64) -> (r: Self)
        ensures
            r.init_cfg@ == (InitConfigV {
                config: self.init_cfg@.config.push(ItemV::Freq(freq)),
                ..self.init_cfg@
            }),
    {
        let mut cfg = self.init_cfg;
        cfg.config.push(SoapyConfigItem::Freq(freq));
        SoapyDevBuilder { init_cfg: cfg }
    }

    /// Add an initial sample rate, as a binary64 bit pattern.
    pub fn sample_rate(self, sample_rate: u64) -> (r: Self)
        ensures
            r.init_cfg@ == (InitConfigV {
                config: self.init_cfg@.config.push(ItemV::SampleRate(sample_rate)),
                ..self.init_cfg@
            }),
    {
        let mut cfg = self.init_cfg;
        cfg.config.push(SoapyConfigItem::SampleRate(sample_rate));
        SoapyDevBuilder { init_cfg: cfg }
    }

    /// Add an initial gain, as a binary64 bit pattern.
    pub fn gain(self, gain: u64) -> (r: Self)
        ensures
            r.init_cfg@ == (InitConfigV {
                config: self.init_cfg@.config.push(ItemV::Gain(gain)),
                ..self.init_cfg@
            }),
    {
        let mut cfg = self.init_cfg;
        cfg.config.push(SoapyConfigItem::Gain(gain));
        SoapyDevBuilder { init_cfg: cfg }
    }

    /// Add an initial antenna selection.
    pub fn antenna(self, antenna: &str) -> (r: Self)
        ensures
            r.init_cfg@ == (InitConfigV {
                config: self.init_cfg@.config.push(ItemV::Antenna(antenna@)),
                ..self.init_cfg@
            }),
    {
        let chars = chars_of_str(antenna);
        let owned = string_of_chars(&chars);
        let mut cfg = self.init_cfg;
        cfg.config.push(SoapyConfigItem::Antenna(owned));
        SoapyDevBuilder { init_cfg: cfg }
    }

    /// Finish: a session for this configuration, with no device attached
    /// yet.
    pub fn build(self) -> (r: SoapyDevice)
        ensures
            !r@.dev,
            r@.init_cfg == self.init_cfg@,
            self.init_cfg@.chans.len() > 0 ==> r@.chans == self.init_cfg@.chans,
            self.init_cfg@.chans.len() == 0 ==> r@.chans == seq![0usize],
    {
        SoapyDevice::new(self.init_cfg)
    }
}

} // verus!
