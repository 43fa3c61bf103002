use vstd::prelude::*;

use crate::config::clone_usize_vec;
use crate::config::is_rx_spec;
use crate::config::is_tx_spec;
use crate::config::ItemV;
use crate::config::SoapyConfig;
use crate::config::SoapyConfigItem;
use crate::config::SoapyDirection;
use crate::config::SoapyInitConfig;
use crate::config::InitConfigV;
use crate::error::SoapyError;
use crate::pmt::AnyPayload;
use crate::pmt::AnyV;
use crate::pmt::Pmt;
use crate::pmt::PmtV;
use crate::text::str_eq;

verus! {

/// Model of a [`SoapyCommand`].
pub enum CommandV {
    Config(Seq<ItemV>),
    GetConfig,
}

/// A command accepted by the command-handling entry point.
#[derive(Debug)]
pub enum SoapyCommand {
    /// Apply a configuration sequence.
    Config(SoapyConfig),
    /// Retrieve the device configuration (not implemented by the base
    /// handler).
    GetConfig(),
}

impl View for SoapyCommand {
    type V = CommandV;

    open spec fn view(&self) -> CommandV {
        match self {
            SoapyCommand::Config(c) => CommandV::Config(c@),
            SoapyCommand::GetConfig() => CommandV::GetConfig,
        }
    }
}

impl Clone for SoapyCommand {
    fn clone(&self) -> (res: Self)
        ensures
            res@ == self@,
    {
        match self {
            Self::Config(c) => Self::Config(c.clone()),
            Self::GetConfig() => Self::GetConfig(),
        }
    }
}

/// A concrete direction of a device call; the richer selector vocabulary
/// of [`SoapyDirection`] is resolved away before this layer.
#[derive(Clone, Copy, Debug, PartialEq, Eq, Structural)]
pub enum SoapyDir {
    Rx,
    Tx,
}

/// Model of a [`DeviceCall`].
pub enum CallV {
    SetAntenna(SoapyDir, usize, Seq<char>),
    SetBandwidth(SoapyDir, usize, u64),
    SetFrequency(SoapyDir, usize, u64),
    SetGain(SoapyDir, usize, u64),
    SetSampleRate(SoapyDir, usize, u64),
}

/// One call into the device backend: the direction and channel it
/// addresses, and the value to set (frequencies, bandwidths, gains and
/// rates as binary64 bit patterns).
///
/// The engine produces these in the exact order they are to be issued; the
/// embedding application performs them one by one and stops at the first
/// failure, leaving earlier effects in place — the sequence is not
/// transactional.
#[derive(Debug)]
pub enum DeviceCall {
    SetAntenna(SoapyDir, usize, String),
    SetBandwidth(SoapyDir, usize, u64),
    SetFrequency(SoapyDir, usize, u64),
    SetGain(SoapyDir, usize, u64),
    SetSampleRate(SoapyDir, usize, u64),
}

pub open spec fn call_v(c: DeviceCall) -> CallV {
    match c {
        DeviceCall::SetAntenna(d, ch, a) => CallV::SetAntenna(d, ch, a@),
        DeviceCall::SetBandwidth(d, ch, b) => CallV::SetBandwidth(d, ch, b),
        DeviceCall::SetFrequency(d, ch, f) => CallV::SetFrequency(d, ch, f),
        DeviceCall::SetGain(d, ch, g) => CallV::SetGain(d, ch, g),
        DeviceCall::SetSampleRate(d, ch, r) => CallV::SetSampleRate(d, ch, r),
    }
}

impl View for DeviceCall {
    type V = CallV;

    open spec fn view(&self) -> CallV {
        call_v(*self)
    }
}

/// Models of a list of calls.
pub open spec fn calls_v(s: Seq<DeviceCall>) -> Seq<CallV> {
    Seq::new(s.len(), |i: int| call_v(s[i]))
}

impl Clone for DeviceCall {
    fn clone(&self) -> (res: Self)
        ensures
            res@ == self@,
    {
        match self {
            Self::SetAntenna(d, ch, a) => Self::SetAntenna(*d, *ch, a.clone()),
            Self::SetBandwidth(d, ch, b) => Self::SetBandwidth(*d, *ch, *b),
            Self::SetFrequency(d, ch, f) => Self::SetFrequency(*d, *ch, *f),
            Self::SetGain(d, ch, g) => Self::SetGain(*d, *ch, *g),
            Self::SetSampleRate(d, ch, r) => Self::SetSampleRate(*d, *ch, *r),
        }
    }
}

impl PartialEq for DeviceCall {
    fn eq(&self, other: &Self) -> (r: bool) {
        match (self, other) {
            (Self::SetAntenna(d1, c1, a1), Self::SetAntenna(d2, c2, a2)) => d1 == d2 && c1 == c2
                && str_eq(a1.as_str(), a2.as_str()),
            (Self::SetBandwidth(d1, c1, b1), Self::SetBandwidth(d2, c2, b2)) => d1 == d2 && c1
                == c2 && b1 == b2,
            (Self::SetFrequency(d1, c1, f1), Self::SetFrequency(d2, c2, f2)) => d1 == d2 && c1
                == c2 && f1 == f2,
            (Self::SetGain(d1, c1, g1), Self::SetGain(d2, c2, g2)) => d1 == d2 && c1 == c2 && g1
                == g2,
            (Self::SetSampleRate(d1, c1, r1), Self::SetSampleRate(d2, c2, r2)) => d1 == d2 && c1
                == c2 && r1 == r2,
            _ => false,
        }
    }
}

impl vstd::std_specs::cmp::PartialEqSpecImpl for DeviceCall {
    open spec fn obeys_eq_spec() -> bool {
        true
    }

    open spec fn eq_spec(&self, other: &Self) -> bool {
        self@ == other@
    }
}

/// The concrete directions a selector stands for, receive before
/// transmit.
pub open spec fn resolve_dirs(d: SoapyDirection, default: SoapyDirection) -> Seq<SoapyDir> {
    let rx = is_rx_spec(d, default);
    let tx = is_tx_spec(d, default);
    if rx && tx {
        seq![SoapyDir::Rx, SoapyDir::Tx]
    } else if rx {
        seq![SoapyDir::Rx]
    } else if tx {
        seq![SoapyDir::Tx]
    } else {
        Seq::empty()
    }
}

/// The call a setting item issues at one direction and channel.
pub open spec fn setting_call(it: ItemV, d: SoapyDir, c: usize) -> CallV {
    match it {
        ItemV::Antenna(a) => CallV::SetAntenna(d, c, a),
        ItemV::Bandwidth(b) => CallV::SetBandwidth(d, c, b),
        ItemV::Freq(f) => CallV::SetFrequency(d, c, f),
        ItemV::Gain(g) => CallV::SetGain(d, c, g),
        ItemV::SampleRate(r) => CallV::SetSampleRate(d, c, r),
        _ => arbitrary(),
    }
}

/// One direction, every channel in scope, in channel order.
pub open spec fn calls_for_chans(it: ItemV, d: SoapyDir, chans: Seq<usize>) -> Seq<CallV>
    decreases chans.len(),
{
    if chans.len() == 0 {
        Seq::empty()
    } else {
        seq![setting_call(it, d, chans.first())] + calls_for_chans(it, d, chans.drop_first())
    }
}

/// Every direction in scope, directions outer, channels inner.
pub open spec fn calls_for_scope(it: ItemV, dirs: Seq<SoapyDir>, chans: Seq<usize>) -> Seq<CallV>
    decreases dirs.len(),
{
    if dirs.len() == 0 {
        Seq::empty()
    } else {
        calls_for_chans(it, dirs.first(), chans) + calls_for_scope(it, dirs.drop_first(), chans)
    }
}

/// The calls one item issues under the given scope.
///
/// Scope selectors issue nothing. A sample rate issues exactly one call,
/// to the receive direction of channel zero, whatever the scope says: many
/// devices couple their receive and transmit rates, and downstream
/// behaviour depends on this asymmetry being kept.
pub open spec fn item_calls(it: ItemV, dirs: Seq<SoapyDir>, chans: Seq<usize>) -> Seq<CallV> {
    match it {
        ItemV::Direction(_) => Seq::empty(),
        ItemV::Channel(_) => Seq::empty(),
        ItemV::SampleRate(r) => seq![CallV::SetSampleRate(SoapyDir::Rx, 0, r)],
        _ => calls_for_scope(it, dirs, chans),
    }
}

/// A sample-rate item is scope-blind: under any two scopes it issues the
/// same single call, to the receive direction of channel zero.
pub proof fn lemma_sample_rate_ignores_scope(
    rate: u64,
    dirs1: Seq<SoapyDir>,
    chans1: Seq<usize>,
    dirs2: Seq<SoapyDir>,
    chans2: Seq<usize>,
)
    ensures
        item_calls(ItemV::SampleRate(rate), dirs1, chans1) == item_calls(
            ItemV::SampleRate(rate),
            dirs2,
            chans2,
        ),
        item_calls(ItemV::SampleRate(rate), dirs1, chans1) == seq![
            CallV::SetSampleRate(SoapyDir::Rx, 0, rate),
        ],
{
}

/// The direction scope after an item: only a direction selector changes
/// it, and it resolves against the block's own default, not against the
/// previous scope.
pub open spec fn step_dirs(it: ItemV, dirs: Seq<SoapyDir>, default: SoapyDirection) -> Seq<
    SoapyDir,
> {
    match it {
        ItemV::Direction(d) => resolve_dirs(d, default),
        _ => dirs,
    }
}

/// The channel scope after an item: a channel selector narrows to one
/// channel, and clearing it resets to every channel of the session — a
/// reset, not "no channel".
pub open spec fn step_chans(it: ItemV, chans: Seq<usize>, session: Seq<usize>) -> Seq<usize> {
    match it {
        ItemV::Channel(c) => match c {
            Some(one) => seq![one],
            None => session,
        },
        _ => chans,
    }
}

/// The calls a sequence issues from a given scope, in order.
pub open spec fn plan_from(
    items: Seq<ItemV>,
    dirs: Seq<SoapyDir>,
    chans: Seq<usize>,
    session: Seq<usize>,
    default: SoapyDirection,
) -> Seq<CallV>
    decreases items.len(),
{
    if items.len() == 0 {
        Seq::empty()
    } else {
        let it = items.first();
        item_calls(it, dirs, chans) + plan_from(
            items.drop_first(),
            step_dirs(it, dirs, default),
            step_chans(it, chans, session),
            session,
            default,
        )
    }
}

/// The calls a sequence issues against a session: the channel scope starts
/// as every session channel, the direction scope as the block's own
/// default.
pub open spec fn plan_v(items: Seq<ItemV>, session: Seq<usize>, default: SoapyDirection) -> Seq<
    CallV,
> {
    plan_from(items, resolve_dirs(SoapyDirection::Default, default), session, session, default)
}

/// Model of a [`SoapyDevice`].
pub struct DeviceV {
    pub dev: bool,
    pub chans: Seq<usize>,
    pub init_cfg: InitConfigV,
}

/// A device session: whether a live handle is attached, the channels the
/// session manages, and the initial configuration.
///
/// The handle itself lives with the embedding application, which performs
/// the planned calls; the session tracks its presence. It is absent until
/// initialization succeeds and is never replaced afterwards.
#[derive(Debug)]
pub struct SoapyDevice {
    /// Whether the live device handle is attached.
    pub dev: bool,
    /// The channel indices the session manages.
    pub chans: Vec<usize>,
    /// The device specifier, channel list and initial sequence this
    /// session was created with.
    pub init_cfg: SoapyInitConfig,
}

impl View for SoapyDevice {
    type V = DeviceV;

    open spec fn view(&self) -> DeviceV {
        DeviceV { dev: self.dev, chans: self.chans@, init_cfg: self.init_cfg@ }
    }
}

/// The concrete directions a selector stands for.
fn update_dir(d: &SoapyDirection, default: &SoapyDirection) -> (v: Vec<SoapyDir>)
    ensures
        v@ == resolve_dirs(*d, *default),
{
    let rx = d.is_rx(default);
    let tx = d.is_tx(default);
    let mut v: Vec<SoapyDir> = Vec::new();
    if rx {
        v.push(SoapyDir::Rx);
    }
    if tx {
        v.push(SoapyDir::Tx);
    }
    proof {
        assert(v@ =~= resolve_dirs(*d, *default));
    }
    v
}

/// Append the calls one item issues under the current scope.
#[verifier::loop_isolation(false)]
fn push_item_calls(
    calls: &mut Vec<DeviceCall>,
    it: &SoapyConfigItem,
    dirs: &Vec<SoapyDir>,
    chans: &Vec<usize>,
)
    ensures
        calls_v(final(calls)@) == calls_v(old(calls)@) + item_calls(it@, dirs@, chans@),
{
    match it {
        SoapyConfigItem::Direction(_) => {
            assert(calls_v(calls@) =~= calls_v(old(calls)@) + item_calls(it@, dirs@, chans@));
        },
        SoapyConfigItem::Channel(_) => {
            assert(calls_v(calls@) =~= calls_v(old(calls)@) + item_calls(it@, dirs@, chans@));
        },
        SoapyConfigItem::SampleRate(rt) => {
            calls.push(DeviceCall::SetSampleRate(SoapyDir::Rx, 0, *rt));
            assert(calls_v(calls@) =~= calls_v(old(calls)@) + item_calls(it@, dirs@, chans@));
        },
        _ => {
            let mut di: usize = 0;
            proof {
                assert(dirs@.skip(0) =~= dirs@);
            }
            while di < dirs.len()
                invariant
                    di <= dirs.len(),
                    calls_v(old(calls)@) + calls_for_scope(it@, dirs@, chans@) == calls_v(calls@)
                        + calls_for_scope(it@, dirs@.skip(di as int), chans@),
                decreases dirs.len() - di,
            {
                let d = dirs[di];
                let mut ci: usize = 0;
                proof {
                    assert(chans@.skip(0) =~= chans@);
                    assert(dirs@.skip(di as int).first() == d);
                    assert(dirs@.skip(di as int).drop_first() =~= dirs@.skip(di + 1));
                }
                let ghost mid = calls_v(calls@);
                while ci < chans.len()
                    invariant
                        ci <= chans.len(),
                        di < dirs.len(),
                        d == dirs@[di as int],
                        mid + calls_for_chans(it@, d, chans@) == calls_v(calls@)
                            + calls_for_chans(it@, d, chans@.skip(ci as int)),
                    decreases chans.len() - ci,
                {
                    let c = chans[ci];
                    proof {
                        assert(chans@.skip(ci as int).first() == c);
                        assert(chans@.skip(ci as int).drop_first() =~= chans@.skip(ci + 1));
                    }
                    let ghost before = calls@;
                    match it {
                        SoapyConfigItem::Antenna(a) => {
                            calls.push(DeviceCall::SetAntenna(d, c, a.clone()));
                        },
                        SoapyConfigItem::Bandwidth(b) => {
                            calls.push(DeviceCall::SetBandwidth(d, c, *b));
                        },
                        SoapyConfigItem::Freq(f) => {
                            calls.push(DeviceCall::SetFrequency(d, c, *f));
                        },
                        SoapyConfigItem::Gain(g) => {
                            calls.push(DeviceCall::SetGain(d, c, *g));
                        },
                        _ => {
                            proof {
                                assert(false);
                            }
                        },
                    }
                    proof {
                        assert(calls_v(calls@) =~= calls_v(before) + seq![
                            setting_call(it@, d, c),
                        ]);
                    }
                    ci += 1;
                }
                proof {
                    assert(chans@.skip(chans@.len() as int) =~= Seq::<usize>::empty());
                }
                di += 1;
            }
            proof {
                assert(dirs@.skip(dirs@.len() as int) =~= Seq::<SoapyDir>::empty());
                assert(calls_v(calls@) =~= calls_v(old(calls)@) + item_calls(it@, dirs@, chans@));
            }
        },
    }
}

impl SoapyDevice {
    /// A fresh session for the given initial configuration: no device
    /// attached yet, managing the configuration's channel list (channel
    /// zero when none is given).
    pub fn new(init_cfg: SoapyInitConfig) -> (r: SoapyDevice)
        ensures
            !r@.dev,
            r@.init_cfg == init_cfg@,
            init_cfg@.chans.len() > 0 ==> r@.chans == init_cfg@.chans,
            init_cfg@.chans.len() == 0 ==> r@.chans == seq![0usize],
    {
        let mut chans = clone_usize_vec(&init_cfg.chans);
        if chans.len() == 0 {
            chans.push(0);
            assert(chans@ =~= seq![0usize]);
        }
        SoapyDevice { dev: false, chans, init_cfg }
    }

    /// Walk one configuration sequence and produce the device calls it
    /// asks for, in issue order.
    ///
    /// With no device attached this is a soft no-op: it succeeds with an
    /// empty plan, so that configuration commands arriving before device
    /// acquisition completes do not error the caller; the embedding
    /// application logs the dropped configuration.
    #[verifier::loop_isolation(false)]
    pub fn apply_config(&self, cfg: &SoapyConfig, default_dir: &SoapyDirection) -> (calls: Vec<
        DeviceCall,
    >)
        ensures
            self@.dev ==> calls_v(calls@) == plan_v(cfg@, self@.chans, *default_dir),
            !self@.dev ==> calls@ == Seq::<DeviceCall>::empty(),
    {
        let mut calls: Vec<DeviceCall> = Vec::new();
        if !self.dev {
            assert(calls@ =~= Seq::<DeviceCall>::empty());
            return calls;
        }
        let mut dirs = update_dir(&SoapyDirection::Default, default_dir);
        let mut chans = clone_usize_vec(&self.chans);
        let ghost items = cfg@;
        let mut i: usize = 0;
        proof {
            assert(items.skip(0) =~= items);
            assert(calls_v(calls@) =~= Seq::<CallV>::empty());
        }
        while i < cfg.0.len()
            invariant
                i <= cfg.0.len(),
                items.len() == cfg.0.len(),
                plan_v(cfg@, self@.chans, *default_dir) == calls_v(calls@) + plan_from(
                    items.skip(i as int),
                    dirs@,
                    chans@,
                    self@.chans,
                    *default_dir,
                ),
            decreases cfg.0.len() - i,
        {
            let it = &cfg.0[i];
            proof {
                assert(items.skip(i as int).first() == it@);
                assert(items.skip(i as int).drop_first() =~= items.skip(i + 1));
            }
            push_item_calls(&mut calls, it, &dirs, &chans);
            match it {
                SoapyConfigItem::Channel(c) => {
                    match c {
                        Some(one) => {
                            let mut narrowed: Vec<usize> = Vec::new();
                            narrowed.push(*one);
                            chans = narrowed;
                            assert(chans@ =~= seq![*one]);
                        },
                        None => {
                            chans = clone_usize_vec(&self.chans);
                        },
                    }
                },
                SoapyConfigItem::Direction(d) => {
                    dirs = update_dir(d, default_dir);
                },
                _ => {},
            }
            i += 1;
        }
        proof {
            assert(items.skip(items.len() as int) =~= Seq::<ItemV>::empty());
        }
        calls
    }

    /// One-time initialization: adopt the acquired handle, take the
    /// channel list from the initial configuration, then plan the initial
    /// sequence — in that order, since item interpretation depends on a
    /// populated channel list.
    ///
    /// `acquired` reports whether the embedding application obtained a
    /// handle for `init_cfg.dev` (adopting a pre-existing handle always
    /// succeeds; a filter-string lookup may fail). A failed lookup is
    /// fatal: the session stays unusable — in contrast to the soft
    /// tolerance of [`Self::apply_config`] for a device that is merely not
    /// attached yet.
    pub fn apply_init_config(&mut self, acquired: bool, default_dir: &SoapyDirection) -> (r:
        Result<Vec<DeviceCall>, SoapyError>)
        requires
            !old(self)@.dev,
        ensures
            final(self)@.init_cfg == old(self)@.init_cfg,
            !acquired ==> final(self)@ == old(self)@,
            !acquired ==> r == Err::<Vec<DeviceCall>, SoapyError>(SoapyError::DeviceInit),
            acquired ==> final(self)@.dev,
            acquired ==> final(self)@.chans == old(self)@.init_cfg.chans,
            acquired ==> (r matches Ok(calls) && calls_v(calls@) == plan_v(
                old(self)@.init_cfg.config,
                old(self)@.init_cfg.chans,
                *default_dir,
            )),
    {
        if !acquired {
            return Err(SoapyError::DeviceInit);
        }
        self.dev = true;
        self.chans = clone_usize_vec(&self.init_cfg.chans);
        let cfg = self.init_cfg.config.clone();
        let calls = self.apply_config(&cfg, default_dir);
        Ok(calls)
    }
}

/// What the command handler decides for a value: the configuration
/// sequence to apply, or the error to report.
pub open spec fn handle_v(p: PmtV) -> Result<Seq<ItemV>, SoapyError> {
    match p {
        PmtV::Any(a) => match a {
            AnyV::Command(c) => match c {
                CommandV::Config(items) => Ok(items),
                CommandV::GetConfig => Err(SoapyError::Unsupported),
            },
            AnyV::Config(items) => Ok(items),
            AnyV::ConfigItem(it) => Ok(seq![it]),
        },
        PmtV::MapStrPmt(m) => Ok(crate::config::legacy_items(m)),
        _ => Err(SoapyError::Conversion),
    }
}

impl SoapyDevice {
    /// The handler for messages on the command port.
    ///
    /// The value must resolve to a configuration sequence: a command or a
    /// pre-built sequence through the opaque extension point, or a legacy
    /// string-keyed map. On success the reply is `Null` and the planned
    /// device calls are handed back for the embedding application to
    /// issue; the first engine error would propagate to the caller
    /// instead.
    ///
    /// `default_dir` is the direction of the block being configured (`Rx`
    /// for a source, `Tx` for a sink); individual items may still address
    /// other directions.
    pub fn base_cmd_handler(&self, pmt: Pmt, default_dir: &SoapyDirection) -> (r: Result<
        (Pmt, Vec<DeviceCall>),
        SoapyError,
    >)
        ensures
            match handle_v(pmt@) {
                Ok(items) => r matches Ok(t) && t.0@ == PmtV::Null && (self@.dev ==> calls_v(t.1@)
                    == plan_v(items, self@.chans, *default_dir)) && (!self@.dev ==> t.1@ == Seq::<
                    DeviceCall,
                >::empty()),
                Err(e) => r == Err::<(Pmt, Vec<DeviceCall>), SoapyError>(e),
            },
    {
        match &pmt {
            Pmt::Any(a) => {
                match a.downcast_ref::<SoapyCommand>() {
                    Some(cmd) => {
                        match cmd {
                            SoapyCommand::Config(c) => {
                                let calls = self.apply_config(c, default_dir);
                                return Ok((Pmt::Null, calls));
                            },
                            SoapyCommand::GetConfig() => {
                                return Err(SoapyError::Unsupported);
                            },
                        }
                    },
                    None => {
                        proof {
                            if a@ is Command {
                                assert(SoapyCommand::wrap_any_v(a@->Command_0) == a@);
                            }
                        }
                    },
                }
            },
            _ => {},
        }
        match SoapyConfig::try_from(pmt) {
            Ok(cfg) => {
                let calls = self.apply_config(&cfg, default_dir);
                Ok((Pmt::Null, calls))
            },
            Err(e) => Err(e),
        }
    }

    /// The calls the legacy frequency port issues: channel zero only, in
    /// the block's own direction (or both for a bidirectional block).
    pub open spec fn freq_port_calls(b: u64, default: SoapyDirection) -> Seq<CallV> {
        (if is_rx_spec(default, SoapyDirection::Neither) {
            seq![CallV::SetFrequency(SoapyDir::Rx, 0, b)]
        } else {
            Seq::empty()
        }) + (if is_tx_spec(default, SoapyDirection::Neither) {
            seq![CallV::SetFrequency(SoapyDir::Tx, 0, b)]
        } else {
            Seq::empty()
        })
    }

    /// The calls the legacy sample-rate port issues: channel zero only, in
    /// the block's own direction.
    pub open spec fn rate_port_calls(b: u64, default: SoapyDirection) -> Seq<CallV> {
        (if is_rx_spec(default, SoapyDirection::Neither) {
            seq![CallV::SetSampleRate(SoapyDir::Rx, 0, b)]
        } else {
            Seq::empty()
        }) + (if is_tx_spec(default, SoapyDirection::Neither) {
            seq![CallV::SetSampleRate(SoapyDir::Tx, 0, b)]
        } else {
            Seq::empty()
        })
    }

    /// The handler for the legacy frequency port: a numeric-coercible
    /// value retunes channel zero. Kept for backward compatibility; unlike
    /// the engine, it reports a missing device as an error.
    pub fn set_freq(&self, p: Pmt, default_dir: &SoapyDirection) -> (r: Result<
        (Pmt, Vec<DeviceCall>),
        SoapyError,
    >)
        ensures
            !self@.dev ==> r == Err::<(Pmt, Vec<DeviceCall>), SoapyError>(SoapyError::DeviceAbsent),
            self@.dev ==> match crate::config::to_f64_v(p@) {
                Some(b) => r matches Ok(t) && t.0@ == PmtV::Null && calls_v(t.1@)
                    == Self::freq_port_calls(b, *default_dir),
                None => r == Err::<(Pmt, Vec<DeviceCall>), SoapyError>(SoapyError::Conversion),
            },
    {
        if !self.dev {
            return Err(SoapyError::DeviceAbsent);
        }
        let freq = match crate::config::pmt_to_f64(&p) {
            Ok(b) => b,
            Err(e) => {
                return Err(e);
            },
        };
        let mut calls: Vec<DeviceCall> = Vec::new();
        if default_dir.is_rx(&SoapyDirection::Neither) {
            calls.push(DeviceCall::SetFrequency(SoapyDir::Rx, 0, freq));
        }
        if default_dir.is_tx(&SoapyDirection::Neither) {
            calls.push(DeviceCall::SetFrequency(SoapyDir::Tx, 0, freq));
        }
        proof {
            assert(calls_v(calls@) =~= Self::freq_port_calls(
                crate::config::to_f64_v(p@)->Some_0,
                *default_dir,
            ));
        }
        Ok((Pmt::Null, calls))
    }

    /// The handler for the legacy sample-rate port: a numeric-coercible
    /// value sets the rate of channel zero. Kept for backward
    /// compatibility; unlike the engine, it reports a missing device as an
    /// error.
    pub fn set_sample_rate(&self, p: Pmt, default_dir: &SoapyDirection) -> (r: Result<
        (Pmt, Vec<DeviceCall>),
        SoapyError,
    >)
        ensures
            !self@.dev ==> r == Err::<(Pmt, Vec<DeviceCall>), SoapyError>(SoapyError::DeviceAbsent),
            self@.dev ==> match crate::config::to_f64_v(p@) {
                Some(b) => r matches Ok(t) && t.0@ == PmtV::Null && calls_v(t.1@)
                    == Self::rate_port_calls(b, *default_dir),
                None => r == Err::<(Pmt, Vec<DeviceCall>), SoapyError>(SoapyError::Conversion),
            },
    {
        if !self.dev {
            return Err(SoapyError::DeviceAbsent);
        }
        let rate = match crate::config::pmt_to_f64(&p) {
            Ok(b) => b,
            Err(e) => {
                return Err(e);
            },
        };
        let mut calls: Vec<DeviceCall> = Vec::new();
        if default_dir.is_rx(&SoapyDirection::Neither) {
            calls.push(DeviceCall::SetSampleRate(SoapyDir::Rx, 0, rate));
        }
        if default_dir.is_tx(&SoapyDirection::Neither) {
            calls.push(DeviceCall::SetSampleRate(SoapyDir::Tx, 0, rate));
        }
        proof {
            assert(calls_v(calls@) =~= Self::rate_port_calls(
                crate::config::to_f64_v(p@)->Some_0,
                *default_dir,
            ));
        }
        Ok((Pmt::Null, calls))
    }
}

} // verus!
