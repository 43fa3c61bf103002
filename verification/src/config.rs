use vstd::prelude::*;

use crate::error::SoapyError;
use crate::num::trunc_f64_bits_usize;
use crate::num::trunc_f64_usize;
use crate::num::u64_to_f64;
use crate::num::u64_to_f64_bits;
use crate::num::widen_f32;
use crate::num::widen_f32_bits;
use crate::pmt::entries_v;
use crate::pmt::AnyPayload;
use crate::pmt::AnyV;
use crate::pmt::Pmt;
use crate::pmt::PmtAny;
use crate::pmt::PmtV;
use crate::text::str_eq;

verus! {

/// Specify the channel direction to which a configuration applies.
///
/// The rich selector vocabulary exists only at this layer; it is resolved
/// to concrete `Rx`/`Tx` directions before anything reaches a device.
#[derive(Clone, Copy, Debug, PartialEq, Eq, Structural)]
pub enum SoapyDirection {
    /// Defer to the direction of the block being configured
    /// (`Rx` for a source, `Tx` for a sink).
    Default,
    Rx,
    Tx,
    Both,
    /// No direction at all: a neutral starting point, never authored by a
    /// caller.
    Neither,
}

/// Recursion measure for direction resolution: only `Default` defers.
pub open spec fn dir_rank(d: SoapyDirection) -> nat {
    match d {
        SoapyDirection::Default => 1,
        _ => 0,
    }
}

/// Whether selector `d`, resolved against `default`, covers the receive
/// direction.
pub open spec fn is_rx_spec(d: SoapyDirection, default: SoapyDirection) -> bool
    decreases dir_rank(d) + dir_rank(default),
{
    match d {
        SoapyDirection::Default => is_rx_spec(default, SoapyDirection::Neither),
        SoapyDirection::Rx => true,
        SoapyDirection::Both => true,
        _ => false,
    }
}

/// Whether selector `d`, resolved against `default`, covers the transmit
/// direction.
pub open spec fn is_tx_spec(d: SoapyDirection, default: SoapyDirection) -> bool
    decreases dir_rank(d) + dir_rank(default),
{
    match d {
        SoapyDirection::Default => is_tx_spec(default, SoapyDirection::Neither),
        SoapyDirection::Tx => true,
        SoapyDirection::Both => true,
        _ => false,
    }
}

impl SoapyDirection {
    pub fn is_rx(&self, default: &Self) -> (r: bool)
        ensures
            r == is_rx_spec(*self, *default),
        decreases dir_rank(*self) + dir_rank(*default),
    {
        match self {
            Self::Default => default.is_rx(&Self::Neither),
            Self::Rx => true,
            Self::Both => true,
            _ => false,
        }
    }

    pub fn is_tx(&self, default: &Self) -> (r: bool)
        ensures
            r == is_tx_spec(*self, *default),
        decreases dir_rank(*self) + dir_rank(*default),
    {
        match self {
            Self::Default => default.is_tx(&Self::Neither),
            Self::Tx => true,
            Self::Both => true,
            _ => false,
        }
    }
}

impl Default for SoapyDirection {
    fn default() -> (r: Self)
        ensures
            r == SoapyDirection::Default,
    {
        Self::Default
    }
}

/// Model of a [`SoapyConfigItem`].
pub enum ItemV {
    Direction(SoapyDirection),
    Channel(Option<usize>),
    Antenna(Seq<char>),
    Bandwidth(u64),
    Freq(u64),
    Gain(u64),
    SampleRate(u64),
}

/// One typed device setting or scope selector.
///
/// `Bandwidth`, `Freq`, `Gain` and `SampleRate` carry the IEEE-754 binary64
/// bit pattern of their value: the engine never computes with the number,
/// it only forwards it, so the bit pattern is the value's exact identity.
#[derive(Debug)]
pub enum SoapyConfigItem {
    Direction(SoapyDirection),
    /// `Channel(None)` applies to all channels of the session.
    Channel(Option<usize>),
    Antenna(String),
    Bandwidth(u64),
    Freq(u64),
    Gain(u64),
    SampleRate(u64),
}

pub open spec fn item_v(ci: SoapyConfigItem) -> ItemV {
    match ci {
        SoapyConfigItem::Direction(d) => ItemV::Direction(d),
        SoapyConfigItem::Channel(c) => ItemV::Channel(c),
        SoapyConfigItem::Antenna(a) => ItemV::Antenna(a@),
        SoapyConfigItem::Bandwidth(b) => ItemV::Bandwidth(b),
        SoapyConfigItem::Freq(f) => ItemV::Freq(f),
        SoapyConfigItem::Gain(g) => ItemV::Gain(g),
        SoapyConfigItem::SampleRate(r) => ItemV::SampleRate(r),
    }
}

impl View for SoapyConfigItem {
    type V = ItemV;

    open spec fn view(&self) -> ItemV {
        item_v(*self)
    }
}

impl Clone for SoapyConfigItem {
    fn clone(&self) -> (res: Self)
        ensures
            res@ == self@,
    {
        match self {
            Self::Direction(d) => Self::Direction(*d),
            Self::Channel(c) => Self::Channel(*c),
            Self::Antenna(a) => Self::Antenna(a.clone()),
            Self::Bandwidth(b) => Self::Bandwidth(*b),
            Self::Freq(f) => Self::Freq(*f),
            Self::Gain(g) => Self::Gain(*g),
            Self::SampleRate(r) => Self::SampleRate(*r),
        }
    }
}

/// An ordered, possibly empty list of configuration items: the unit of a
/// command. Order is semantically significant.
#[derive(Debug)]
pub struct SoapyConfig(pub Vec<SoapyConfigItem>);

/// Model of a sequence of items.
pub open spec fn items_v(s: Seq<SoapyConfigItem>) -> Seq<ItemV> {
    Seq::new(s.len(), |i: int| item_v(s[i]))
}

impl View for SoapyConfig {
    type V = Seq<ItemV>;

    open spec fn view(&self) -> Seq<ItemV> {
        items_v(self.0@)
    }
}

impl Clone for SoapyConfig {
    fn clone(&self) -> (res: Self)
        ensures
            res@ == self@,
    {
        let mut items: Vec<SoapyConfigItem> = Vec::new();
        let mut i: usize = 0;
        while i < self.0.len()
            invariant
                i <= self.0.len(),
                items@.len() == i,
                forall|j: int| 0 <= j < i ==> items@[j]@ == self.0@[j]@,
            decreases self.0.len() - i,
        {
            items.push(self.0[i].clone());
            i += 1;
        }
        let res = SoapyConfig(items);
        assert(res@ =~= self@);
        res
    }
}

impl Default for SoapyConfig {
    fn default() -> (r: Self)
        ensures
            r@ == Seq::<ItemV>::empty(),
    {
        let r = SoapyConfig(Vec::new());
        assert(r@ =~= Seq::<ItemV>::empty());
        r
    }
}

impl SoapyConfig {
    pub fn new() -> (r: Self)
        ensures
            r@ == Seq::<ItemV>::empty(),
    {
        Self::default()
    }

    /// Append one item, preserving the order of earlier ones.
    pub fn push(&mut self, ci: SoapyConfigItem)
        ensures
            final(self)@ == old(self)@.push(ci@),
    {
        let ghost prev = self@;
        self.0.push(ci);
        assert(self@ =~= prev.push(ci@));
    }

    /// Wrap this sequence in a `Pmt` through the opaque extension point:
    /// the preferred, lossless command shape.
    pub fn to_pmt(&self) -> (r: Pmt)
        ensures
            r@ == PmtV::Any(AnyV::Config(self@)),
    {
        Pmt::Any(PmtAny::Config(self.clone()))
    }
}

/// Model of a [`SoapyDevSpec`].
pub enum DevSpecV {
    Filter(Seq<char>),
    Dev,
}

/// How the session finds its device: a pre-existing handle adopted from the
/// embedding application, or a filter string used to look one up.
#[derive(Debug)]
pub enum SoapyDevSpec {
    Filter(String),
    /// A handle the embedding application already owns; acquisition always
    /// succeeds for this variant.
    Dev,
}

impl View for SoapyDevSpec {
    type V = DevSpecV;

    open spec fn view(&self) -> DevSpecV {
        match self {
            SoapyDevSpec::Filter(s) => DevSpecV::Filter(s@),
            SoapyDevSpec::Dev => DevSpecV::Dev,
        }
    }
}

impl Clone for SoapyDevSpec {
    fn clone(&self) -> (res: Self)
        ensures
            res@ == self@,
    {
        match self {
            Self::Filter(s) => Self::Filter(s.clone()),
            Self::Dev => Self::Dev,
        }
    }
}

impl Default for SoapyDevSpec {
    fn default() -> (r: Self)
        ensures
            r@ == DevSpecV::Filter(Seq::<char>::empty()),
    {
        SoapyDevSpec::Filter(String::new())
    }
}

/// Model of a [`SoapyInitConfig`].
pub struct InitConfigV {
    pub dev: DevSpecV,
    pub chans: Seq<usize>,
    pub activate_time: Option<i64>,
    pub config: Seq<ItemV>,
}

/// Initialization-only configuration: these items are fixed once the device
/// starts streaming.
#[derive(Debug)]
pub struct SoapyInitConfig {
    pub dev: SoapyDevSpec,
    /// Which hardware channels the session manages.
    pub chans: Vec<usize>,
    /// Stream activation time, relative to the device's hardware time.
    pub activate_time: Option<i64>,
    /// Initial values of runtime-modifiable settings.
    pub config: SoapyConfig,
}

impl View for SoapyInitConfig {
    type V = InitConfigV;

    open spec fn view(&self) -> InitConfigV {
        InitConfigV {
            dev: self.dev@,
            chans: self.chans@,
            activate_time: self.activate_time,
            config: self.config@,
        }
    }
}

impl Clone for SoapyInitConfig {
    fn clone(&self) -> (res: Self)
        ensures
            res@ == self@,
    {
        let res = SoapyInitConfig {
            dev: self.dev.clone(),
            chans: clone_usize_vec(&self.chans),
            activate_time: self.activate_time,
            config: self.config.clone(),
        };
        assert(res@ == self@);
        res
    }
}

impl Default for SoapyInitConfig {
    fn default() -> (r: Self)
        ensures
            r@.dev == DevSpecV::Filter(Seq::<char>::empty()),
            r@.chans == Seq::<usize>::empty(),
            r@.activate_time is None,
            r@.config == Seq::<ItemV>::empty(),
    {
        SoapyInitConfig {
            dev: SoapyDevSpec::default(),
            chans: Vec::new(),
            activate_time: None,
            config: SoapyConfig::default(),
        }
    }
}

/// The binary64 bit pattern a numeric-coercible value denotes: binary64
/// taken as it is, binary32 widened, unsigned integers read as the nearest
/// binary64. Anything else does not coerce.
pub open spec fn to_f64_v(v: PmtV) -> Option<u64> {
    match v {
        PmtV::F64(b) => Some(b),
        PmtV::F32(b) => Some(widen_f32_bits(b)),
        PmtV::U32(u) => Some(u64_to_f64_bits(u as u64)),
        PmtV::U64(u) => Some(u64_to_f64_bits(u)),
        _ => None,
    }
}

/// The unsigned size a numeric-coercible value denotes: floating-point
/// sources truncate toward zero and saturate, integer sources narrow as a
/// Rust `as` cast does.
pub open spec fn to_usize_v(v: PmtV) -> Option<usize> {
    match v {
        PmtV::F64(b) => Some(trunc_f64_bits_usize(b)),
        PmtV::F32(b) => Some(trunc_f64_bits_usize(widen_f32_bits(b))),
        PmtV::U32(u) => Some(u as usize),
        PmtV::U64(u) => Some(u as usize),
        _ => None,
    }
}

/// Coerce a value to a 64-bit float, as a bit pattern.
pub fn pmt_to_f64(pmt: &Pmt) -> (r: Result<u64, SoapyError>)
    ensures
        match to_f64_v(pmt@) {
            Some(b) => r == Ok::<u64, SoapyError>(b),
            None => r == Err::<u64, SoapyError>(SoapyError::Conversion),
        },
{
    match pmt {
        Pmt::F64(b) => Ok(*b),
        Pmt::F32(b) => Ok(widen_f32(*b)),
        Pmt::U32(u) => Ok(u64_to_f64(*u as u64)),
        Pmt::U64(u) => Ok(u64_to_f64(*u)),
        _ => Err(SoapyError::Conversion),
    }
}

/// Coerce a value to an unsigned size, truncating toward zero.
pub fn pmt_to_usize(pmt: &Pmt) -> (r: Result<usize, SoapyError>)
    ensures
        match to_usize_v(pmt@) {
            Some(u) => r == Ok::<usize, SoapyError>(u),
            None => r == Err::<usize, SoapyError>(SoapyError::Conversion),
        },
{
    match pmt {
        Pmt::F64(b) => Ok(trunc_f64_usize(*b)),
        Pmt::F32(b) => {
            let wide = widen_f32(*b);
            Ok(trunc_f64_usize(wide))
        },
        Pmt::U32(u) => Ok(*u as usize),
        Pmt::U64(u) => Ok(*u as usize),
        _ => Err(SoapyError::Conversion),
    }
}

/// The item one legacy map entry produces, if its key is recognized and
/// its value has the right shape.
pub open spec fn legacy_item_of(k: Seq<char>, v: PmtV) -> Option<ItemV> {
    if k == "antenna"@ {
        match v {
            PmtV::String(s) => Some(ItemV::Antenna(s)),
            _ => None,
        }
    } else if k == "bandwidth"@ {
        match to_f64_v(v) {
            Some(b) => Some(ItemV::Bandwidth(b)),
            None => None,
        }
    } else if k == "chan"@ {
        match to_usize_v(v) {
            Some(c) => Some(ItemV::Channel(Some(c))),
            None => None,
        }
    } else if k == "freq"@ {
        match to_f64_v(v) {
            Some(b) => Some(ItemV::Freq(b)),
            None => None,
        }
    } else if k == "gain"@ {
        match to_f64_v(v) {
            Some(b) => Some(ItemV::Gain(b)),
            None => None,
        }
    } else if k == "rate"@ {
        match to_f64_v(v) {
            Some(b) => Some(ItemV::SampleRate(b)),
            None => None,
        }
    } else {
        None
    }
}

/// The items a legacy map produces, in entry order; entries with an
/// unrecognized key or a wrong-shaped value are skipped.
pub open spec fn legacy_items(m: Seq<(Seq<char>, PmtV)>) -> Seq<ItemV>
    decreases m.len(),
{
    if m.len() == 0 {
        Seq::empty()
    } else {
        legacy_items(m.drop_last()) + match legacy_item_of(m.last().0, m.last().1) {
            Some(it) => seq![it],
            None => Seq::empty(),
        }
    }
}

/// A lenient parse never trips over one bad entry: inserting an entry that
/// no rule recognizes leaves the produced sequence unchanged, wherever it
/// is inserted.
pub proof fn lemma_unrecognized_entry_skipped(
    m: Seq<(Seq<char>, PmtV)>,
    i: int,
    e: (Seq<char>, PmtV),
)
    requires
        0 <= i <= m.len(),
        legacy_item_of(e.0, e.1) is None,
    ensures
        legacy_items(m.insert(i, e)) == legacy_items(m),
    decreases m.len(),
{
    let m2 = m.insert(i, e);
    if i == m.len() {
        assert(m2.drop_last() =~= m);
        assert(legacy_items(m2) =~= legacy_items(m));
    } else {
        assert(m2.last() == m.last());
        assert(m2.drop_last() =~= m.drop_last().insert(i, e));
        lemma_unrecognized_entry_skipped(m.drop_last(), i, e);
    }
}

impl SoapyConfig {
    /// Convert a value into a configuration sequence.
    ///
    /// A value already holding a sequence or a single item through the
    /// opaque extension point is taken as it is: the preferred, lossless
    /// path. A string-keyed map is read entry by entry through the legacy
    /// key table; a bad entry is skipped, never fatal. Any other value
    /// cannot convert.
    #[verifier::loop_isolation(false)]
    pub fn try_from(pmt: Pmt) -> (r: Result<SoapyConfig, SoapyError>)
        ensures
            match pmt@ {
                PmtV::Any(a) => match a {
                    AnyV::Config(c) => r matches Ok(cfg) && cfg@ == c,
                    AnyV::ConfigItem(it) => r matches Ok(cfg) && cfg@ == seq![it],
                    AnyV::Command(_) => r == Err::<SoapyConfig, SoapyError>(SoapyError::Conversion),
                },
                PmtV::MapStrPmt(m) => r matches Ok(cfg) && cfg@ == legacy_items(m),
                _ => r == Err::<SoapyConfig, SoapyError>(SoapyError::Conversion),
            },
    {
        match pmt {
            Pmt::Any(a) => {
                match a.downcast_ref::<SoapyConfig>() {
                    Some(cfg) => Ok(cfg.clone()),
                    None => {
                        proof {
                            if a@ is Config {
                                assert(SoapyConfig::wrap_any_v(a@->Config_0) == a@);
                            }
                        }
                        match a.downcast_ref::<SoapyConfigItem>() {
                            Some(it) => {
                                let mut cfg = SoapyConfig::new();
                                cfg.push(it.clone());
                                assert(cfg@ =~= seq![it@]);
                                Ok(cfg)
                            },
                            None => {
                                proof {
                                    if a@ is ConfigItem {
                                        assert(SoapyConfigItem::wrap_any_v(a@->ConfigItem_0)
                                            == a@);
                                    }
                                }
                                Err(SoapyError::Conversion)
                            },
                        }
                    },
                }
            },
            Pmt::MapStrPmt(m) => {
                let ghost full = entries_v(m@);
                let mut cfg = SoapyConfig::new();
                let mut i: usize = 0;
                while i < m.len()
                    invariant
                        i <= m.len(),
                        cfg@ == legacy_items(full.take(i as int)),
                    decreases m.len() - i,
                {
                    let ghost pre = full.take(i as int);
                    let ghost cur = full.take(i + 1);
                    proof {
                        assert(cur.drop_last() =~= pre);
                        assert(cur.last() == full[i as int]);
                    }
                    let key = &m[i].0;
                    let val = &m[i].1;
                    if str_eq(key.as_str(), "antenna") {
                        match val {
                            Pmt::String(s) => {
                                cfg.push(SoapyConfigItem::Antenna(s.clone()));
                                assert(cfg@ =~= legacy_items(cur));
                            },
                            _ => {
                                assert(cfg@ =~= legacy_items(cur));
                            },
                        }
                    } else if str_eq(key.as_str(), "bandwidth") {
                        match pmt_to_f64(val) {
                            Ok(b) => {
                                cfg.push(SoapyConfigItem::Bandwidth(b));
                                assert(cfg@ =~= legacy_items(cur));
                            },
                            Err(_) => {
                                assert(cfg@ =~= legacy_items(cur));
                            },
                        }
                    } else if str_eq(key.as_str(), "chan") {
                        match pmt_to_usize(val) {
                            Ok(c) => {
                                cfg.push(SoapyConfigItem::Channel(Some(c)));
                                assert(cfg@ =~= legacy_items(cur));
                            },
                            Err(_) => {
                                assert(cfg@ =~= legacy_items(cur));
                            },
                        }
                    } else if str_eq(key.as_str(), "freq") {
                        match pmt_to_f64(val) {
                            Ok(b) => {
                                cfg.push(SoapyConfigItem::Freq(b));
                                assert(cfg@ =~= legacy_items(cur));
                            },
                            Err(_) => {
                                assert(cfg@ =~= legacy_items(cur));
                            },
                        }
                    } else if str_eq(key.as_str(), "gain") {
                        match pmt_to_f64(val) {
                            Ok(b) => {
                                cfg.push(SoapyConfigItem::Gain(b));
                                assert(cfg@ =~= legacy_items(cur));
                            },
                            Err(_) => {
                                assert(cfg@ =~= legacy_items(cur));
                            },
                        }
                    } else if str_eq(key.as_str(), "rate") {
                        match pmt_to_f64(val) {
                            Ok(b) => {
                                cfg.push(SoapyConfigItem::SampleRate(b));
                                assert(cfg@ =~= legacy_items(cur));
                            },
                            Err(_) => {
                                assert(cfg@ =~= legacy_items(cur));
                            },
                        }
                    } else {
                        assert(cfg@ =~= legacy_items(cur));
                    }
                    i += 1;
                }
                proof {
                    assert(full.take(m@.len() as int) =~= full);
                }
                Ok(cfg)
            },
            _ => Err(SoapyError::Conversion),
        }
    }
}

/// Copy a channel list.
pub fn clone_usize_vec(v: &Vec<usize>) -> (r: Vec<usize>)
    ensures
        r@ == v@,
{
    let mut r: Vec<usize> = Vec::new();
    let mut i: usize = 0;
    while i < v.len()
        invariant
            i <= v.len(),
            r@ == v@.subrange(0, i as int),
        decreases v.len() - i,
    {
        r.push(v[i]);
        i += 1;
    }
    assert(r@ =~= v@);
    r
}

} // verus!
