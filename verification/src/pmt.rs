use vstd::prelude::*;

use crate::config::ItemV;
use crate::config::SoapyConfig;
use crate::config::SoapyConfigItem;
use crate::device::CommandV;
use crate::device::SoapyCommand;

verus! {

/// The mathematical model of a [`Pmt`]: the same tree, with sequences for
/// vectors and strings.
pub enum PmtV {
    Null,
    String(Seq<char>),
    U32(u32),
    U64(u64),
    F32(u32),
    F64(u64),
    VecF32(Seq<u32>),
    VecU64(Seq<u64>),
    Blob(Seq<u8>),
    VecPmt(Seq<PmtV>),
    MapStrPmt(Seq<(Seq<char>, PmtV)>),
    Any(AnyV),
    AnySerde(AnySerdeV),
}

/// Model of [`PmtAny`].
pub enum AnyV {
    Config(Seq<ItemV>),
    ConfigItem(ItemV),
    Command(CommandV),
}

/// Model of [`PmtAnySerde`].
pub enum AnySerdeV {
    Config(Seq<ItemV>),
    ConfigItem(ItemV),
}

/// The dynamic tagged-union message type carried across component
/// boundaries.
///
/// `F32`/`F64` (and `VecF32`) carry IEEE-754 bit patterns: no arithmetic is
/// ever performed on them here, so the bit pattern is the value's exact
/// identity, and structural equality is bit equality.
///
/// `MapStrPmt` holds its entries as a vector of pairs; well-formed values
/// keep the keys unique ([`pmt_wf`]) and equality ignores entry order.
///
/// `Any` is the opaque extension point: downcastable, excluded from
/// equality and from the wire format. `AnySerde` additionally carries a
/// stable type tag and serializes through the registry in [`crate::codec`].
#[derive(Debug)]
pub enum Pmt {
    Null,
    String(String),
    U32(u32),
    U64(u64),
    /// IEEE-754 binary32 bit pattern.
    F32(u32),
    /// IEEE-754 binary64 bit pattern.
    F64(u64),
    /// Bit patterns of IEEE-754 binary32 values.
    VecF32(Vec<u32>),
    VecU64(Vec<u64>),
    Blob(Vec<u8>),
    VecPmt(Vec<Pmt>),
    MapStrPmt(Vec<(String, Pmt)>),
    Any(PmtAny),
    AnySerde(PmtAnySerde),
}

/// The opaque, non-serializable extension point.
///
/// The set of payload types is the closed set that crosses this crate's
/// component boundaries; the variant discriminant is the runtime type tag
/// that downcasting compares.
#[derive(Debug)]
pub enum PmtAny {
    Config(SoapyConfig),
    ConfigItem(SoapyConfigItem),
    Command(SoapyCommand),
}

/// The serializable extension point: the same capability set as [`PmtAny`]
/// plus a stable type tag used for tagged (de)serialization through the
/// registry in [`crate::codec`].
#[derive(Debug)]
pub enum PmtAnySerde {
    Config(SoapyConfig),
    ConfigItem(SoapyConfigItem),
}

pub open spec fn any_v(a: PmtAny) -> AnyV {
    match a {
        PmtAny::Config(c) => AnyV::Config(c@),
        PmtAny::ConfigItem(i) => AnyV::ConfigItem(i@),
        PmtAny::Command(c) => AnyV::Command(c@),
    }
}

pub open spec fn any_serde_v(a: PmtAnySerde) -> AnySerdeV {
    match a {
        PmtAnySerde::Config(c) => AnySerdeV::Config(c@),
        PmtAnySerde::ConfigItem(i) => AnySerdeV::ConfigItem(i@),
    }
}

/// Models of the elements of a `Pmt` vector.
pub open spec fn pmts_v(s: Seq<Pmt>) -> Seq<PmtV>
    decreases s,
{
    Seq::new(
        s.len(),
        |i: int|
            if 0 <= i < s.len() {
                pmt_v(s[i])
            } else {
                PmtV::Null
            },
    )
}

/// Models of the entries of a `Pmt` map.
pub open spec fn entries_v(s: Seq<(String, Pmt)>) -> Seq<(Seq<char>, PmtV)>
    decreases s,
{
    Seq::new(
        s.len(),
        |i: int|
            if 0 <= i < s.len() {
                (s[i].0@, pmt_v(s[i].1))
            } else {
                (Seq::<char>::empty(), PmtV::Null)
            },
    )
}

pub open spec fn pmt_v(p: Pmt) -> PmtV
    decreases p,
{
    match p {
        Pmt::Null => PmtV::Null,
        Pmt::String(s) => PmtV::String(s@),
        Pmt::U32(v) => PmtV::U32(v),
        Pmt::U64(v) => PmtV::U64(v),
        Pmt::F32(b) => PmtV::F32(b),
        Pmt::F64(b) => PmtV::F64(b),
        Pmt::VecF32(v) => PmtV::VecF32(v@),
        Pmt::VecU64(v) => PmtV::VecU64(v@),
        Pmt::Blob(v) => PmtV::Blob(v@),
        Pmt::VecPmt(v) => PmtV::VecPmt(pmts_v(v@)),
        Pmt::MapStrPmt(m) => PmtV::MapStrPmt(entries_v(m@)),
        Pmt::Any(a) => PmtV::Any(any_v(a)),
        Pmt::AnySerde(a) => PmtV::AnySerde(any_serde_v(a)),
    }
}

impl View for Pmt {
    type V = PmtV;

    open spec fn view(&self) -> PmtV {
        pmt_v(*self)
    }
}

impl View for PmtAny {
    type V = AnyV;

    open spec fn view(&self) -> AnyV {
        any_v(*self)
    }
}

impl View for PmtAnySerde {
    type V = AnySerdeV;

    open spec fn view(&self) -> AnySerdeV {
        any_serde_v(*self)
    }
}

/// The shape of a [`Pmt`], without its payload.
#[derive(Clone, Copy, Debug, PartialEq, Eq, Structural)]
pub enum PmtKind {
    Null,
    String,
    U32,
    U64,
    F32,
    F64,
    VecF32,
    VecU64,
    Blob,
    VecPmt,
    MapStrPmt,
    Any,
}

/// Keys of a map's entry list are pairwise distinct.
pub open spec fn map_keys_unique(s: Seq<(Seq<char>, PmtV)>) -> bool {
    forall|i: int, j: int| 0 <= i < j < s.len() ==> s[i].0 != s[j].0
}

/// Well-formedness: every map inside the value keeps its keys unique.
pub open spec fn pmt_wf(p: PmtV) -> bool
    decreases p,
{
    match p {
        PmtV::VecPmt(v) => forall|i: int| 0 <= i < v.len() ==> pmt_wf(#[trigger] v[i]),
        PmtV::MapStrPmt(m) => map_keys_unique(m) && forall|i: int|
            0 <= i < m.len() ==> pmt_wf(#[trigger] m[i].1),
        _ => true,
    }
}

/// A payload type that can live inside [`PmtAny`].
///
/// `wrap_any_v` is the injection of the payload's model into the extension
/// point's model; `downcast_in` inverts it, answering `None` exactly when
/// the value holds a different payload type.
pub trait AnyPayload: Sized + Clone + View {
    spec fn wrap_any_v(m: Self::V) -> AnyV;

    fn downcast_in(a: &PmtAny) -> (r: Option<&Self>)
        ensures
            match r {
                Some(p) => Self::wrap_any_v(p@) == a@,
                None => forall|m: Self::V| Self::wrap_any_v(m) != a@,
            },
    ;
}

/// A payload type that can live inside [`PmtAnySerde`].
pub trait SerdePayload: Sized + Clone + View {
    spec fn wrap_serde_v(m: Self::V) -> AnySerdeV;

    fn downcast_serde_in(a: &PmtAnySerde) -> (r: Option<&Self>)
        ensures
            match r {
                Some(p) => Self::wrap_serde_v(p@) == a@,
                None => forall|m: Self::V| Self::wrap_serde_v(m) != a@,
            },
    ;
}

impl PmtAny {
    /// Borrow the payload as `T`: the typed reference on a tag match,
    /// `None` on any mismatch — never a fault.
    pub fn downcast_ref<T: AnyPayload>(&self) -> (r: Option<&T>)
        ensures
            match r {
                Some(p) => T::wrap_any_v(p@) == self@,
                None => forall|m: T::V| T::wrap_any_v(m) != self@,
            },
    {
        T::downcast_in(self)
    }
}

impl PmtAnySerde {
    /// Borrow the payload as `T`: the typed reference on a tag match,
    /// `None` on any mismatch — never a fault.
    pub fn downcast_ref<T: SerdePayload>(&self) -> (r: Option<&T>)
        ensures
            match r {
                Some(p) => T::wrap_serde_v(p@) == self@,
                None => forall|m: T::V| T::wrap_serde_v(m) != self@,
            },
    {
        T::downcast_serde_in(self)
    }
}

impl AnyPayload for SoapyConfig {
    open spec fn wrap_any_v(m: Seq<ItemV>) -> AnyV {
        AnyV::Config(m)
    }

    fn downcast_in(a: &PmtAny) -> (r: Option<&Self>) {
        match a {
            PmtAny::Config(c) => Some(c),
            _ => None,
        }
    }
}

impl AnyPayload for SoapyConfigItem {
    open spec fn wrap_any_v(m: ItemV) -> AnyV {
        AnyV::ConfigItem(m)
    }

    fn downcast_in(a: &PmtAny) -> (r: Option<&Self>) {
        match a {
            PmtAny::ConfigItem(c) => Some(c),
            _ => None,
        }
    }
}

impl AnyPayload for SoapyCommand {
    open spec fn wrap_any_v(m: CommandV) -> AnyV {
        AnyV::Command(m)
    }

    fn downcast_in(a: &PmtAny) -> (r: Option<&Self>) {
        match a {
            PmtAny::Command(c) => Some(c),
            _ => None,
        }
    }
}

impl SerdePayload for SoapyConfig {
    open spec fn wrap_serde_v(m: Seq<ItemV>) -> AnySerdeV {
        AnySerdeV::Config(m)
    }

    fn downcast_serde_in(a: &PmtAnySerde) -> (r: Option<&Self>) {
        match a {
            PmtAnySerde::Config(c) => Some(c),
            _ => None,
        }
    }
}

impl SerdePayload for SoapyConfigItem {
    open spec fn wrap_serde_v(m: ItemV) -> AnySerdeV {
        AnySerdeV::ConfigItem(m)
    }

    fn downcast_serde_in(a: &PmtAnySerde) -> (r: Option<&Self>) {
        match a {
            PmtAnySerde::ConfigItem(c) => Some(c),
            _ => None,
        }
    }
}

/// First value stored under key `k`, if any.
pub open spec fn map_lookup_v(m: Seq<(Seq<char>, PmtV)>, k: Seq<char>) -> Option<PmtV>
    decreases m.len(),
{
    if m.len() == 0 {
        None
    } else if m[0].0 == k {
        Some(m[0].1)
    } else {
        map_lookup_v(m.drop_first(), k)
    }
}

/// Entry `e` has a match in map `m`: `m` stores an equal value under `e`'s
/// key.
pub open spec fn entry_matched(e: (Seq<char>, PmtV), m: Seq<(Seq<char>, PmtV)>) -> bool
    decreases e,
{
    match map_lookup_v(m, e.0) {
        Some(v) => pmt_eq_v(e.1, v),
        None => false,
    }
}

/// Structural equality of values.
///
/// All variants compare by contents — maps without regard to entry order —
/// except the two extension points, which are equal to nothing, not even
/// themselves: a deliberate weakening, since an opaque payload offers no
/// general equality.
pub open spec fn pmt_eq_v(a: PmtV, b: PmtV) -> bool
    decreases a,
{
    match (a, b) {
        (PmtV::Null, PmtV::Null) => true,
        (PmtV::String(x), PmtV::String(y)) => x == y,
        (PmtV::U32(x), PmtV::U32(y)) => x == y,
        (PmtV::U64(x), PmtV::U64(y)) => x == y,
        (PmtV::F32(x), PmtV::F32(y)) => x == y,
        (PmtV::F64(x), PmtV::F64(y)) => x == y,
        (PmtV::VecF32(x), PmtV::VecF32(y)) => x == y,
        (PmtV::VecU64(x), PmtV::VecU64(y)) => x == y,
        (PmtV::Blob(x), PmtV::Blob(y)) => x == y,
        (PmtV::VecPmt(x), PmtV::VecPmt(y)) => x.len() == y.len() && (forall|i: int|
            0 <= i < x.len() ==> pmt_eq_v(#[trigger] x[i], y[i])),
        (PmtV::MapStrPmt(x), PmtV::MapStrPmt(y)) => x.len() == y.len() && (forall|i: int|
            0 <= i < x.len() ==> entry_matched(#[trigger] x[i], y)),
        _ => false,
    }
}


/// A value the structural equality can affirm: one holding no extension
/// point anywhere. An opaque payload offers no general equality, so a
/// value containing one is never equal to anything, itself included.
pub open spec fn comparable(p: PmtV) -> bool
    decreases p,
{
    match p {
        PmtV::VecPmt(v) => forall|i: int| 0 <= i < v.len() ==> comparable(#[trigger] v[i]),
        PmtV::MapStrPmt(m) => forall|i: int| 0 <= i < m.len() ==> comparable(#[trigger] m[i].1),
        PmtV::Any(_) => false,
        PmtV::AnySerde(_) => false,
        _ => true,
    }
}

/// Under unique keys, looking an entry's own key up finds that entry.
proof fn lemma_map_lookup_self(m: Seq<(Seq<char>, PmtV)>, i: int)
    requires
        map_keys_unique(m),
        0 <= i < m.len(),
    ensures
        map_lookup_v(m, m[i].0) == Some(m[i].1),
    decreases m.len(),
{
    if i == 0 {
    } else {
        assert(m[0].0 != m[i].0);
        assert(map_keys_unique(m.drop_first()));
        assert(m.drop_first()[i - 1] == m[i]);
        lemma_map_lookup_self(m.drop_first(), i - 1);
    }
}

/// Structural equality is reflexive on well-formed values without
/// extension-point payloads.
pub proof fn lemma_pmt_eq_refl(p: PmtV)
    requires
        pmt_wf(p),
        comparable(p),
    ensures
        pmt_eq_v(p, p),
    decreases p,
{
    match p {
        PmtV::VecPmt(v) => {
            assert forall|i: int| 0 <= i < v.len() implies pmt_eq_v(#[trigger] v[i], v[i]) by {
                lemma_pmt_eq_refl(v[i]);
            }
        },
        PmtV::MapStrPmt(m) => {
            assert forall|i: int| 0 <= i < m.len() implies entry_matched(#[trigger] m[i], m) by {
                lemma_map_lookup_self(m, i);
                lemma_pmt_eq_refl(m[i].1);
            }
        },
        _ => {},
    }
}

/// Look a key up in a map's entry list: the first entry with that key.
#[verifier::loop_isolation(false)]
pub fn map_get<'a>(m: &'a Vec<(String, Pmt)>, k: &str) -> (r: Option<&'a Pmt>)
    ensures
        match r {
            Some(p) => map_lookup_v(entries_v(m@), k@) == Some(p@),
            None => map_lookup_v(entries_v(m@), k@) is None,
        },
{
    let ghost full = entries_v(m@);
    assert(full.skip(0) =~= full);
    let mut i: usize = 0;
    while i < m.len()
        invariant
            i <= m.len(),
            full == entries_v(m@),
            map_lookup_v(full, k@) == map_lookup_v(full.skip(i as int), k@),
            forall|j: int| 0 <= j < i ==> full[j].0 != k@,
        decreases m.len() - i,
    {
        let ghost rest = full.skip(i as int);
        if crate::text::str_eq(m[i].0.as_str(), k) {
            assert(rest[0] == full[i as int] && rest[0].0 == k@);
            return Some(&m[i].1);
        }
        assert(rest[0] == full[i as int] && rest[0].0 != k@);
        assert(rest.drop_first() =~= full.skip(i + 1));
        i += 1;
    }
    assert(full.skip(i as int) =~= Seq::<(Seq<char>, PmtV)>::empty());
    None
}

fn vec_u8_eq(x: &Vec<u8>, y: &Vec<u8>) -> (r: bool)
    ensures
        r == (x@ == y@),
{
    if x.len() != y.len() {
        return false;
    }
    let mut i: usize = 0;
    while i < x.len()
        invariant
            i <= x.len(),
            x@.len() == y@.len(),
            forall|j: int| 0 <= j < i ==> x@[j] == y@[j],
        decreases x.len() - i,
    {
        if x[i] != y[i] {
            return false;
        }
        i += 1;
    }
    proof {
        assert(x@ =~= y@);
    }
    true
}

fn vec_u32_eq(x: &Vec<u32>, y: &Vec<u32>) -> (r: bool)
    ensures
        r == (x@ == y@),
{
    if x.len() != y.len() {
        return false;
    }
    let mut i: usize = 0;
    while i < x.len()
        invariant
            i <= x.len(),
            x@.len() == y@.len(),
            forall|j: int| 0 <= j < i ==> x@[j] == y@[j],
        decreases x.len() - i,
    {
        if x[i] != y[i] {
            return false;
        }
        i += 1;
    }
    proof {
        assert(x@ =~= y@);
    }
    true
}

fn vec_u64_eq(x: &Vec<u64>, y: &Vec<u64>) -> (r: bool)
    ensures
        r == (x@ == y@),
{
    if x.len() != y.len() {
        return false;
    }
    let mut i: usize = 0;
    while i < x.len()
        invariant
            i <= x.len(),
            x@.len() == y@.len(),
            forall|j: int| 0 <= j < i ==> x@[j] == y@[j],
        decreases x.len() - i,
    {
        if x[i] != y[i] {
            return false;
        }
        i += 1;
    }
    proof {
        assert(x@ =~= y@);
    }
    true
}

/// Structural equality, recursively.
#[verifier::loop_isolation(false)]
fn pmt_eq_rec(a: &Pmt, b: &Pmt) -> (r: bool)
    ensures
        r == pmt_eq_v(a@, b@),
    decreases *a,
{
    match (a, b) {
        (Pmt::Null, Pmt::Null) => true,
        (Pmt::String(x), Pmt::String(y)) => crate::text::str_eq(x.as_str(), y.as_str()),
        (Pmt::U32(x), Pmt::U32(y)) => x == y,
        (Pmt::U64(x), Pmt::U64(y)) => x == y,
        (Pmt::F32(x), Pmt::F32(y)) => x == y,
        (Pmt::F64(x), Pmt::F64(y)) => x == y,
        (Pmt::VecF32(x), Pmt::VecF32(y)) => vec_u32_eq(x, y),
        (Pmt::VecU64(x), Pmt::VecU64(y)) => vec_u64_eq(x, y),
        (Pmt::Blob(x), Pmt::Blob(y)) => vec_u8_eq(x, y),
        (Pmt::VecPmt(x), Pmt::VecPmt(y)) => {
            if x.len() != y.len() {
                return false;
            }
            let mut i: usize = 0;
            while i < x.len()
                invariant
                    i <= x.len(),
                    x@.len() == y@.len(),
                    forall|j: int| 0 <= j < i ==> pmt_eq_v(pmts_v(x@)[j], pmts_v(y@)[j]),
                decreases x.len() - i,
            {
                if !pmt_eq_rec(&x[i], &y[i]) {
                    proof {
                        assert(!pmt_eq_v(pmts_v(x@)[i as int], pmts_v(y@)[i as int]));
                    }
                    return false;
                }
                i += 1;
            }
            true
        },
        (Pmt::MapStrPmt(x), Pmt::MapStrPmt(y)) => {
            if x.len() != y.len() {
                return false;
            }
            let mut i: usize = 0;
            while i < x.len()
                invariant
                    i <= x.len(),
                    x@.len() == y@.len(),
                    forall|j: int| 0 <= j < i ==> entry_matched(entries_v(x@)[j], entries_v(y@)),
                decreases x.len() - i,
            {
                match map_get(y, x[i].0.as_str()) {
                    Some(v) => {
                        if !pmt_eq_rec(&x[i].1, v) {
                            proof {
                                assert(!entry_matched(entries_v(x@)[i as int], entries_v(y@)));
                            }
                            return false;
                        }
                    },
                    None => {
                        proof {
                            assert(!entry_matched(entries_v(x@)[i as int], entries_v(y@)));
                        }
                        return false;
                    },
                }
                i += 1;
            }
            true
        },
        _ => false,
    }
}

impl PartialEq for Pmt {
    fn eq(&self, other: &Self) -> (r: bool) {
        pmt_eq_rec(self, other)
    }
}

impl vstd::std_specs::cmp::PartialEqSpecImpl for Pmt {
    open spec fn obeys_eq_spec() -> bool {
        true
    }

    open spec fn eq_spec(&self, other: &Self) -> bool {
        pmt_eq_v(self@, other@)
    }
}

fn clone_vec_u8(v: &Vec<u8>) -> (r: Vec<u8>)
    ensures
        r@ == v@,
{
    let mut r: Vec<u8> = Vec::new();
    let mut i: usize = 0;
    while i < v.len()
        invariant
            i <= v.len(),
            r@ == v@.subrange(0, i as int),
        decreases v.len() - i,
    {
        r.push(v[i]);
        i += 1;
    }
    assert(r@ =~= v@);
    r
}

fn clone_vec_u32(v: &Vec<u32>) -> (r: Vec<u32>)
    ensures
        r@ == v@,
{
    let mut r: Vec<u32> = Vec::new();
    let mut i: usize = 0;
    while i < v.len()
        invariant
            i <= v.len(),
            r@ == v@.subrange(0, i as int),
        decreases v.len() - i,
    {
        r.push(v[i]);
        i += 1;
    }
    assert(r@ =~= v@);
    r
}

fn clone_vec_u64(v: &Vec<u64>) -> (r: Vec<u64>)
    ensures
        r@ == v@,
{
    let mut r: Vec<u64> = Vec::new();
    let mut i: usize = 0;
    while i < v.len()
        invariant
            i <= v.len(),
            r@ == v@.subrange(0, i as int),
        decreases v.len() - i,
    {
        r.push(v[i]);
        i += 1;
    }
    assert(r@ =~= v@);
    r
}

impl Clone for PmtAny {
    fn clone(&self) -> (res: Self)
        ensures
            res@ == self@,
    {
        match self {
            Self::Config(c) => Self::Config(c.clone()),
            Self::ConfigItem(i) => Self::ConfigItem(i.clone()),
            Self::Command(c) => Self::Command(c.clone()),
        }
    }
}

impl Clone for PmtAnySerde {
    fn clone(&self) -> (res: Self)
        ensures
            res@ == self@,
    {
        match self {
            Self::Config(c) => Self::Config(c.clone()),
            Self::ConfigItem(i) => Self::ConfigItem(i.clone()),
        }
    }
}

impl Clone for Pmt {
    /// Independent copy: the receiver of a message must not alias the
    /// sender's value.
    #[verifier::loop_isolation(false)]
    fn clone(&self) -> (res: Self)
        ensures
            res@ == self@,
        decreases *self,
    {
        match self {
            Pmt::Null => Pmt::Null,
            Pmt::String(s) => Pmt::String(s.clone()),
            Pmt::U32(v) => Pmt::U32(*v),
            Pmt::U64(v) => Pmt::U64(*v),
            Pmt::F32(b) => Pmt::F32(*b),
            Pmt::F64(b) => Pmt::F64(*b),
            Pmt::VecF32(v) => Pmt::VecF32(clone_vec_u32(v)),
            Pmt::VecU64(v) => Pmt::VecU64(clone_vec_u64(v)),
            Pmt::Blob(v) => Pmt::Blob(clone_vec_u8(v)),
            Pmt::VecPmt(v) => {
                let mut out: Vec<Pmt> = Vec::new();
                let mut i: usize = 0;
                while i < v.len()
                    invariant
                        i <= v.len(),
                        out@.len() == i,
                        forall|j: int| 0 <= j < i ==> pmts_v(out@)[j] == pmts_v(v@)[j],
                    decreases v.len() - i,
                {
                    out.push(v[i].clone());
                    i += 1;
                }
                let res = Pmt::VecPmt(out);
                assert(pmts_v(out@) =~= pmts_v(v@));
                res
            },
            Pmt::MapStrPmt(m) => {
                let mut out: Vec<(String, Pmt)> = Vec::new();
                let mut i: usize = 0;
                while i < m.len()
                    invariant
                        i <= m.len(),
                        out@.len() == i,
                        forall|j: int| 0 <= j < i ==> entries_v(out@)[j] == entries_v(m@)[j],
                    decreases m.len() - i,
                {
                    let entry = &m[i];
                    out.push((entry.0.clone(), entry.1.clone()));
                    i += 1;
                }
                let res = Pmt::MapStrPmt(out);
                assert(entries_v(out@) =~= entries_v(m@));
                res
            },
            Pmt::Any(a) => Pmt::Any(a.clone()),
            Pmt::AnySerde(a) => Pmt::AnySerde(a.clone()),
        }
    }
}

impl Pmt {
    /// Build a value from its text, directed by the wanted kind.
    ///
    /// Unsigned kinds parse as decimal; the string kind takes the text
    /// itself. Kinds whose text denotes a floating-point number are left to
    /// the embedding application, which owns floating-point text: the
    /// answer for them is `None`, as for the container kinds.
    pub fn from_string(s: &str, t: &PmtKind) -> (r: Option<Pmt>)
        ensures
            match *t {
                PmtKind::U32 => match crate::text::parses_to_u32(s@) {
                    Some(v) => r matches Some(p) && p@ == PmtV::U32(v),
                    None => r is None,
                },
                PmtKind::U64 => match crate::text::parses_to_u64(s@) {
                    Some(v) => r matches Some(p) && p@ == PmtV::U64(v),
                    None => r is None,
                },
                PmtKind::String => r matches Some(p) && p@ == PmtV::String(s@),
                _ => r is None,
            },
    {
        match t {
            PmtKind::U32 => match crate::text::parse_u32(s) {
                Some(v) => Some(Pmt::U32(v)),
                None => None,
            },
            PmtKind::U64 => match crate::text::parse_u64(s) {
                Some(v) => Some(Pmt::U64(v)),
                None => None,
            },
            PmtKind::String => Some(Pmt::String(s.to_owned())),
            _ => None,
        }
    }
}

impl Pmt {
    pub fn is_string(&self) -> (r: bool)
        ensures
            r == (self@ matches PmtV::String(_)),
    {
        matches!(self, Pmt::String(_))
    }

    /// The held string, if this value is the `String` variant.
    pub fn to_string(&self) -> (r: Option<String>)
        ensures
            match r {
                Some(s) => self@ matches PmtV::String(t) && s@ == t,
                None => !(self@ matches PmtV::String(_)),
            },
    {
        match self {
            Pmt::String(s) => Some(s.clone()),
            _ => None,
        }
    }
}

} // verus!
