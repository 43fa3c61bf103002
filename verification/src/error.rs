use vstd::prelude::*;

verus! {

/// Error taxonomy of the crate.
///
/// Downcast mismatches are deliberately *not* an error: a failed downcast
/// returns an absent result instead, because "wrong type" is an expected
/// case for callers probing an opaque value.
#[derive(Clone, Copy, Debug, PartialEq, Eq, Structural)]
pub enum SoapyError {
    /// A `Pmt` does not hold the numeric or string shape a caller required,
    /// or a byte stream does not hold a well-formed encoded value.
    Conversion,
    /// A serialized opaque value carries a type tag with no registered decoder.
    UnknownTag,
    /// Device lookup or construction failed; the session never becomes usable.
    DeviceInit,
    /// A configuration was attempted before any device was attached.
    DeviceAbsent,
    /// The device rejected or failed a specific setting.
    HardwareCall,
    /// A command variant that the handler does not implement.
    Unsupported,
}

} // verus!
