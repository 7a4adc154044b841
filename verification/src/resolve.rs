//! Resolution between hashes and label text through a label registry:
//! parsing a label (hexadecimal text or a registered name) into a hash,
//! and rendering a hash as its label or as the canonical hexadecimal
//! form.

use vstd::prelude::*;

use crate::errors::{FromLabelError, ParseHashError};
use crate::hash::{spec_hash40, Hash40};
use crate::hex::{hex_label_exec, spec_from_hex_str, spec_hex_label};
use crate::label_map::LabelMap;

verus! {

use vstd::string::StringExecFns;
use vstd::string::StringSliceAdditionalSpecFns;

/// The text a hash renders as: the label paired with it in the registry,
/// or, when none is, the canonical hexadecimal form of its low 40 bits.
pub open spec fn spec_to_label(h: Hash40, m: LabelMap) -> Seq<char> {
    if m.entries().dom().contains(h.0) {
        m.entries()[h.0]
    } else {
        spec_hex_label(h.0 % 0x100_0000_0000)
    }
}

impl Hash40 {
    /// Computes a hash from a label.  The label is first tried as
    /// hexadecimal text; lacking the `"0x"` prefix, it is resolved
    /// through the registry's reverse lookup instead, which in `Pure`
    /// and `Unset` mode computes the ordinary hash.  A malformed numeral
    /// after a present prefix propagates as a parse error and never
    /// falls through to label lookup.
    pub fn from_label(label: &str, labels: &LabelMap) -> (r: Result<Self, FromLabelError>)
        ensures
            match r {
                Ok(h) => match spec_from_hex_str(label.spec_bytes()) {
                    Ok(v) => h.0 == v,
                    Err(ParseHashError::MissingPrefix) => match labels {
                        LabelMap::Custom(_) => labels.entries().dom().contains(h.0)
                            && labels.entries()[h.0] == label@,
                        _ => h.0 == spec_hash40(label.spec_bytes()),
                    },
                    Err(ParseHashError::ParseError(_)) => false,
                },
                Err(FromLabelError::ParseError(k)) => spec_from_hex_str(label.spec_bytes())
                    == Err::<u64, ParseHashError>(ParseHashError::ParseError(k)),
                Err(FromLabelError::LabelNotFound(s)) => {
                    &&& spec_from_hex_str(label.spec_bytes()) == Err::<u64, ParseHashError>(
                        ParseHashError::MissingPrefix,
                    )
                    &&& (*labels) is Custom
                    &&& s@ == label@
                    &&& forall|k: u64|
                        labels.entries().dom().contains(k) ==> labels.entries()[k] != label@
                },
            },
    {
        match Self::from_hex_str(label) {
            Ok(h) => Ok(h),
            Err(ParseHashError::MissingPrefix) => match labels.hash_of(label) {
                Some(h) => Ok(h),
                None => Err(FromLabelError::LabelNotFound(String::from_str(label))),
            },
            Err(ParseHashError::ParseError(k)) => Err(FromLabelError::ParseError(k)),
        }
    }

    /// Searches the registry for the label paired with this hash.  When
    /// none is found, renders the canonical hexadecimal form of the low
    /// 40 bits instead; rendering never fails.
    pub fn to_label(&self, labels: &LabelMap) -> (r: String)
        ensures
            r@ == spec_to_label(*self, *labels),
    {
        match labels.label_of(*self) {
            Some(s) => s,
            None => hex_label_exec(self.0),
        }
    }
}

} // verus!
