//! Coercion of attribute text into typed fields.
//!
//! A field takes its value from the text of an attribute by the rule of its
//! own type: text is stored verbatim, a flag takes `yes` or `no`, and an
//! enumeration takes one of its fixed tokens. Any other text is refused and
//! leaves the field as it was.

use vstd::prelude::*;

use crate::model::{ForceMerging, ForceNoDump, ForcePacking, RomMode, SampleMode, Status};
use crate::text::str_eq;

verus! {

/// The flag that `yes` or `no` stands for; no other text is a flag.
pub open spec fn flag_of(value: Seq<char>) -> Option<bool> {
    if value == "yes"@ {
        Some(true)
    } else if value == "no"@ {
        Some(false)
    } else {
        None
    }
}

/// The merge policy that a `forcemerging` token stands for.
pub open spec fn force_merging_of(value: Seq<char>) -> Option<ForceMerging> {
    if value == "none"@ {
        Some(ForceMerging::NoMerging)
    } else if value == "split"@ {
        Some(ForceMerging::Split)
    } else if value == "full"@ {
        Some(ForceMerging::Full)
    } else {
        None
    }
}

/// The no-dump policy that a `forcenodump` token stands for.
pub open spec fn force_no_dump_of(value: Seq<char>) -> Option<ForceNoDump> {
    if value == "obsolete"@ {
        Some(ForceNoDump::Obsolete)
    } else if value == "required"@ {
        Some(ForceNoDump::Required)
    } else if value == "ignore"@ {
        Some(ForceNoDump::Ignore)
    } else {
        None
    }
}

/// The packing policy that a `forcepacking` token stands for.
pub open spec fn force_packing_of(value: Seq<char>) -> Option<ForcePacking> {
    if value == "zip"@ {
        Some(ForcePacking::Zip)
    } else if value == "unzip"@ {
        Some(ForcePacking::Unzip)
    } else {
        None
    }
}

/// The mode that a `rommode` or `biosmode` token stands for.
pub open spec fn rom_mode_of(value: Seq<char>) -> Option<RomMode> {
    if value == "merged"@ {
        Some(RomMode::Merged)
    } else if value == "split"@ {
        Some(RomMode::Split)
    } else if value == "unmerged"@ {
        Some(RomMode::Unmerged)
    } else {
        None
    }
}

/// The mode that a `samplemode` token stands for.
pub open spec fn sample_mode_of(value: Seq<char>) -> Option<SampleMode> {
    if value == "merged"@ {
        Some(SampleMode::Merged)
    } else if value == "unmerged"@ {
        Some(SampleMode::Unmerged)
    } else {
        None
    }
}

/// The status that a `status` token stands for.
pub open spec fn status_of(value: Seq<char>) -> Option<Status> {
    if value == "baddump"@ {
        Some(Status::BadDump)
    } else if value == "nodump"@ {
        Some(Status::NoDump)
    } else if value == "good"@ {
        Some(Status::Good)
    } else if value == "verified"@ {
        Some(Status::Verified)
    } else {
        None
    }
}

/// A field that can be set from the text of an attribute.
pub trait XmlAttr: View + Sized {
    /// The value that the text stands for, if it stands for one.
    spec fn coerced(value: Seq<char>) -> Option<Self::V>;

    /// Sets the field from `value`. Returns whether the text was accepted;
    /// if it was not, the field is unchanged.
    fn set_from_str(&mut self, value: &str) -> (ok: bool)
        ensures
            ok == Self::coerced(value@).is_some(),
            ok ==> final(self)@ == Self::coerced(value@).unwrap(),
            !ok ==> *final(self) == *old(self),
    ;
}

impl XmlAttr for String {
    open spec fn coerced(value: Seq<char>) -> Option<Seq<char>> {
        Some(value)
    }

    fn set_from_str(&mut self, value: &str) -> (ok: bool) {
        *self = value.to_owned();
        true
    }
}

impl XmlAttr for bool {
    open spec fn coerced(value: Seq<char>) -> Option<bool> {
        flag_of(value)
    }

    fn set_from_str(&mut self, value: &str) -> (ok: bool) {
        if str_eq(value, "yes") {
            *self = true;
            true
        } else if str_eq(value, "no") {
            *self = false;
            true
        } else {
            false
        }
    }
}

impl XmlAttr for ForceMerging {
    open spec fn coerced(value: Seq<char>) -> Option<ForceMerging> {
        force_merging_of(value)
    }

    fn set_from_str(&mut self, value: &str) -> (ok: bool) {
        if str_eq(value, "none") {
            *self = ForceMerging::NoMerging;
            true
        } else if str_eq(value, "split") {
            *self = ForceMerging::Split;
            true
        } else if str_eq(value, "full") {
            *self = ForceMerging::Full;
            true
        } else {
            false
        }
    }
}

impl XmlAttr for ForceNoDump {
    open spec fn coerced(value: Seq<char>) -> Option<ForceNoDump> {
        force_no_dump_of(value)
    }

    fn set_from_str(&mut self, value: &str) -> (ok: bool) {
        if str_eq(value, "obsolete") {
            *self = ForceNoDump::Obsolete;
            true
        } else if str_eq(value, "required") {
            *self = ForceNoDump::Required;
            true
        } else if str_eq(value, "ignore") {
            *self = ForceNoDump::Ignore;
            true
        } else {
            false
        }
    }
}

impl XmlAttr for ForcePacking {
    open spec fn coerced(value: Seq<char>) -> Option<ForcePacking> {
        force_packing_of(value)
    }

    fn set_from_str(&mut self, value: &str) -> (ok: bool) {
        if str_eq(value, "zip") {
            *self = ForcePacking::Zip;
            true
        } else if str_eq(value, "unzip") {
            *self = ForcePacking::Unzip;
            true
        } else {
            false
        }
    }
}

impl XmlAttr for RomMode {
    open spec fn coerced(value: Seq<char>) -> Option<RomMode> {
        rom_mode_of(value)
    }

    fn set_from_str(&mut self, value: &str) -> (ok: bool) {
        if str_eq(value, "merged") {
            *self = RomMode::Merged;
            true
        } else if str_eq(value, "split") {
            *self = RomMode::Split;
            true
        } else if str_eq(value, "unmerged") {
            *self = RomMode::Unmerged;
            true
        } else {
            false
        }
    }
}

impl XmlAttr for SampleMode {
    open spec fn coerced(value: Seq<char>) -> Option<SampleMode> {
        sample_mode_of(value)
    }

    fn set_from_str(&mut self, value: &str) -> (ok: bool) {
        if str_eq(value, "merged") {
            *self = SampleMode::Merged;
            true
        } else if str_eq(value, "unmerged") {
            *self = SampleMode::Unmerged;
            true
        } else {
            false
        }
    }
}

impl XmlAttr for Status {
    open spec fn coerced(value: Seq<char>) -> Option<Status> {
        status_of(value)
    }

    fn set_from_str(&mut self, value: &str) -> (ok: bool) {
        if str_eq(value, "baddump") {
            *self = Status::BadDump;
            true
        } else if str_eq(value, "nodump") {
            *self = Status::NoDump;
            true
        } else if str_eq(value, "good") {
            *self = Status::Good;
            true
        } else if str_eq(value, "verified") {
            *self = Status::Verified;
            true
        } else {
            false
        }
    }
}

} // verus!
