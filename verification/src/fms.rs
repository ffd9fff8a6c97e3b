//! Family, model and stepping of a processor, and what is known of it by
//! name.
//!
//! A signature is taken apart here, and `ProcInfo` carries the names of a
//! design once they are known. Finding the names for a family and model
//! takes the makers' lists of designs, vendor by vendor, and those lists
//! are not part of this crate: there is no lookup from a signature to a
//! `ProcInfo`.

use vstd::prelude::*;
use vstd::std_specs::convert::FromSpecImpl;
use crate::cpuid::{CpuidResult, RawCpuid};
use crate::text::{decimal, push_decimal};

verus! {

/// The family that a processor signature stands for: the base family in
/// bits 8 to 11 plus the extended family in bits 20 to 27.
pub open spec fn family_of(eax: u32) -> int {
    (eax as int / 0x100) % 0x10 + (eax as int / 0x10_0000) % 0x100
}

/// The model that a processor signature stands for: the base model in
/// bits 4 to 7 plus sixteen times the extended model in bits 16 to 19.
pub open spec fn model_of(eax: u32) -> int {
    (eax as int / 0x10) % 0x10 + 0x10 * ((eax as int / 0x1_0000) % 0x10)
}

/// The stepping that a processor signature stands for: bits 0 to 3.
pub open spec fn stepping_of(eax: u32) -> int {
    eax as int % 0x10
}

/// A processor signature taken apart.
#[derive(Debug, Clone, Copy, PartialEq, Eq, Structural)]
pub struct FamModStep {
    /// Family, extended family included.
    pub syn_fam: u32,
    /// Model, extended model included.
    pub syn_mod: u32,
    /// Stepping.
    pub step: u32,
    /// The signature as the processor gave it.
    pub raw_eax: u32,
}

impl FamModStep {
    /// The fields are what the signature stands for.
    pub open spec fn of(eax: u32) -> FamModStep {
        FamModStep {
            syn_fam: family_of(eax) as u32,
            syn_mod: model_of(eax) as u32,
            step: stepping_of(eax) as u32,
            raw_eax: eax,
        }
    }

    /// Asks the processor for its signature, leaf 1, and takes it apart:
    /// the result is what the answer to that one query stands for.
    pub fn get() -> (fms: FamModStep)
        ensures
            fms == FamModStep::of(fms.raw_eax),
            exists|raw: RawCpuid|
                raw.leaf == 0x1 && raw.sub_leaf == 0x0 && fms == FamModStep::of(
                    #[trigger] raw.result.eax,
                ),
    {
        let raw = RawCpuid::exe(0x1, 0x0);
        FamModStep::from(&raw.result)
    }
}

impl From<u32> for FamModStep {
    fn from(eax: u32) -> (fms: FamModStep) {
        let base_family = (eax >> 8) & 0xF;
        let extended_family = (eax >> 20) & 0xFF;
        let base_model = (eax >> 4) & 0xF;
        let extended_model = (eax >> 12) & 0xF0;
        let stepping = eax & 0xF;
        assert(base_family == (eax / 0x100) % 0x10) by (bit_vector)
            requires
                base_family == (eax >> 8) & 0xF,
        ;
        assert(extended_family == (eax / 0x10_0000) % 0x100) by (bit_vector)
            requires
                extended_family == (eax >> 20) & 0xFF,
        ;
        assert(base_model == (eax / 0x10) % 0x10) by (bit_vector)
            requires
                base_model == (eax >> 4) & 0xF,
        ;
        assert(extended_model == 0x10 * ((eax / 0x1_0000) % 0x10)) by (bit_vector)
            requires
                extended_model == (eax >> 12) & 0xF0,
        ;
        assert(stepping == eax % 0x10) by (bit_vector)
            requires
                stepping == eax & 0xF,
        ;
        FamModStep {
            syn_fam: base_family + extended_family,
            syn_mod: base_model + extended_model,
            step: stepping,
            raw_eax: eax,
        }
    }
}

impl FromSpecImpl<u32> for FamModStep {
    open spec fn obeys_from_spec() -> bool {
        true
    }

    open spec fn from_spec(eax: u32) -> FamModStep {
        FamModStep::of(eax)
    }
}

impl From<&CpuidResult> for FamModStep {
    fn from(cpuid: &CpuidResult) -> (fms: FamModStep) {
        FamModStep::from(cpuid.eax)
    }
}

impl FromSpecImpl<&CpuidResult> for FamModStep {
    open spec fn obeys_from_spec() -> bool {
        true
    }

    open spec fn from_spec(cpuid: &CpuidResult) -> FamModStep {
        FamModStep::of(cpuid.eax)
    }
}

/// The size of the structures of a manufacturing process.
#[derive(Debug, Clone, Copy, PartialEq, Eq, Structural)]
pub enum ProcessNode {
    /// In micrometres.
    UM(u8),
    /// In nanometres.
    NM(u8),
    /// By the number that Intel gives its processes.
    Intel(u8),
}

impl ProcessNode {
    /// The node in words: the size and its unit, or the maker and the
    /// number.
    pub open spec fn spec_text(self) -> Seq<char> {
        match self {
            ProcessNode::UM(size) => decimal(size as int) + seq![' ', 'u', 'm'],
            ProcessNode::NM(size) => decimal(size as int) + seq![' ', 'n', 'm'],
            ProcessNode::Intel(size) => seq!['I', 'n', 't', 'e', 'l', ' '] + decimal(size as int),
        }
    }

    /// The node in words.
    pub fn text(&self) -> (s: String)
        ensures
            s@ == self.spec_text(),
    {
        let mut s = String::new();
        match self {
            ProcessNode::UM(size) => {
                push_decimal(&mut s, *size as u128);
                s.push(' ');
                s.push('u');
                s.push('m');
            },
            ProcessNode::NM(size) => {
                push_decimal(&mut s, *size as u128);
                s.push(' ');
                s.push('n');
                s.push('m');
            },
            ProcessNode::Intel(size) => {
                s.push('I');
                s.push('n');
                s.push('t');
                s.push('e');
                s.push('l');
                s.push(' ');
                push_decimal(&mut s, *size as u128);
            },
        }
        s
    }
}

impl From<ProcessNode> for String {
    fn from(node: ProcessNode) -> (s: String)
        ensures
            s@ == node.spec_text(),
    {
        node.text()
    }
}

impl FromSpecImpl<ProcessNode> for String {
    /// Strings are known by their characters only, so the conversion is
    /// stated through them, on `from` itself.
    open spec fn obeys_from_spec() -> bool {
        false
    }

    open spec fn from_spec(node: ProcessNode) -> String {
        arbitrary()
    }
}

/// Std's conversion of a string slice into a `String`: the string holds
/// the characters of the slice.
pub assume_specification<'a>[ <String as From<&'a str>>::from ](s: &str) -> (ret: String)
    ensures
        ret@ == s@,
;

/// What is known of a processor by name.
#[derive(Debug)]
pub struct ProcInfo {
    /// The name the maker gave the design.
    pub codename: String,
    /// The name of the microarchitecture.
    pub archname: String,
    /// The manufacturing process.
    pub process: String,
}

impl ProcInfo {
    /// Puts the three names together, each turned into a string.
    pub fn info<T: Into<String>, U: Into<String>>(code: &str, arch: T, process: U) -> (info:
        ProcInfo)
        ensures
            info.codename@ == code@,
            call_ensures(T::into, (arch,), info.archname),
            call_ensures(U::into, (process,), info.process),
    {
        ProcInfo {
            codename: String::from_str(code),
            archname: arch.into(),
            process: process.into(),
        }
    }
}

} // verus!
