//! The command words of the NSQ TCP protocol.
use vstd::prelude::*;

verus! {

/// Magic bytes that select version 2 of the protocol.
pub const VERSION_2: &'static str = "  V2";
pub const IDENTIFY: &'static str = "IDENTIFY";
pub const PUB: &'static str = "PUB";
pub const MPUB: &'static str = "MPUB";
pub const DPUB: &'static str = "DPUB";
pub const SUB: &'static str = "SUB";
pub const RDY: &'static str = "RDY";
pub const FIN: &'static str = "FIN";
pub const NOP: &'static str = "NOP";

pub open spec fn version_2_chars() -> Seq<char> {
    seq![' ', ' ', 'V', '2']
}

pub open spec fn identify_word() -> Seq<char> {
    seq!['I', 'D', 'E', 'N', 'T', 'I', 'F', 'Y']
}

pub open spec fn pub_word() -> Seq<char> {
    seq!['P', 'U', 'B']
}

pub open spec fn mpub_word() -> Seq<char> {
    seq!['M', 'P', 'U', 'B']
}

pub open spec fn dpub_word() -> Seq<char> {
    seq!['D', 'P', 'U', 'B']
}

pub open spec fn sub_word() -> Seq<char> {
    seq!['S', 'U', 'B']
}

pub open spec fn rdy_word() -> Seq<char> {
    seq!['R', 'D', 'Y']
}

pub open spec fn fin_word() -> Seq<char> {
    seq!['F', 'I', 'N']
}

pub open spec fn nop_word() -> Seq<char> {
    seq!['N', 'O', 'P']
}

} // verus!
