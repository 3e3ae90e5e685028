//! Plain-value model of a decoded OSC control message: an address string
//! together with a positional, typed argument list.

use vstd::prelude::*;

verus! {

/// One positional argument of a decoded control message.
///
/// A real-valued argument is carried as the raw bits of its 32-bit IEEE-754
/// encoding: the bridge never computes with such a value, it only routes it
/// to the interested handlers, so the bit pattern is the faithful model.
#[derive(Debug, PartialEq, Eq)]
pub enum OscArg {
    Int(i32),
    Long(i64),
    Float(u32),
    Str(String),
}

/// Specification-level value of one argument.
pub enum OscArgView {
    Int(i32),
    Long(i64),
    Float(u32),
    Str(Seq<char>),
}

impl View for OscArg {
    type V = OscArgView;

    open spec fn view(&self) -> OscArgView {
        match self {
            OscArg::Int(v) => OscArgView::Int(*v),
            OscArg::Long(v) => OscArgView::Long(*v),
            OscArg::Float(v) => OscArgView::Float(*v),
            OscArg::Str(s) => OscArgView::Str(s@),
        }
    }
}

/// A decoded OSC message: address plus positional arguments.
pub struct OscMsg {
    pub addr: String,
    pub args: Vec<OscArg>,
}

/// Specification-level value of a message.
pub ghost struct OscMsgView {
    pub addr: Seq<char>,
    pub args: Seq<OscArgView>,
}

impl View for OscMsg {
    type V = OscMsgView;

    open spec fn view(&self) -> OscMsgView {
        OscMsgView { addr: self.addr@, args: self.args@.map_values(|a: OscArg| a@) }
    }
}

} // verus!
