//! Message classifier: maps a decoded OSC message (address plus typed,
//! positional arguments) to exactly one domain event, or `Unrecognized`.
//!
//! Matching is strict: a message whose address matches but whose argument
//! list deviates in arity or in any per-position type is `Unrecognized`,
//! never a partial match. Unrecognized messages are silently dropped by the
//! bridge; they are not errors.

use vstd::prelude::*;

use crate::osc::OscArg;
use crate::osc::OscArgView;
use crate::osc::OscMsg;
use crate::osc::OscMsgView;

verus! {

/// Host opcode carried by the generic callback address: a plugin was removed.
pub const ENGINE_CALLBACK_PLUGIN_REMOVED: i32 = 2;

/// Host opcode carried by the generic callback address: a parameter value changed.
pub const ENGINE_CALLBACK_PARAMETER_VALUE_CHANGED: i32 = 5;

/// A domain event decoded from one host message.
///
/// Real-valued fields carry the raw bits of the 32-bit IEEE-754 value, as in
/// [`OscArg::Float`].
#[derive(Debug, PartialEq, Eq)]
pub enum Event {
    PluginAdded { id: i32, url: String },
    ParamChanged { id: i32, param: i32, value: u32 },
    ValueChanged { id: i32, param: i32, value: u32 },
    PluginRemoved { id: i32 },
    Unrecognized,
}

/// Specification-level value of an event.
pub enum EventView {
    PluginAdded { id: i32, url: Seq<char> },
    ParamChanged { id: i32, param: i32, value: u32 },
    ValueChanged { id: i32, param: i32, value: u32 },
    PluginRemoved { id: i32 },
    Unrecognized,
}

impl View for Event {
    type V = EventView;

    open spec fn view(&self) -> EventView {
        match self {
            Event::PluginAdded { id, url } => EventView::PluginAdded { id: *id, url: url@ },
            Event::ParamChanged { id, param, value } => EventView::ParamChanged {
                id: *id,
                param: *param,
                value: *value,
            },
            Event::ValueChanged { id, param, value } => EventView::ValueChanged {
                id: *id,
                param: *param,
                value: *value,
            },
            Event::PluginRemoved { id } => EventView::PluginRemoved { id: *id },
            Event::Unrecognized => EventView::Unrecognized,
        }
    }
}

/// The integer carried by an argument known to be an `Int`.
pub open spec fn arg_int(a: OscArgView) -> i32
    recommends
        a is Int,
{
    a->Int_0
}

/// The raw bits carried by an argument known to be a `Float`.
pub open spec fn arg_float(a: OscArgView) -> u32
    recommends
        a is Float,
{
    a->Float_0
}

/// The characters carried by an argument known to be a `Str`.
pub open spec fn arg_str(a: OscArgView) -> Seq<char>
    recommends
        a is Str,
{
    a->Str_0
}

/// Exact shape of the plugin-info message: fourteen positional arguments.
/// The instance id is the first argument, the plugin url the twelfth.
pub open spec fn info_shape(args: Seq<OscArgView>) -> bool {
    &&& args.len() == 14
    &&& args[0] is Int
    &&& args[1] is Int
    &&& args[2] is Int
    &&& args[3] is Int
    &&& args[4] is Long
    &&& args[5] is Int
    &&& args[6] is Int
    &&& args[7] is Str
    &&& args[8] is Str
    &&& args[9] is Str
    &&& args[10] is Str
    &&& args[11] is Str
    &&& args[12] is Str
    &&& args[13] is Str
}

/// Exact shape of the parameter message: id, parameter index, value.
pub open spec fn param_shape(args: Seq<OscArgView>) -> bool {
    &&& args.len() == 3
    &&& args[0] is Int
    &&& args[1] is Int
    &&& args[2] is Float
}

/// Exact shape of the generic callback message: action code, id, three
/// integers, a value, and a string.
pub open spec fn cb_shape(args: Seq<OscArgView>) -> bool {
    &&& args.len() == 7
    &&& args[0] is Int
    &&& args[1] is Int
    &&& args[2] is Int
    &&& args[3] is Int
    &&& args[4] is Int
    &&& args[5] is Float
    &&& args[6] is Str
}

/// Exact shape of the raw-parameter-data message: six integers then three
/// values. The id is the first integer, the parameter index the second, and
/// the value the last argument.
pub open spec fn param_data_shape(args: Seq<OscArgView>) -> bool {
    &&& args.len() == 9
    &&& args[0] is Int
    &&& args[1] is Int
    &&& args[2] is Int
    &&& args[3] is Int
    &&& args[4] is Int
    &&& args[5] is Int
    &&& args[6] is Float
    &&& args[7] is Float
    &&& args[8] is Float
}

/// The event a message classifies to. Every message classifies to exactly
/// one event; anything that does not match an address together with its
/// exact argument shape is `Unrecognized`.
pub open spec fn spec_classify(m: OscMsgView) -> EventView {
    if m.addr == "/Carla/info"@ && info_shape(m.args) {
        EventView::PluginAdded { id: arg_int(m.args[0]), url: arg_str(m.args[11]) }
    } else if m.addr == "/Carla/param"@ && param_shape(m.args) {
        EventView::ParamChanged {
            id: arg_int(m.args[0]),
            param: arg_int(m.args[1]),
            value: arg_float(m.args[2]),
        }
    } else if m.addr == "/Carla/cb"@ && cb_shape(m.args) {
        if arg_int(m.args[0]) == ENGINE_CALLBACK_PARAMETER_VALUE_CHANGED {
            EventView::ValueChanged {
                id: arg_int(m.args[1]),
                param: arg_int(m.args[2]),
                value: arg_float(m.args[5]),
            }
        } else if arg_int(m.args[0]) == ENGINE_CALLBACK_PLUGIN_REMOVED {
            EventView::PluginRemoved { id: arg_int(m.args[1]) }
        } else {
            EventView::Unrecognized
        }
    } else if m.addr == "/Carla/paramData"@ && param_data_shape(m.args) {
        EventView::ValueChanged {
            id: arg_int(m.args[0]),
            param: arg_int(m.args[1]),
            value: arg_float(m.args[8]),
        }
    } else {
        EventView::Unrecognized
    }
}

fn is_int(a: &OscArg) -> (r: bool)
    ensures
        r == (a@ is Int),
{
    matches!(a, OscArg::Int(_))
}

fn is_long(a: &OscArg) -> (r: bool)
    ensures
        r == (a@ is Long),
{
    matches!(a, OscArg::Long(_))
}

fn is_float(a: &OscArg) -> (r: bool)
    ensures
        r == (a@ is Float),
{
    matches!(a, OscArg::Float(_))
}

fn is_str(a: &OscArg) -> (r: bool)
    ensures
        r == (a@ is Str),
{
    matches!(a, OscArg::Str(_))
}

fn get_int(a: &OscArg) -> (r: i32)
    requires
        a@ is Int,
    ensures
        r == arg_int(a@),
{
    match a {
        OscArg::Int(v) => *v,
        _ => vstd::pervasive::unreached(),
    }
}

fn get_float(a: &OscArg) -> (r: u32)
    requires
        a@ is Float,
    ensures
        r == arg_float(a@),
{
    match a {
        OscArg::Float(v) => *v,
        _ => vstd::pervasive::unreached(),
    }
}

fn get_str(a: &OscArg) -> (r: String)
    requires
        a@ is Str,
    ensures
        r@ == arg_str(a@),
{
    match a {
        OscArg::Str(s) => s.clone(),
        _ => vstd::pervasive::unreached(),
    }
}

fn check_info_shape(args: &Vec<OscArg>) -> (r: bool)
    ensures
        r == info_shape(args@.map_values(|a: OscArg| a@)),
{
    args.len() == 14 && is_int(&args[0]) && is_int(&args[1]) && is_int(&args[2]) && is_int(
        &args[3],
    ) && is_long(&args[4]) && is_int(&args[5]) && is_int(&args[6]) && is_str(&args[7]) && is_str(
        &args[8],
    ) && is_str(&args[9]) && is_str(&args[10]) && is_str(&args[11]) && is_str(&args[12]) && is_str(
        &args[13],
    )
}

fn check_param_shape(args: &Vec<OscArg>) -> (r: bool)
    ensures
        r == param_shape(args@.map_values(|a: OscArg| a@)),
{
    args.len() == 3 && is_int(&args[0]) && is_int(&args[1]) && is_float(&args[2])
}

fn check_cb_shape(args: &Vec<OscArg>) -> (r: bool)
    ensures
        r == cb_shape(args@.map_values(|a: OscArg| a@)),
{
    args.len() == 7 && is_int(&args[0]) && is_int(&args[1]) && is_int(&args[2]) && is_int(
        &args[3],
    ) && is_int(&args[4]) && is_float(&args[5]) && is_str(&args[6])
}

fn check_param_data_shape(args: &Vec<OscArg>) -> (r: bool)
    ensures
        r == param_data_shape(args@.map_values(|a: OscArg| a@)),
{
    args.len() == 9 && is_int(&args[0]) && is_int(&args[1]) && is_int(&args[2]) && is_int(
        &args[3],
    ) && is_int(&args[4]) && is_int(&args[5]) && is_float(&args[6]) && is_float(&args[7])
        && is_float(&args[8])
}

/// Classify one decoded message into its domain event.
pub fn classify(m: &OscMsg) -> (e: Event)
    ensures
        e@ == spec_classify(m@),
{
    if m.addr == "/Carla/info".to_owned() && check_info_shape(&m.args) {
        Event::PluginAdded { id: get_int(&m.args[0]), url: get_str(&m.args[11]) }
    } else if m.addr == "/Carla/param".to_owned() && check_param_shape(&m.args) {
        Event::ParamChanged {
            id: get_int(&m.args[0]),
            param: get_int(&m.args[1]),
            value: get_float(&m.args[2]),
        }
    } else if m.addr == "/Carla/cb".to_owned() && check_cb_shape(&m.args) {
        let action = get_int(&m.args[0]);
        if action == ENGINE_CALLBACK_PARAMETER_VALUE_CHANGED {
            Event::ValueChanged {
                id: get_int(&m.args[1]),
                param: get_int(&m.args[2]),
                value: get_float(&m.args[5]),
            }
        } else if action == ENGINE_CALLBACK_PLUGIN_REMOVED {
            Event::PluginRemoved { id: get_int(&m.args[1]) }
        } else {
            Event::Unrecognized
        }
    } else if m.addr == "/Carla/paramData".to_owned() && check_param_data_shape(&m.args) {
        Event::ValueChanged {
            id: get_int(&m.args[0]),
            param: get_int(&m.args[1]),
            value: get_float(&m.args[8]),
        }
    } else {
        Event::Unrecognized
    }
}

/// Classifier exactness: a message classifies to a given event kind exactly
/// when its address and its full argument shape match that kind, so a
/// matching address with one extra, missing or mistyped argument always
/// classifies as `Unrecognized`.
pub proof fn lemma_classifier_exact(m: OscMsgView)
    ensures
        spec_classify(m) is PluginAdded <==> (m.addr == "/Carla/info"@ && info_shape(m.args)),
        spec_classify(m) is ParamChanged <==> (m.addr == "/Carla/param"@ && param_shape(m.args)),
        spec_classify(m) is ValueChanged <==> ((m.addr == "/Carla/cb"@ && cb_shape(m.args)
            && arg_int(m.args[0]) == ENGINE_CALLBACK_PARAMETER_VALUE_CHANGED) || (m.addr
            == "/Carla/paramData"@ && param_data_shape(m.args))),
        spec_classify(m) is PluginRemoved <==> (m.addr == "/Carla/cb"@ && cb_shape(m.args)
            && arg_int(m.args[0]) == ENGINE_CALLBACK_PLUGIN_REMOVED),
{
    reveal_strlit("/Carla/info");
    reveal_strlit("/Carla/param");
    reveal_strlit("/Carla/cb");
    reveal_strlit("/Carla/paramData");
}

} // verus!
