use carla_bridge::classify;
use carla_bridge::register_payload;
use carla_bridge::Event;
use carla_bridge::OscArg;
use carla_bridge::OscMsg;

fn msg(addr: &str, args: Vec<OscArg>) -> OscMsg {
    OscMsg { addr: addr.to_string(), args }
}

/// The fourteen arguments of a well-formed plugin-info message.
fn info_args(id: i32, url: &str) -> Vec<OscArg> {
    vec![
        OscArg::Int(id),
        OscArg::Int(0),
        OscArg::Int(0),
        OscArg::Int(0),
        OscArg::Long(0),
        OscArg::Int(0),
        OscArg::Int(0),
        OscArg::Str("label".to_string()),
        OscArg::Str("maker".to_string()),
        OscArg::Str("copyright".to_string()),
        OscArg::Str("name".to_string()),
        OscArg::Str(url.to_string()),
        OscArg::Str("filename".to_string()),
        OscArg::Str("icon".to_string()),
    ]
}

fn cb_args(action: i32, id: i32, ival: i32, fval: f32) -> Vec<OscArg> {
    vec![
        OscArg::Int(action),
        OscArg::Int(id),
        OscArg::Int(ival),
        OscArg::Int(0),
        OscArg::Int(0),
        OscArg::Float(fval.to_bits()),
        OscArg::Str("".to_string()),
    ]
}

fn param_data_args(id: i32, param: i32, value: f32) -> Vec<OscArg> {
    vec![
        OscArg::Int(id),
        OscArg::Int(param),
        OscArg::Int(0),
        OscArg::Int(0),
        OscArg::Int(0),
        OscArg::Int(0),
        OscArg::Float(0.0f32.to_bits()),
        OscArg::Float(0.0f32.to_bits()),
        OscArg::Float(value.to_bits()),
    ]
}

#[test]
fn info_message_classifies_as_plugin_added() {
    let m = msg("/Carla/info", info_args(3, "urlA"));
    assert_eq!(
        classify(&m),
        Event::PluginAdded { id: 3, url: "urlA".to_string() }
    );
}

#[test]
fn param_message_classifies_as_param_changed() {
    let m = msg(
        "/Carla/param",
        vec![OscArg::Int(4), OscArg::Int(2), OscArg::Float(0.25f32.to_bits())],
    );
    assert_eq!(
        classify(&m),
        Event::ParamChanged { id: 4, param: 2, value: 0.25f32.to_bits() }
    );
}

#[test]
fn param_data_message_classifies_as_value_changed() {
    let m = msg("/Carla/paramData", param_data_args(6, 1, 0.75));
    assert_eq!(
        classify(&m),
        Event::ValueChanged { id: 6, param: 1, value: 0.75f32.to_bits() }
    );
}

#[test]
fn unknown_address_is_unrecognized() {
    let m = msg("/Carla/runtime", vec![OscArg::Int(1)]);
    assert_eq!(classify(&m), Event::Unrecognized);
}

// Classifier exactness: one extra, one missing, or one mistyped argument on
// a matching address never yields a partial match.

#[test]
fn info_with_extra_argument_is_unrecognized() {
    let mut args = info_args(3, "urlA");
    args.push(OscArg::Int(0));
    assert_eq!(classify(&msg("/Carla/info", args)), Event::Unrecognized);
}

#[test]
fn info_with_missing_argument_is_unrecognized() {
    let mut args = info_args(3, "urlA");
    args.pop();
    assert_eq!(classify(&msg("/Carla/info", args)), Event::Unrecognized);
}

#[test]
fn info_with_mistyped_argument_is_unrecognized() {
    let mut args = info_args(3, "urlA");
    args[4] = OscArg::Int(0); // the fifth argument must be a long
    assert_eq!(classify(&msg("/Carla/info", args)), Event::Unrecognized);
}

#[test]
fn param_with_extra_argument_is_unrecognized() {
    let m = msg(
        "/Carla/param",
        vec![
            OscArg::Int(4),
            OscArg::Int(2),
            OscArg::Float(0.25f32.to_bits()),
            OscArg::Int(0),
        ],
    );
    assert_eq!(classify(&m), Event::Unrecognized);
}

#[test]
fn param_with_missing_argument_is_unrecognized() {
    let m = msg("/Carla/param", vec![OscArg::Int(4), OscArg::Int(2)]);
    assert_eq!(classify(&m), Event::Unrecognized);
}

#[test]
fn param_with_mistyped_argument_is_unrecognized() {
    let m = msg(
        "/Carla/param",
        vec![OscArg::Int(4), OscArg::Int(2), OscArg::Int(1)],
    );
    assert_eq!(classify(&m), Event::Unrecognized);
}

#[test]
fn cb_with_extra_argument_is_unrecognized() {
    let mut args = cb_args(5, 7, 3, 0.5);
    args.push(OscArg::Int(0));
    assert_eq!(classify(&msg("/Carla/cb", args)), Event::Unrecognized);
}

#[test]
fn cb_with_missing_argument_is_unrecognized() {
    let mut args = cb_args(5, 7, 3, 0.5);
    args.pop();
    assert_eq!(classify(&msg("/Carla/cb", args)), Event::Unrecognized);
}

#[test]
fn cb_with_mistyped_argument_is_unrecognized() {
    let mut args = cb_args(5, 7, 3, 0.5);
    args[5] = OscArg::Int(0); // the sixth argument must be a float
    assert_eq!(classify(&msg("/Carla/cb", args)), Event::Unrecognized);
}

#[test]
fn param_data_with_extra_argument_is_unrecognized() {
    let mut args = param_data_args(6, 1, 0.75);
    args.push(OscArg::Float(0.0f32.to_bits()));
    assert_eq!(classify(&msg("/Carla/paramData", args)), Event::Unrecognized);
}

#[test]
fn param_data_with_missing_argument_is_unrecognized() {
    let mut args = param_data_args(6, 1, 0.75);
    args.pop();
    assert_eq!(classify(&msg("/Carla/paramData", args)), Event::Unrecognized);
}

#[test]
fn param_data_with_mistyped_argument_is_unrecognized() {
    let mut args = param_data_args(6, 1, 0.75);
    args[8] = OscArg::Int(0); // the ninth argument must be a float
    assert_eq!(classify(&msg("/Carla/paramData", args)), Event::Unrecognized);
}

// Callback action-code routing.

#[test]
fn cb_action_five_is_value_changed() {
    let m = msg("/Carla/cb", cb_args(5, 7, 3, 0.5));
    assert_eq!(
        classify(&m),
        Event::ValueChanged { id: 7, param: 3, value: 0.5f32.to_bits() }
    );
}

#[test]
fn cb_action_two_is_plugin_removed() {
    let m = msg("/Carla/cb", cb_args(2, 7, 3, 0.5));
    assert_eq!(classify(&m), Event::PluginRemoved { id: 7 });
}

#[test]
fn cb_other_action_is_unrecognized() {
    let m = msg("/Carla/cb", cb_args(99, 7, 3, 0.5));
    assert_eq!(classify(&m), Event::Unrecognized);
}

#[test]
fn register_payload_appends_host_path() {
    let url = "osc.udp://127.0.0.1:22753".to_string();
    assert_eq!(register_payload(&url), "osc.udp://127.0.0.1:22753/Carla".to_string());
}
