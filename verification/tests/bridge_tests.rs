use carla_bridge::as_filter_chain;
use carla_bridge::Aggregate;
use carla_bridge::CarlaOSC;
use carla_bridge::CarlaPluginHandler;
use carla_bridge::OscArg;
use carla_bridge::OscMsg;

/// A handler that names itself in every effect it emits, so a test can see
/// exactly which handlers ran and in what order.
struct NamedHandler {
    name: &'static str,
    urls: Vec<String>,
    emit: bool,
    fail: bool,
}

impl NamedHandler {
    fn new(name: &'static str, urls: &[&str]) -> Self {
        NamedHandler {
            name,
            urls: urls.iter().map(|u| u.to_string()).collect(),
            emit: true,
            fail: false,
        }
    }

    fn silent(name: &'static str, urls: &[&str]) -> Self {
        NamedHandler { emit: false, ..Self::new(name, urls) }
    }

    fn failing(name: &'static str, urls: &[&str]) -> Self {
        NamedHandler { fail: true, ..Self::new(name, urls) }
    }
}

impl CarlaPluginHandler for NamedHandler {
    type Effect = String;
    type Error = String;

    fn get_plugin_urls(&self) -> Vec<String> {
        self.urls.clone()
    }

    fn on_plugin_added(&mut self, id: i32, url: &String) -> Result<Option<String>, String> {
        if self.fail {
            return Err(format!("{}-failed", self.name));
        }
        if self.emit {
            Ok(Some(format!("{}-added-{}-{}", self.name, id, url)))
        } else {
            Ok(None)
        }
    }

    fn on_plugin_removed(&mut self, id: i32) -> Result<Option<String>, String> {
        if self.fail {
            return Err(format!("{}-failed", self.name));
        }
        if self.emit {
            Ok(Some(format!("{}-removed-{}", self.name, id)))
        } else {
            Ok(None)
        }
    }

    fn on_param_changed(&mut self, id: i32, param: i32, value: u32) -> Result<Option<String>, String> {
        if self.fail {
            return Err(format!("{}-failed", self.name));
        }
        if self.emit {
            Ok(Some(format!("{}-param-{}-{}-{}", self.name, id, param, value)))
        } else {
            Ok(None)
        }
    }

    fn on_value_changed(&mut self, id: i32, param: i32, value: u32) -> Result<Option<String>, String> {
        if self.fail {
            return Err(format!("{}-failed", self.name));
        }
        if self.emit {
            Ok(Some(format!("{}-value-{}-{}-{}", self.name, id, param, value)))
        } else {
            Ok(None)
        }
    }
}

fn info_msg(id: i32, url: &str) -> OscMsg {
    OscMsg {
        addr: "/Carla/info".to_string(),
        args: vec![
            OscArg::Int(id),
            OscArg::Int(0),
            OscArg::Int(0),
            OscArg::Int(0),
            OscArg::Long(0),
            OscArg::Int(0),
            OscArg::Int(0),
            OscArg::Str("label".to_string()),
            OscArg::Str("maker".to_string()),
            OscArg::Str("copyright".to_string()),
            OscArg::Str("name".to_string()),
            OscArg::Str(url.to_string()),
            OscArg::Str("filename".to_string()),
            OscArg::Str("icon".to_string()),
        ],
    }
}

fn param_msg(id: i32, param: i32, value: f32) -> OscMsg {
    OscMsg {
        addr: "/Carla/param".to_string(),
        args: vec![OscArg::Int(id), OscArg::Int(param), OscArg::Float(value.to_bits())],
    }
}

#[test]
fn fanout_by_url_dispatches_only_interested_handlers() {
    let mut bridge: CarlaOSC<NamedHandler> = CarlaOSC::new(None)
        .with(NamedHandler::new("h1", &["urlA"]))
        .with(NamedHandler::new("h2", &["urlB"]));

    let r = bridge.on_osc_message(&info_msg(1, "urlA")).unwrap();
    assert_eq!(r, Some(Aggregate::Single("h1-added-1-urlA".to_string())));

    // A later value event for the instance keys off the recorded handlers,
    // not the url again: still only h1.
    let r = bridge.on_osc_message(&param_msg(1, 2, 0.5)).unwrap();
    assert_eq!(
        r,
        Some(Aggregate::Single(format!("h1-param-1-2-{}", 0.5f32.to_bits())))
    );
}

#[test]
fn multiple_handlers_on_one_url_aggregate_in_registration_order() {
    let mut bridge: CarlaOSC<NamedHandler> = CarlaOSC::new(None)
        .with(NamedHandler::new("h1", &["urlA"]))
        .with(NamedHandler::silent("h2", &["urlB"]))
        .with(NamedHandler::new("h3", &["urlA"]));

    let r = bridge.on_osc_message(&info_msg(2, "urlA")).unwrap();
    assert_eq!(
        r,
        Some(Aggregate::Batch(vec![
            "h1-added-2-urlA".to_string(),
            "h3-added-2-urlA".to_string(),
        ]))
    );
}

#[test]
fn unknown_instance_id_is_a_no_op() {
    let mut bridge: CarlaOSC<NamedHandler> =
        CarlaOSC::new(None).with(NamedHandler::new("h1", &["urlA"]));

    // No PluginAdded was ever seen for id 9.
    let r = bridge.on_osc_message(&param_msg(9, 0, 0.1));
    assert_eq!(r, Ok(None));
}

#[test]
fn unknown_url_dispatches_to_nobody() {
    let mut bridge: CarlaOSC<NamedHandler> =
        CarlaOSC::new(None).with(NamedHandler::new("h1", &["urlA"]));

    let r = bridge.on_osc_message(&info_msg(1, "urlC"));
    assert_eq!(r, Ok(None));
}

#[test]
fn removed_instance_gets_no_stale_fanout() {
    let mut bridge: CarlaOSC<NamedHandler> =
        CarlaOSC::new(None).with(NamedHandler::new("h1", &["urlA"]));

    bridge.on_osc_message(&info_msg(1, "urlA")).unwrap();

    // Action code 2 on the generic callback address: plugin removed.
    let removed = OscMsg {
        addr: "/Carla/cb".to_string(),
        args: vec![
            OscArg::Int(2),
            OscArg::Int(1),
            OscArg::Int(0),
            OscArg::Int(0),
            OscArg::Int(0),
            OscArg::Float(0.0f32.to_bits()),
            OscArg::Str("".to_string()),
        ],
    };
    let r = bridge.on_osc_message(&removed).unwrap();
    assert_eq!(r, Some(Aggregate::Single("h1-removed-1".to_string())));

    // The id was deleted on removal: a value event for a reused id reaches
    // nobody until a fresh added event.
    let r = bridge.on_osc_message(&param_msg(1, 0, 0.2));
    assert_eq!(r, Ok(None));
}

#[test]
fn handler_failure_aborts_dispatch() {
    let mut bridge: CarlaOSC<NamedHandler> = CarlaOSC::new(None)
        .with(NamedHandler::failing("h1", &["urlA"]))
        .with(NamedHandler::new("h2", &["urlA"]));

    let r = bridge.on_osc_message(&info_msg(1, "urlA"));
    assert_eq!(r, Err("h1-failed".to_string()));
}

#[test]
fn unrecognized_message_is_silently_dropped() {
    let mut bridge: CarlaOSC<NamedHandler> =
        CarlaOSC::new(None).with(NamedHandler::new("h1", &["urlA"]));

    let stray = OscMsg { addr: "/Carla/runtime".to_string(), args: vec![OscArg::Int(1)] };
    assert_eq!(bridge.on_osc_message(&stray), Ok(None));
}

#[test]
fn one_poll_drains_all_queued_messages() {
    let mut bridge: CarlaOSC<NamedHandler> =
        CarlaOSC::new(None).with(NamedHandler::new("h1", &["urlA"]));

    let queued = vec![
        info_msg(1, "urlA"),
        param_msg(1, 0, 0.5),
        info_msg(2, "urlA"),
    ];
    let r = bridge.run(queued).unwrap();
    assert_eq!(
        r,
        Some(Aggregate::Batch(vec![
            "h1-added-1-urlA".to_string(),
            format!("h1-param-1-0-{}", 0.5f32.to_bits()),
            "h1-added-2-urlA".to_string(),
        ]))
    );

    // The third message was dispatched too: id 2 is now live.
    let r = bridge.on_osc_message(&param_msg(2, 1, 0.25)).unwrap();
    assert_eq!(
        r,
        Some(Aggregate::Single(format!("h1-param-2-1-{}", 0.25f32.to_bits())))
    );
}

#[test]
fn registration_outcomes_are_independent_per_transport() {
    let mut bridge: CarlaOSC<NamedHandler> =
        CarlaOSC::new(Some("127.0.0.1".to_string()));

    // TCP registration reached the host, UDP reached nobody.
    bridge.apply_register_outcome(true, 1);
    bridge.apply_register_outcome(false, 0);
    assert!(bridge.registered_tcp);
    assert!(!bridge.registered_udp);

    // At shutdown, only a TCP unregister is owed, with the bare listen IP.
    assert!(bridge.should_unregister(true));
    assert!(!bridge.should_unregister(false));
    assert_eq!(bridge.unregister_payload(), Some("127.0.0.1".to_string()));

    bridge.apply_unregister_outcome(true, 1);
    assert!(!bridge.registered_tcp);
}

#[test]
fn registration_without_listen_ip_owes_no_unregister() {
    let mut bridge: CarlaOSC<NamedHandler> = CarlaOSC::default();
    bridge.apply_register_outcome(true, 1);
    assert!(bridge.registered_tcp);
    assert!(!bridge.should_unregister(true));
    assert_eq!(bridge.unregister_payload(), None);
}

#[test]
fn zero_effects_aggregate_to_none() {
    let effects: Vec<String> = vec![];
    assert_eq!(as_filter_chain(effects), None);
}

#[test]
fn one_effect_passes_through_unchanged() {
    let effects = vec!["only".to_string()];
    assert_eq!(
        as_filter_chain(effects),
        Some(Aggregate::Single("only".to_string()))
    );
}

#[test]
fn several_effects_aggregate_in_order() {
    let effects = vec!["a".to_string(), "b".to_string(), "c".to_string()];
    assert_eq!(
        as_filter_chain(effects),
        Some(Aggregate::Batch(vec![
            "a".to_string(),
            "b".to_string(),
            "c".to_string(),
        ]))
    );
}

#[test]
fn silent_handlers_produce_no_result() {
    let mut bridge: CarlaOSC<NamedHandler> =
        CarlaOSC::new(None).with(NamedHandler::silent("h1", &["urlA"]));

    let r = bridge.on_osc_message(&info_msg(1, "urlA"));
    assert_eq!(r, Ok(None));
}

/// A handler that overrides nothing but its url list: every callback keeps
/// its default body and emits nothing.
struct MinimalHandler {
    urls: Vec<String>,
}

impl CarlaPluginHandler for MinimalHandler {
    type Effect = String;
    type Error = String;

    fn get_plugin_urls(&self) -> Vec<String> {
        self.urls.clone()
    }
}

#[test]
fn default_callbacks_emit_nothing_and_succeed() {
    let mut bridge: CarlaOSC<MinimalHandler> =
        CarlaOSC::new(None).with(MinimalHandler { urls: vec!["urlA".to_string()] });

    assert_eq!(bridge.on_osc_message(&info_msg(1, "urlA")), Ok(None));
    assert_eq!(bridge.on_osc_message(&param_msg(1, 0, 0.5)), Ok(None));
}

#[test]
fn empty_drain_produces_nothing() {
    let mut bridge: CarlaOSC<NamedHandler> =
        CarlaOSC::new(None).with(NamedHandler::new("h1", &["urlA"]));

    assert_eq!(bridge.run(vec![]), Ok(None));
}

#[test]
fn failure_aborts_the_rest_of_the_drain() {
    let mut bridge: CarlaOSC<NamedHandler> = CarlaOSC::new(None)
        .with(NamedHandler::new("h1", &["urlA"]))
        .with(NamedHandler::failing("h2", &["urlA"]));

    // The first message reaches h1, then fails in h2, which aborts the
    // drain: the second message is never dispatched.
    let queued = vec![info_msg(1, "urlA"), info_msg(2, "urlA")];
    assert_eq!(bridge.run(queued), Err("h2-failed".to_string()));

    // Id 1 was recorded before its dispatch failed; id 2 never was added.
    assert_eq!(bridge.on_osc_message(&param_msg(2, 0, 0.5)), Ok(None));
    assert_eq!(
        bridge.on_osc_message(&param_msg(1, 0, 0.5)),
        Err("h2-failed".to_string())
    );
}
