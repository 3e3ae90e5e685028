//! Bridge between an OSC-speaking audio-plugin host and a set of plugin
//! handlers: classifies the host's control messages into typed events,
//! tracks which handlers are interested in which plugin instances, and
//! fans events out to them, aggregating their optional side effects.

mod bridge;
mod classify;
mod ctrls;
mod effect;
mod osc;
mod registry;

pub use bridge::CarlaOSC;
pub use bridge::CarlaPluginHandler;
pub use bridge::drain_dispatches;
pub use bridge::drained_views;
pub use bridge::event_dispatches;
pub use bridge::lemma_registration_independence;
pub use bridge::register_payload;
pub use bridge::registered_after_register;
pub use bridge::registered_after_unregister;
pub use bridge::run_model;
pub use bridge::step_model;
pub use classify::arg_float;
pub use classify::arg_int;
pub use classify::arg_str;
pub use classify::cb_shape;
pub use classify::info_shape;
pub use classify::lemma_classifier_exact;
pub use classify::param_data_shape;
pub use classify::param_shape;
pub use classify::Event;
pub use classify::EventView;
pub use classify::classify;
pub use classify::spec_classify;
pub use classify::ENGINE_CALLBACK_PLUGIN_REMOVED;
pub use classify::ENGINE_CALLBACK_PARAMETER_VALUE_CHANGED;
pub use ctrls::CtrlsMemory;
pub use ctrls::spec_restored;
pub use effect::Aggregate;
pub use effect::append_effects;
pub use effect::as_filter_chain;
pub use effect::spec_effects;
pub use osc::OscArg;
pub use osc::OscArgView;
pub use osc::OscMsg;
pub use osc::OscMsgView;
pub use registry::Registry;
pub use registry::RegistryModel;
pub use registry::fanout_of;
pub use registry::id_fanout;
pub use registry::indices_bounded;
pub use registry::lemma_added_bounded;
pub use registry::lemma_removed_bounded;
pub use registry::lemma_fanout_follows_added;
pub use registry::spec_added;
pub use registry::spec_removed;
pub use registry::url_fanout;
pub use registry::url_listed;
