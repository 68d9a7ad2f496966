//! Decision core of a Kubernetes Ingress and Gateway API controller.

pub mod backend_tls;
pub mod backend_tls_config_laws;
pub mod backend_tls_index;
pub mod backend_tls_laws;
pub mod cache;
pub mod cli;
pub mod conditions;
pub mod config;
pub mod discovery;
pub mod gateway_class_laws;
pub mod gateway_class_status;
pub mod gateway_decision_laws;
pub mod gateway_laws;
pub mod gateway_reconcile;
pub mod gateway_state_laws;
pub mod gateway_status;
pub mod ingress_events;
pub mod ingress_laws;
pub mod ingress_status;
pub mod json;
pub mod leader_label;
pub mod leadership;
pub mod leadership_laws;
pub mod listener_laws;
pub mod listener_plan_laws;
pub mod listener_status;
pub mod listeners;
pub mod listenerset_laws;
pub mod listenerset_status;
pub mod overrides;
pub mod ownership;
pub mod ownership_laws;
pub mod policy_laws;
pub mod policy_status;
pub mod ports;
pub mod reconcile;
pub mod reconcile_laws;
pub mod resources;
pub mod route_laws;
pub mod route_status;
pub mod service_laws;
pub mod settings_laws;
pub mod shared_vip;
pub mod status_loop;
pub mod table;
pub mod text;
pub mod text_laws;
pub mod watched_laws;
pub mod watched_status;
pub mod watcher;
pub mod write;
