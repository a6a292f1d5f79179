//! Verified decision core of a download engine.
pub mod bittorrent;
pub mod bootstrap;
pub mod budget_laws;
pub mod byte_budget;
pub mod bytes;
pub mod call_laws;
pub mod compat_laws;
pub mod connection_laws;
pub mod control;
pub mod credential_laws;
pub mod credentials;
pub mod download_laws;
pub mod download_options;
pub mod effect_laws;
pub mod effect_sink;
pub mod effects;
pub mod encoding;
pub mod engine_build;
pub mod event_laws;
pub mod glob;
pub mod hex;
pub mod host_trust;
pub mod index;
pub mod json;
pub mod known_hosts;
pub mod message_laws;
pub mod metalink;
pub mod metalink_files;
pub mod metalink_follow;
pub mod metalink_laws;
pub mod metalink_selection;
pub mod metalink_spec;
pub mod metalink_tag_laws;
pub mod metalink_types;
pub mod native_api;
pub mod native_calls;
pub mod native_error;
pub mod native_laws;
pub mod native_queries;
pub mod options;
pub mod order;
pub mod pairs;
pub mod probe_targets;
pub mod process_laws;
pub mod protocols;
pub mod queue_laws;
pub mod queues;
pub mod reconcile;
pub mod reconcile_order;
pub mod rpc_broker;
pub mod rpc_budget;
pub mod rpc_client;
pub mod rpc_compat;
pub mod rpc_events;
pub mod rpc_filter_order;
pub mod rpc_result;
pub mod rpc_shared;
pub mod runtime_effects;
pub mod server_laws;
pub mod server_stats;
pub mod session;
pub mod session_aria2;
pub mod session_aria2_laws;
pub mod session_file;
pub mod session_format;
pub mod session_import;
pub mod session_laws;
pub mod session_lines;
pub mod session_render;
pub mod session_task_laws;
pub mod session_text;
pub mod session_torrent;
pub mod sftp;
pub mod sftp_connect;
pub mod shutdown;
pub mod slow_slots;
pub mod source_laws;
pub mod source_rows;
pub mod span;
pub mod ssh_laws;
pub mod startup;
pub mod startup_executor;
pub mod startup_filesystem;
pub mod startup_laws;
pub mod startup_messages;
pub mod startup_move_laws;
pub mod startup_repair_laws;
pub mod startup_restore;
pub mod startup_task_laws;
pub mod subscription_laws;
pub mod task_status;
pub mod text;
pub mod transport;
pub mod urls;
pub mod xml;
