//! Verified core logic of the Gausian native editor: storyboard workflow
//! handling, workflow-to-prompt conversion, screenplay drafting helpers and the
//! collaboration session model.

pub mod board;
pub mod card_editor;
pub mod chat;
pub mod cloud_health;
pub mod cloud_job;
pub mod cloud_monitor;
pub mod collab;
pub mod comfy_jobs;
pub mod comfy_monitor;
pub mod comfy_output;
pub mod comfy_prompt;
pub mod comfy_queue;
pub mod draft;
pub mod draft_cards;
pub mod id_map;
pub mod ids;
pub mod input_display;
pub mod input_refresh;
pub mod input_spec;
pub mod job_registry;
pub mod screenplay;
pub mod screenplay_panel;
pub mod settings;
pub mod sorted;
pub mod structured;
pub mod json;
pub mod json_text;
pub mod naming;
pub mod patch;
pub mod phase_plan;
pub mod preset_scan;
pub mod project_paths;
pub mod keyed_map;
pub mod laws;
pub mod local_llm;
pub mod storyboard;
pub mod workflow_input;
pub mod workflow_catalog;
pub mod workflow_order;
pub mod workflow_preset;
pub mod ws;
pub mod text;
pub mod timeline;
pub mod transfer;
