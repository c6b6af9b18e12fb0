//! Verified core of the Eustress engine's editor logic: purchase orders and
//! their registry, key bindings and menu actions, modal-tool and Move-tool
//! gestures, measurement sessions, numeric entry and its formula grammar,
//! selection clicks, light culling, the moderation dossier's measurements,
//! notifications, mesh import helpers, the language-server launcher and
//! stress-test sizing.

pub mod purchase;
pub mod purchase_store;
pub mod keybindings;
pub mod text;
pub mod modal_tool;
pub mod measure;
pub mod move_tool;
pub mod numeric_input;
pub mod formula;
pub mod menu_actions;
pub mod moderation;
pub mod dossier_digest;
pub mod signals;
pub mod notifications;
pub mod mesh_import;
pub mod light_cull;
pub mod part_selection;
pub mod engine_main;
pub mod lsp_launcher;
pub mod network_benchmark;
pub mod toml_doc;
pub mod purchase_documents;
