use vstd::prelude::*;

pub mod add_remote;
pub mod add_remote_steps;
pub mod api;
pub mod attach;
pub mod build_info;
pub mod bundle;
pub mod client;
pub mod client_laws;
pub mod client_loop;
pub mod client_state;
pub mod compositor;
pub mod dispatch;
pub mod frame;
pub mod graphics;
pub mod input;
pub mod laws;
pub mod layout;
pub mod messages;
pub mod notify;
pub mod protocol;
pub mod remote;
pub mod remote_args;
pub mod remote_prep;
pub mod remote_registry;
pub mod seqs;
pub mod server_cli;
pub mod servers;
pub mod shell_line;
pub mod sidebar_plan;
pub mod startup;
pub mod supervisor;
pub mod supervisor_api;
pub mod text;
pub mod version;

verus! {

} // verus!
