//! Goals of a thread, the data a project keeps of them, and the review gate
//! that stands before a goal is complete.
pub mod gate;
pub mod gate_turn;
pub mod goal;
pub mod layers;
pub mod path;
pub mod project_data;
pub mod prompts;
pub mod result_turn;
pub mod review_completion;
pub mod review_request;
pub mod reviews;
pub mod run_dirs;
pub mod session;
pub mod storage;
pub mod text;
pub mod time;
pub mod turn_id;
pub mod version;
