pub mod attachments;
pub mod bindings;
pub mod blit;
pub mod blit_rail;
pub mod census;
pub mod clears;
pub mod command;
pub mod compute;
pub mod compute_rail;
pub mod compute_state;
pub mod draw;
pub mod draw_request;
pub mod encoder_marks;
pub mod encoder_state;
pub mod exec_result;
pub mod exec_streams;
pub mod executor;
pub mod fence_exec;
pub mod finish;
pub mod icb;
pub mod manifest;
pub mod preflight;
pub mod projection;
pub mod raster;
pub mod refusals;
pub mod render_rail;
pub mod render_records;
pub mod residency;
pub mod session;
pub mod sights;
pub mod slots;
pub mod stream_accum;
pub mod stream_binds;
pub mod stream_draws;
pub mod stream_pass;
pub mod stream_projection;
pub mod submission;
pub mod sync_records;
pub mod tables;
pub mod tile;
pub mod visibility;
pub mod walk;
