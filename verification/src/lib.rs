//! Playback orchestration core of a terminal streaming-audio client.
//!
//! The crate models the pieces with real invariants: the event bus that
//! decouples user input from state changes, the play queue, and the
//! orchestrator that turns events into player-state transitions, keeps the
//! elapsed-time clock, and performs the seek arithmetic.

mod events;
mod laws;
mod orchestrator;
mod queue;
mod track;
mod track_id;
mod tree;

pub use events::Event;
pub use events::EventManager;
pub use events::EventSpec;
pub use events::bus_events;
pub use events::bus_wakes;
pub use events::events_view;
pub use laws::is_play_state;
pub use laws::lemma_auto_advance;
pub use laws::lemma_auto_play_on_add;
pub use laws::lemma_seek_clamping;
pub use orchestrator::Action;
pub use orchestrator::OrchModel;
pub use orchestrator::Orchestrator;
pub use orchestrator::StepOut;
pub use orchestrator::clear_bus;
pub use orchestrator::elapsed_of;
pub use orchestrator::lemma_run_preserves_wf;
pub use orchestrator::lemma_step_preserves_wf;
pub use orchestrator::lemma_tick_preserves_wf;
pub use orchestrator::opt_track_view;
pub use orchestrator::resolved_ref;
pub use orchestrator::run;
pub use orchestrator::step;
pub use orchestrator::step_tick;
pub use orchestrator::ticks_for;
pub use orchestrator::wf_model;
pub use queue::Queue;
pub use queue::lemma_queue_fifo;
pub use track::PlayerState;
pub use track::Track;
pub use track::TrackSpec;
pub use track::display_label;
pub use track::joined_names;
pub use track::label_spec;
pub use track_id::ResolveError;
pub use track_id::b62_digit;
pub use track_id::b62_value;
pub use track_id::resolve_track_id;
pub use tree::PlaylistInfo;
pub use tree::PlaylistInfoSpec;
pub use tree::TreeEntry;
pub use tree::TreeEntrySpec;
pub use tree::entries_view;
pub use tree::track_run;
pub use tree::tracks_to_enqueue;
pub use tree::tracks_to_queue;
