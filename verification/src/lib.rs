//! Keystroke activity tracking: reconstructs the text a user ended up with
//! from a stream of classified keystroke events, keeps a bounded activity
//! trace for display, and maintains a bounded, watermarked event log that can
//! be summarized, compacted and persisted.

pub mod activity;
pub mod base64;
pub mod buffer;
pub mod codec;
pub mod decimal;
pub mod discovery;
pub mod display;
pub mod event_codec;
pub mod event_log;
pub mod events;
pub mod keystroke;
pub mod panes;
pub mod persist;
pub mod session;
pub mod summary;
pub mod text;
pub mod words;

pub use activity::{try_coalesce, KeystrokeActivity, KEYSTROKE_LOG_CAPACITY};
pub use base64::{base64_decode, base64_encode};
pub use buffer::{apply_to_buffer, Disposition, LiveBuffer};
pub use discovery::{
    crumbeez_dir, event_log_path_from_crumbeez_dir, required_dirs, scratch_dir, summaries_dir,
    DiscoveryPhase, RootDiscovery, CRUMBEEZ_DIR_NAME, SCRATCH_DIR, SUMMARIES_SUBDIR,
};
pub use event_log::{EventLog, LogEntry, EVENT_LOG_CAPACITY};
pub use events::{
    EditControlEvent, EventKind, KeystrokeEvent, NavDirection, NavigationEvent, PaneFocusedEvent,
    ShortcutEvent, ShortcutKey, SystemKeyEvent,
};
pub use keystroke::{classify, key_to_bytes, BareKey, KeyWithModifier};
pub use persist::EventLogError;
pub use session::Session;
pub use summary::{generate_summary, Summary};
pub use text::{next_char_boundary, prev_char_boundary};
pub use words::{word_left, word_right};
