//! Patches to files, applied all at once or not at all.
//!
//! A patch is prepared ([`prepared`]): its hunks are played through on an overlay of the files
//! ([`overlay`]), which gives one batch of mutations ([`mutation`]). The batch is carried out
//! ([`batch`]): its files are checked ([`preflight`]), changed one by one ([`apply`], [`parents`]),
//! and put back when something fails ([`rollback`]). [`sequential`] carries it out one by one on a
//! filesystem that takes no batches. [`report`] says what is told of it.
//! [`sandboxed_file_system`], [`fs_helper`] and [`scoped_helper`] talk to a helper process that
//! touches files in a sandbox; [`quarantine`] and [`quarantine_directory`] move things aside before
//! they go; [`setup_payload`] reads what sandbox setup is started with.
//!
//! Nothing here touches a file. Each task is a state that says what it asks for (`request`) and takes
//! the reply (`resume`, or a function that goes from stage to step); whoever holds it carries the
//! request out. What follows a reply is a spec function, and the laws are proved of whole histories
//! of requests and replies. For batches: which ones are carried out ([`admission`]), that they are
//! carried out as a whole or not at all ([`atomicity`], [`aliases`], [`directories`]), when they are
//! ([`commitment`]) and when they are undone ([`restoration`], [`undoing`]), what they touch
//! ([`footprint`]), and that they end ([`progress`]). For patches: what the hunks do to the files
//! ([`net_effect`], [`applied`]), and what is said of it ([`record`], [`record_laws`]), from true
//! answers ([`reading`]). For quarantine: [`quarantine_laws`] and [`quarantine_steps`].

pub mod admission;
pub mod aliases;
pub mod applied;
pub mod apply;
pub mod atomicity;
pub mod base64_codec;
pub mod batch;
pub mod commitment;
pub mod directories;
pub mod error;
pub mod file_system;
pub mod footprint;
pub mod fs_helper;
pub mod mutation;
pub mod net_effect;
pub mod overlay;
pub mod parents;
pub mod path;
pub mod patch;
pub mod preflight;
pub mod prepared;
pub mod progress;
pub mod quarantine;
pub mod quarantine_directory;
pub mod quarantine_laws;
pub mod quarantine_steps;
pub mod reading;
pub mod record;
pub mod record_laws;
pub mod report;
pub mod restoration;
pub mod rollback;
pub mod sandboxed_file_system;
pub mod scoped_helper;
pub mod sequential;
pub mod setup_payload;
pub mod snapshot;
pub mod text;
pub mod undoing;
