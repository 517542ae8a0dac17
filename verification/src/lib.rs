//! Video concatenation and cutting around a local ffmpeg kit.
//!
//! The library holds the rules of both halves of the program. For the timeline:
//! the edit of a source as a list of time ranges, with selection, clipboard,
//! reordering, splitting and undo ([`editor`]), playback ([`transport`]),
//! pictures ([`frames`]), the edit list ([`edl`]) and the export of the edited
//! video ([`export`]). For the Concat panel ([`panel`]): joining clips
//! ([`concat`]), adding a track ([`add_audio`]), changing the speed ([`speed`],
//! [`tempo`]) and converting ([`convert`]).
//!
//! Nothing here touches the disk or runs a program. A job is a state machine
//! that asks for one action after the other and is told what came of each
//! ([`jobs`]); the searches for a free output name ([`naming`]), for the tools
//! of the kit ([`kit`]) and for the length of a file ([`probe`]) work alike.
//! Times of clips are of a type that the caller chooses; numbers are handed in
//! as text where they go into arguments and messages.
//!
//! What the operations are for is stated as laws, in modules of their own: the
//! commands as ffmpeg reads them ([`command`], [`command_laws`], [`graph_laws`]),
//! the jobs step by step ([`join_laws`], [`job_laws`]), the timeline clip by clip
//! ([`timeline_laws`], [`order_laws`]), the panel and playback ([`panel_laws`]),
//! pictures ([`picture_laws`]), names and places ([`name_laws`]), texts
//! ([`text_laws`], [`report_laws`]) and the models themselves ([`view_laws`]).
pub mod add_audio;
pub mod command;
pub mod command_laws;
pub mod concat;
pub mod convert;
pub mod editor;
pub mod edl;
pub mod export;
pub mod folders;
pub mod frames;
pub mod graph_laws;
pub mod job_laws;
pub mod jobs;
pub mod join_laws;
pub mod kit;
pub mod name_laws;
pub mod naming;
pub mod order_laws;
pub mod panel;
pub mod panel_laws;
pub mod paths;
pub mod picture_laws;
pub mod probe;
pub mod report_laws;
pub mod scan;
pub mod speed;
pub mod tempo;
pub mod text;
pub mod text_laws;
pub mod timeline;
pub mod timeline_laws;
pub mod transport;
pub mod view_laws;
