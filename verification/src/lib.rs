//! A cooperative, single-threaded toy operating system core: a slab table of
//! reusable slots, string channels with explicit close semantics, capability
//! typed channel handles, a busy-polling executor and a process tree.

pub mod channel;
pub mod channel_handler;
pub mod decimal;
pub mod descriptor;
pub mod fs;
pub mod future;
pub mod pid_fs;
pub mod pipe;
pub mod platforms;
pub mod proc;
pub mod risc_f;
pub mod root;
pub mod shell;
pub mod shell_platform;
pub mod spawner;
pub mod string_channel;
pub mod table;
pub mod tekenen;
pub mod terminal;
