//! Oh My Pi instruction files (`AGENTS.md`, `SYSTEM.md`) and slash-command
//! templates (`commands/*.md`): validation, revision guards and the decisions
//! of the prompt-file services, verified with Verus.

pub mod discovery;
pub mod error;
pub mod external;
pub mod prompt_files;
pub mod revision;
pub mod templates;
pub mod text;
