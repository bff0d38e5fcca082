//! Picks the toolchain that turns a source file into an executable, and
//! drives that toolchain's stages one external program at a time.

pub mod compilers;
pub mod lang;
pub mod path;
pub mod pipeline;

pub use compilers::{assembly, c, cpp, rust, Outcome, Stage};
pub use lang::{Lang, Registry};
pub use path::{default_outfile, extension, set_extension, PathBufUtils};
pub use pipeline::{Action, Compilation};
