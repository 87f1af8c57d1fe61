//! Preparing a draft post of a Jekyll site for publishing: the questions asked
//! on the console, the image directives of a draft, the front matter checks
//! and the list of tasks that publishing performs.

pub mod text;
pub mod console;
pub mod image;
pub mod tags;
pub mod post;
pub mod date;
pub mod environment;
pub mod tasks;
pub mod checks;
pub mod publish;
