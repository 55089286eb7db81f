//! Sequenceable effect containers: a two-operation interface (`bind` and
//! `ret`) over container families, three instances of it (`Option`,
//! `Result`, `Vec`), and a desugaring engine that rewrites a linear
//! sequence of binding steps into the nested `bind` calls it stands for.

pub mod laws;
pub mod monad;
pub mod sequencer;

pub use monad::Monad;
