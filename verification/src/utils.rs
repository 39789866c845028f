pub use crate::text::trimnw;
