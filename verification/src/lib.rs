//! Identicons from text: a 32-bit rolling hash of the text's bytes picks a
//! hue and fifteen pattern bits, which are laid out on a mirrored 5×5 image.
//! The inverse direction is a search: strings over an alphabet are enumerated
//! by growing length until one of them draws a wanted black-and-white pattern.

pub mod hash;
pub mod canvas;
pub mod pattern;
pub mod glyph;
pub mod combinations;
pub mod search;
pub mod present;
