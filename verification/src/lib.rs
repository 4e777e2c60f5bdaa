//! The logic of the rakukan Japanese input method, with its contracts: kana
//! and character-kind conversions (F6 to F10), the protection of digits and
//! Latin letters around the kana-kanji model, numerals, key bindings, the user
//! dictionary, the system dictionary builder and its binary format, the
//! input method's state, diagnostics, and the choice of inference backend.

pub mod diag;
pub mod dict;
pub mod dict_laws;
pub mod digit_laws;
pub mod digits;
pub mod gpu;
pub mod ime;
pub mod kana;
pub mod kanji;
pub mod keymap;
pub mod keymap_laws;
pub mod numerals;
pub mod rpc;
pub mod segments;
pub mod session;
pub mod text;
pub mod text_util;
pub mod user_dict;
pub mod wide;
