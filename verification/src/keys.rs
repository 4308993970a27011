//! Keys as the editor reads them, and their decoding from `pc_keyboard`.

use pc_keyboard::{DecodedKey, KeyCode};
use vstd::prelude::*;

verus! {

/// The non-character keys that the editor reacts to; every other key code is `Other`.
#[derive(Debug, Clone, Copy, PartialEq, Eq, Structural)]
pub enum NavKey {
    ArrowUp,
    ArrowDown,
    ArrowLeft,
    ArrowRight,
    Home,
    End,
    PageUp,
    PageDown,
    Delete,
    Other,
}

/// A keypress: a Unicode character (control characters included) or a raw key.
#[derive(Debug, Clone, Copy, PartialEq, Eq, Structural)]
pub enum EditorKey {
    Unicode(char),
    RawKey(NavKey),
}

#[verifier::external_type_specification]
#[verifier::external_body]
pub struct ExDecodedKey(DecodedKey);

#[verifier::external_type_specification]
#[verifier::external_body]
pub struct ExKeyCode(KeyCode);

/// A `pc_keyboard::DecodedKey`, taken apart into its two variants.
pub enum DecodedParts {
    Unicode(char),
    RawKey(KeyCode),
}

/// The variant and field of a `pc_keyboard::DecodedKey` (see `decoded_parts`).
pub uninterp spec fn parts_of(key: DecodedKey) -> DecodedParts;

/// The editor's reading of a `pc_keyboard::KeyCode` (see `nav_key`).
pub uninterp spec fn nav_of(code: KeyCode) -> NavKey;

/// Takes a `pc_keyboard::DecodedKey` apart.
///
/// Trusted: a match on the enum `pc_keyboard::DecodedKey` (0.8), whose variants are
/// `RawKey(KeyCode)` and `Unicode(char)`; each variant is moved into the variant of
/// `DecodedParts` of the same name. The enum is opaque here, so the contract names
/// the result.
#[verifier::external_body]
fn decoded_parts(key: DecodedKey) -> (p: DecodedParts)
    ensures
        p == parts_of(key),
{
    match key {
        DecodedKey::Unicode(c) => DecodedParts::Unicode(c),
        DecodedKey::RawKey(code) => DecodedParts::RawKey(code),
    }
}

/// Reads a `pc_keyboard::KeyCode`.
///
/// Trusted: a match on the enum `pc_keyboard::KeyCode` (0.8): each of the nine codes
/// `ArrowUp`, `ArrowDown`, `ArrowLeft`, `ArrowRight`, `Home`, `End`, `PageUp`,
/// `PageDown` and `Delete` gives the `NavKey` of the same name, every other code gives
/// `NavKey::Other`. The enum is opaque here, so the contract names the result.
#[verifier::external_body]
fn nav_key(code: KeyCode) -> (n: NavKey)
    ensures
        n == nav_of(code),
{
    match code {
        KeyCode::ArrowUp => NavKey::ArrowUp,
        KeyCode::ArrowDown => NavKey::ArrowDown,
        KeyCode::ArrowLeft => NavKey::ArrowLeft,
        KeyCode::ArrowRight => NavKey::ArrowRight,
        KeyCode::Home => NavKey::Home,
        KeyCode::End => NavKey::End,
        KeyCode::PageUp => NavKey::PageUp,
        KeyCode::PageDown => NavKey::PageDown,
        KeyCode::Delete => NavKey::Delete,
        _ => NavKey::Other,
    }
}

/// What a decoded keypress means to the editor.
pub open spec fn editor_key_of(key: DecodedKey) -> EditorKey {
    match parts_of(key) {
        DecodedParts::Unicode(c) => EditorKey::Unicode(c),
        DecodedParts::RawKey(code) => EditorKey::RawKey(nav_of(code)),
    }
}

/// Converts a keypress that `pc_keyboard` decoded into the editor's own key type.
pub fn decode_key(key: DecodedKey) -> (k: EditorKey)
    ensures
        k == editor_key_of(key),
{
    match decoded_parts(key) {
        DecodedParts::Unicode(c) => EditorKey::Unicode(c),
        DecodedParts::RawKey(code) => EditorKey::RawKey(nav_key(code)),
    }
}

} // verus!
