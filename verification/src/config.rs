//! Settings of the user interface.
use vstd::prelude::*;

use crate::tui::input::{KeyCode, KeyModifiers};

verus! {

/// The key that switches to command mode.
#[derive(Debug, Clone)]
pub struct PrefixKey {
    pub code: KeyCode,
    pub modifiers: KeyModifiers,
    /// How the key is called in the status bar.
    pub name: String,
}

/// Whether a prefix key is the usual one, Ctrl-a.
pub open spec fn is_usual(key: PrefixKey) -> bool {
    &&& key.code == KeyCode::Char('a')
    &&& key.modifiers == (KeyModifiers {
        shift: false,
        control: true,
        alt: false,
        super_key: false,
        hyper: false,
        meta: false,
    })
    &&& key.name@ == "Ctrl-a"@
}

impl Default for PrefixKey {
    /// Ctrl-a.
    fn default() -> (key: Self)
        ensures
            is_usual(key),
    {
        Self {
            code: KeyCode::Char('a'),
            modifiers: KeyModifiers::control(),
            name: "Ctrl-a".to_string(),
        }
    }
}

impl PrefixKey {
    /// How the key is called in the status bar.
    pub fn display_name(&self) -> (name: &str)
        ensures
            name@ == self.name@,
    {
        self.name.as_str()
    }
}

} // verus!
