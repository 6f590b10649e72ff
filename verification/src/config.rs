//! The settings that the operator writes down for a node.

use vstd::prelude::*;
use crate::config_store::option_view;

verus! {

/// The operator's settings, as the configuration file gives them.
pub struct ConfigFromFile {
    pub fingerprint: String,
    pub port: u16,
    pub manager_addr: String,
    pub ipv6: Option<String>,
}

/// What a [`ConfigFromFile`] holds.
pub struct ConfigFromFileView {
    pub fingerprint: Seq<char>,
    pub port: u16,
    pub manager_addr: Seq<char>,
    pub ipv6: Option<Seq<char>>,
}

impl View for ConfigFromFile {
    type V = ConfigFromFileView;

    open spec fn view(&self) -> ConfigFromFileView {
        ConfigFromFileView {
            fingerprint: self.fingerprint@,
            port: self.port,
            manager_addr: self.manager_addr@,
            ipv6: option_view(self.ipv6),
        }
    }
}

} // verus!
