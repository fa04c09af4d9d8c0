//! Where the swap coordinator keeps its slates and which peer it talks to,
//! resolved by a fixed precedence. Every override starts a new configuration
//! generation, so that a coordinator built under an older one is rebuilt.
use vstd::prelude::*;
use crate::text::{has_suffix, is_suffix, parse_u64, u64_of};

verus! {

/// Suffix of the file holding a swap's public half.
pub const PUBLIC_SUFFIX: &'static str = ".pub.json";

/// Suffix of the file holding a swap's private half.
pub const PRIVATE_SUFFIX: &'static str = ".prv.json";

/// Name of the slate directory beneath the wallet's data directory.
pub const WALLET_SWAP_DIR: &'static str = "atomic_swap_txs";

/// Host and port of the counterparty.
#[derive(Debug, Clone)]
pub struct PeerEndpoint {
    pub host: String,
    pub port: String,
}

/// Runtime overrides of the swap settings.
pub struct SwapSettings {
    pub slate_override: Option<String>,
    pub peer_override: Option<PeerEndpoint>,
    pub generation: u64,
}

/// Where the slate directory comes from, in order of precedence.
#[derive(Debug, Clone)]
pub enum SlateDirectory {
    /// Set at run time.
    Override(String),
    /// Named by the environment.
    Environment(String),
    /// `WALLET_SWAP_DIR` beneath the wallet's data directory.
    WalletData(String),
    /// The packaged configuration's directory, an absolute path.
    Configured(String),
    /// The packaged configuration's directory, relative to the settings.
    BesideSettings(String),
}

impl SwapSettings {
    /// No overrides, at generation zero.
    pub fn new() -> (r: SwapSettings)
        ensures
            r.slate_override is None,
            r.peer_override is None,
            r.generation == 0,
    {
        SwapSettings { slate_override: None, peer_override: None, generation: 0 }
    }

    /// Overrides the slate directory and starts a new generation.
    pub fn set_slate_directory(&mut self, path: &str)
        requires
            old(self).generation < u64::MAX,
        ensures
            final(self).slate_override is Some,
            final(self).slate_override->0@ == path@,
            final(self).peer_override == old(self).peer_override,
            final(self).generation == old(self).generation + 1,
    {
        self.slate_override = Some(path.to_owned());
        self.generation = self.generation + 1;
    }

    /// Overrides the peer's host and port and starts a new generation.
    pub fn set_peer_endpoint(&mut self, host: &str, port: &str)
        requires
            old(self).generation < u64::MAX,
        ensures
            final(self).peer_override is Some,
            final(self).peer_override->0.host@ == host@,
            final(self).peer_override->0.port@ == port@,
            final(self).slate_override == old(self).slate_override,
            final(self).generation == old(self).generation + 1,
    {
        self.peer_override = Some(PeerEndpoint { host: host.to_owned(), port: port.to_owned() });
        self.generation = self.generation + 1;
    }

    /// The slate directory: the runtime override, else the environment's
    /// directory, else beneath the wallet's data directory, else the packaged
    /// configuration's directory, absolute or relative to the settings.
    pub fn resolve_slate_directory(
        &self,
        env_dir: Option<String>,
        wallet_data: Option<String>,
        configured: String,
        configured_is_absolute: bool,
    ) -> (r: SlateDirectory)
        ensures
            self.slate_override is Some ==> r is Override && r->Override_0@ == self.slate_override->0@,
            self.slate_override is None && env_dir is Some ==> r is Environment && r->Environment_0@ == env_dir->0@,
            self.slate_override is None && env_dir is None && wallet_data is Some ==> r is WalletData
                && r->WalletData_0@ == wallet_data->0@,
            self.slate_override is None && env_dir is None && wallet_data is None && configured_is_absolute
                ==> r is Configured && r->Configured_0@ == configured@,
            self.slate_override is None && env_dir is None && wallet_data is None && !configured_is_absolute
                ==> r is BesideSettings && r->BesideSettings_0@ == configured@,
    {
        match &self.slate_override {
            Some(p) => SlateDirectory::Override(p.clone()),
            None => match env_dir {
                Some(d) => SlateDirectory::Environment(d),
                None => match wallet_data {
                    Some(w) => SlateDirectory::WalletData(w),
                    None => if configured_is_absolute {
                        SlateDirectory::Configured(configured)
                    } else {
                        SlateDirectory::BesideSettings(configured)
                    },
                },
            },
        }
    }

    /// The peer's host and port: the runtime override, else the configured
    /// ones.
    pub fn resolve_peer_endpoint(&self, host: String, port: String) -> (r: PeerEndpoint)
        ensures
            self.peer_override is Some ==> r.host@ == self.peer_override->0.host@ && r.port@ == self.peer_override->0.port@,
            self.peer_override is None ==> r.host@ == host@ && r.port@ == port@,
    {
        match &self.peer_override {
            Some(p) => PeerEndpoint { host: p.host.clone(), port: p.port.clone() },
            None => PeerEndpoint { host, port },
        }
    }
}

/// The swap id a file name in the slate directory stands for: files holding
/// a public half are named by the decimal id followed by `PUBLIC_SUFFIX`;
/// any other name stands for none.
pub open spec fn swap_id_of_name(name: Seq<char>) -> Option<u64> {
    if is_suffix(PUBLIC_SUFFIX@, name) {
        u64_of(name.subrange(0, name.len() - PUBLIC_SUFFIX@.len()))
    } else {
        None
    }
}

/// The swap id the file `name` stands for, if any.
pub fn swap_id_from_file_name(name: &str) -> (r: Option<u64>)
    ensures
        r == swap_id_of_name(name@),
{
    if !has_suffix(name, PUBLIC_SUFFIX) {
        return None;
    }
    let n = name.unicode_len();
    let m = PUBLIC_SUFFIX.unicode_len();
    parse_u64(name.substring_char(0, n - m))
}

} // verus!
