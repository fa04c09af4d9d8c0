//! Node endpoint configuration with an explicit configuration generation.
use vstd::prelude::*;
use crate::text::{has_prefix, is_prefix, trim_str, trimmed};

verus! {

/// Why a node URL was refused.
#[derive(Debug, Clone, Copy, PartialEq, Eq, Structural)]
pub enum UrlError {
    /// Nothing but whitespace was given.
    Empty,
    /// The value does not start with `http://` or `https://`.
    BadScheme,
}

/// Whether an already trimmed value is acceptable as a node URL.
pub open spec fn node_url_ok(cleaned: Seq<char>) -> bool {
    cleaned.len() > 0 && (is_prefix("http://"@, cleaned) || is_prefix("https://"@, cleaned))
}

/// The node URL used before any is configured.
pub const DEFAULT_NODE_URL: &'static str = "https://grincoin.org";

/// Checks an already trimmed node URL.
pub fn check_node_url(cleaned: &str) -> (r: Result<(), UrlError>)
    ensures
        r == Ok::<(), UrlError>(()) <==> node_url_ok(cleaned@),
        r == Err::<(), UrlError>(UrlError::Empty) <==> cleaned@.len() == 0,
        r == Err::<(), UrlError>(UrlError::BadScheme) <==> (cleaned@.len() > 0 && !node_url_ok(cleaned@)),
{
    if cleaned.unicode_len() == 0 {
        return Err(UrlError::Empty);
    }
    if has_prefix(cleaned, "http://") || has_prefix(cleaned, "https://") {
        Ok(())
    } else {
        Err(UrlError::BadScheme)
    }
}

/// The configured node endpoint. Every change of the URL starts a new
/// generation, so that a wallet session opened against an older one can be
/// recognised as stale.
pub struct NodeConfig {
    pub url: String,
    pub generation: u64,
}

impl NodeConfig {
    /// A configuration holding the default node URL, at generation zero.
    pub fn new() -> (r: NodeConfig)
        ensures
            r.url@ == DEFAULT_NODE_URL@,
            r.generation == 0,
    {
        NodeConfig { url: DEFAULT_NODE_URL.to_owned(), generation: 0 }
    }

    /// Sets the node URL to `url` with surrounding whitespace removed. A value
    /// that is empty or has no http/https scheme is refused and the
    /// configuration stays as it was. A new value starts a new generation; the
    /// same value again changes nothing.
    pub fn update_node_url(&mut self, url: &str) -> (r: Result<(), UrlError>)
        requires
            old(self).generation < u64::MAX,
        ensures
            r is Ok <==> node_url_ok(trimmed(url@)),
            r is Err ==> *final(self) == *old(self),
            r == Err::<(), UrlError>(UrlError::Empty) <==> trimmed(url@).len() == 0,
            r is Ok ==> final(self).url@ == trimmed(url@),
            r is Ok && old(self).url@ == trimmed(url@) ==> final(self).generation == old(self).generation,
            r is Ok && old(self).url@ != trimmed(url@) ==> final(self).generation == old(self).generation + 1,
    {
        let cleaned = trim_str(url);
        match check_node_url(cleaned) {
            Err(e) => Err(e),
            Ok(()) => {
                if !str_eq(self.url.as_str(), cleaned) {
                    self.url = cleaned.to_owned();
                    self.generation = self.generation + 1;
                }
                Ok(())
            }
        }
    }

    /// The node URL in use.
    pub fn current_node_url(&self) -> (r: String)
        ensures
            r@ == self.url@,
    {
        self.url.clone()
    }
}

/// Whether two strings hold the same characters.
pub fn str_eq(a: &str, b: &str) -> (r: bool)
    ensures
        r == (a@ == b@),
{
    let n = a.unicode_len();
    if n != b.unicode_len() {
        return false;
    }
    let mut i: usize = 0;
    while i < n
        invariant
            n == a@.len(),
            n == b@.len(),
            i <= n,
            forall|k: int| 0 <= k < i ==> a@[k] == b@[k],
        decreases n - i,
    {
        if a.get_char(i) != b.get_char(i) {
            return false;
        }
        i = i + 1;
    }
    assert(a@ =~= b@);
    true
}

} // verus!
