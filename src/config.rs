//! The in-memory shape of the configuration: where to listen and which exports exist.

use vstd::prelude::*;
use crate::registry::{entries_map, ExportTable};

verus! {

/// The address listened on when the configuration names none.
pub open spec fn spec_default_address() -> Seq<char> {
    seq!['0', '.', '0', '.', '0', '.', '0']
}

/// The port listened on when the configuration names none.
pub const DEFAULT_PORT: u16 = 10809;

/// The decimal digits of `n`, most significant first, with no leading zeros.
pub open spec fn decimal(n: nat) -> Seq<char>
    decreases n,
{
    if n < 10 {
        seq![digit_char(n)]
    } else {
        decimal(n / 10).push(digit_char(n % 10))
    }
}

/// The character of the decimal digit `d`.
pub open spec fn digit_char(d: nat) -> char {
    ((d + 48) as u8) as char
}

/// Relies on `String::push`: appends one character at the end.
#[verifier::external_body]
fn push_char(s: &mut String, c: char)
    ensures
        final(s)@ == old(s)@.push(c),
{
    s.push(c)
}

/// Appends the decimal digits of `n` to `s`.
fn push_decimal(s: &mut String, n: u16)
    ensures
        final(s)@ == old(s)@ + decimal(n as nat),
    decreases n,
{
    if n >= 10 {
        push_decimal(s, n / 10);
    }
    let d: u8 = (n % 10) as u8;
    let c: char = (d + 48) as char;
    push_char(s, c);
    proof {
        if n >= 10 {
            assert(old(s)@ + decimal(n as nat) =~= (old(s)@ + decimal(n as nat / 10)).push(c));
        } else {
            assert(old(s)@ + decimal(n as nat) =~= old(s)@.push(c));
        }
    }
}

/// The address the server listens on.
pub struct ListenConfig {
    pub address: String,
    pub port: u16,
}

/// The address listened on when the configuration names none: all interfaces.
pub fn default_address() -> (r: String)
    ensures
        r@ == spec_default_address(),
{
    let s = "0.0.0.0".to_owned();
    proof {
        reveal_strlit("0.0.0.0");
        assert(s@ =~= spec_default_address());
    }
    s
}

/// The standard network block device port.
pub fn default_port() -> (r: u16)
    ensures
        r == DEFAULT_PORT,
{
    DEFAULT_PORT
}

impl Default for ListenConfig {
    fn default() -> (r: Self)
        ensures
            r.address@ == spec_default_address(),
            r.port == DEFAULT_PORT,
    {
        ListenConfig { address: default_address(), port: default_port() }
    }
}

impl ListenConfig {
    /// Builds the listen section from the fields the configuration gave,
    /// filling each missing one with its default.
    pub fn from_parts(address: Option<String>, port: Option<u16>) -> (r: ListenConfig)
        ensures
            r.address@ == (match address {
                Some(a) => a@,
                None => spec_default_address(),
            }),
            r.port == (match port {
                Some(p) => p,
                None => DEFAULT_PORT,
            }),
    {
        let address = match address {
            Some(a) => a,
            None => default_address(),
        };
        let port = match port {
            Some(p) => p,
            None => default_port(),
        };
        ListenConfig { address, port }
    }

    /// The text form `address:port`, as shown to the administrator and handed
    /// to the resolver of socket addresses.
    pub fn to_text(&self) -> (r: String)
        ensures
            r@ == self.address@ + seq![':'] + decimal(self.port as nat),
    {
        let mut s = self.address.clone();
        push_char(&mut s, ':');
        push_decimal(&mut s, self.port);
        proof {
            assert(s@ =~= self.address@ + seq![':'] + decimal(self.port as nat));
        }
        s
    }
}

/// An export as the configuration writes it out in full.
pub struct ExportConfigRaw {
    pub readonly: bool,
    pub path: String,
}

/// An export as the configuration may write it: a bare path, served
/// read-write, or a record with the read-only flag.
pub enum ExportSpec {
    Simple(String),
    Options(ExportConfigRaw),
}

/// One export: its backing path and whether it was asked to be read-only.
pub struct ExportConfig {
    pub readonly: bool,
    pub path: String,
}

impl Clone for ExportConfig {
    fn clone(&self) -> (r: Self)
        ensures
            r == *self,
    {
        ExportConfig { readonly: self.readonly, path: self.path.clone() }
    }
}

/// The export that a configuration entry describes.
pub open spec fn spec_export_of(spec: ExportSpec) -> ExportConfig {
    match spec {
        ExportSpec::Simple(path) => ExportConfig { readonly: false, path },
        ExportSpec::Options(raw) => ExportConfig { readonly: raw.readonly, path: raw.path },
    }
}

impl ExportConfig {
    /// Normalises either form of a configuration entry into an export.
    pub fn from_spec(spec: ExportSpec) -> (r: ExportConfig)
        ensures
            r == spec_export_of(spec),
    {
        match spec {
            ExportSpec::Simple(path) => ExportConfig { readonly: false, path },
            ExportSpec::Options(raw) => ExportConfig { readonly: raw.readonly, path: raw.path },
        }
    }
}

/// The pairs of a configuration's export section, each entry normalised.
pub open spec fn normalised(s: Seq<(String, ExportSpec)>) -> Seq<(String, ExportConfig)> {
    s.map_values(|p: (String, ExportSpec)| (p.0, spec_export_of(p.1)))
}

/// A whole configuration: where to listen and which exports to serve.
pub struct Config {
    pub listen: ListenConfig,
    pub exports: ExportTable,
}

impl Config {
    /// Builds a configuration from its listen section and the entries of its
    /// export section; a later entry for a name replaces an earlier one.
    pub fn new(listen: ListenConfig, exports: Vec<(String, ExportSpec)>) -> (r: Config)
        ensures
            r.listen == listen,
            r.exports@ == entries_map(normalised(exports@)),
    {
        let ghost src = exports@;
        let mut pairs: Vec<(String, ExportConfig)> = Vec::new();
        let mut rest = exports;
        while rest.len() > 0
            invariant
                rest@.len() <= src.len(),
                rest@ == src.subrange(src.len() - rest@.len(), src.len() as int),
                pairs@ == normalised(src).subrange(0, src.len() - rest@.len()),
            decreases rest@.len(),
        {
            let ghost k = src.len() - rest@.len();
            let (name, spec) = rest.remove(0);
            pairs.push((name, ExportConfig::from_spec(spec)));
            assert(rest@ =~= src.subrange(src.len() - rest@.len(), src.len() as int));
            assert(pairs@ =~= normalised(src).subrange(0, src.len() - rest@.len()));
        }
        assert(pairs@ =~= normalised(src));
        Config { listen, exports: ExportTable::from_entries(pairs) }
    }
}

} // verus!
